//! Records: what is stored under a slug, and how it is used up.

use vstd::prelude::*;

verus! {

/// The namespace of this library's keys in the backing store.
pub const STORAGE_PREFIX: &'static str = "shrekd:";

/// The characters of [`STORAGE_PREFIX`].
pub open spec fn storage_prefix() -> Seq<char> {
    seq!['s', 'h', 'r', 'e', 'k', 'd', ':']
}

/// The key under which the record with slug `slug` is stored.
pub open spec fn key_of(slug: Seq<char>) -> Seq<char> {
    storage_prefix() + slug
}

/// The key under which the record with slug `slug` is stored.
pub fn key(slug: &str) -> (r: String)
    ensures
        r@ == key_of(slug@),
{
    proof {
        reveal_strlit("shrekd:");
    }
    let mut k = String::from_str(STORAGE_PREFIX);
    k.append(slug);
    k
}

/// What a record holds, as values.
pub enum PayloadView {
    File { name: Seq<char>, path: Seq<char>, size: u64 },
    Url { target: Seq<char> },
    Paste { body: Seq<char> },
}

/// A record, as values.
pub struct RecordView {
    pub data: PayloadView,
    pub slug: Seq<char>,
    pub accesses: Option<u16>,
    pub expiry: Option<u64>,
}

/// A record's data, or a link to it.
#[derive(Debug, Clone, PartialEq, Eq)]
pub enum RecordData {
    /// A stored file: its name as uploaded, where its bytes lie, and their count.
    File { name: String, path: String, size: u64 },
    /// A url redirect.
    Url { target: String },
    /// A paste in UTF-8.
    Paste { body: String },
}

impl View for RecordData {
    type V = PayloadView;

    open spec fn view(&self) -> PayloadView {
        match self {
            RecordData::File { name, path, size } => PayloadView::File {
                name: name@,
                path: path@,
                size: *size,
            },
            RecordData::Url { target } => PayloadView::Url { target: target@ },
            RecordData::Paste { body } => PayloadView::Paste { body: body@ },
        }
    }
}

/// A record with its data, its slug, and its limits. It has no `Debug`:
/// its slug is a secret.
#[derive(Clone, PartialEq, Eq)]
pub struct Record {
    data: RecordData,
    slug: String,
    accesses: Option<u16>,
    expiry: Option<u64>,
}

impl View for Record {
    type V = RecordView;

    closed spec fn view(&self) -> RecordView {
        RecordView {
            data: self.data@,
            slug: self.slug@,
            accesses: self.accesses,
            expiry: self.expiry,
        }
    }
}

impl Record {
    /// Assemble a record from its parts.
    pub fn new(data: RecordData, slug: String, accesses: Option<u16>, expiry: Option<u64>) -> (r:
        Record)
        ensures
            r@ == (RecordView { data: data@, slug: slug@, accesses, expiry }),
    {
        Record { data, slug, accesses, expiry }
    }

    /// A record of a stored file.
    pub fn file(
        name: String,
        path: String,
        size: u64,
        slug: String,
        accesses: Option<u16>,
        expiry: Option<u64>,
    ) -> (r: Record)
        ensures
            r@ == (RecordView {
                data: PayloadView::File { name: name@, path: path@, size },
                slug: slug@,
                accesses,
                expiry,
            }),
    {
        Record { data: RecordData::File { name, path, size }, slug, accesses, expiry }
    }

    /// A record of a paste.
    pub fn paste(data: String, slug: String, accesses: Option<u16>, expiry: Option<u64>) -> (r:
        Record)
        ensures
            r@ == (RecordView {
                data: PayloadView::Paste { body: data@ },
                slug: slug@,
                accesses,
                expiry,
            }),
    {
        Record { data: RecordData::Paste { body: data }, slug, accesses, expiry }
    }

    /// A record of a url redirect.
    pub fn url(url: String, slug: String, accesses: Option<u16>, expiry: Option<u64>) -> (r:
        Record)
        ensures
            r@ == (RecordView {
                data: PayloadView::Url { target: url@ },
                slug: slug@,
                accesses,
                expiry,
            }),
    {
        Record { data: RecordData::Url { target: url }, slug, accesses, expiry }
    }

    /// The same record with another access count.
    pub fn with_accesses(self, accesses: Option<u16>) -> (r: Record)
        ensures
            r@ == (RecordView { accesses, ..self@ }),
    {
        Record { accesses, ..self }
    }

    /// The record's data.
    pub fn data(&self) -> (r: &RecordData)
        ensures
            r@ == self@.data,
    {
        &self.data
    }

    /// The record's slug.
    pub fn slug(&self) -> (r: &str)
        ensures
            r@ == self@.slug,
    {
        self.slug.as_str()
    }

    /// How many more times the record may be read, if that is limited.
    pub fn accesses(&self) -> (r: Option<u16>)
        ensures
            r == self@.accesses,
    {
        self.accesses
    }

    /// When the record expires, in seconds since the Unix epoch, if it does.
    pub fn expiry(&self) -> (r: Option<u64>)
        ensures
            r == self@.expiry,
    {
        self.expiry
    }
}

} // verus!
