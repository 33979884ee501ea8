//! The operations that the HTTP layer calls: create records, and serve one
//! by its slug.

use crate::codec::string_from_utf8;
use crate::error::Error;
use crate::path::{join, joined};
use crate::record::{PayloadView, Record, RecordData, RecordView};
use crate::retention::RetentionCurve;
use crate::settings::{spec_expiry, RecordSettings, SettingsView};
use crate::store::{
    apply,
    consume_command,
    decoded,
    fetched,
    persist_command,
    sweep,
    StoreCommand,
    StoreView,
};
use crate::url::{accepts_url, url_accepted};
use vstd::prelude::*;
use vstd::utf8::{decode_utf8, valid_utf8};

verus! {

/// What a read of a record serves.
#[derive(Debug, Clone, PartialEq, Eq)]
pub enum RecordResponse {
    /// The bytes of the file at this path.
    File(String),
    /// A redirect to this url.
    Url(String),
    /// This text.
    Paste(String),
}

/// `r` serves the payload `d`.
pub open spec fn serves(r: RecordResponse, d: PayloadView) -> bool {
    match d {
        PayloadView::File { path, .. } => r matches RecordResponse::File(p) && p@ == path,
        PayloadView::Url { target } => r matches RecordResponse::Url(t) && t@ == target,
        PayloadView::Paste { body } => r matches RecordResponse::Paste(b) && b@ == body,
    }
}

/// What a read of a record with the data `data` serves.
pub fn response(data: &RecordData) -> (r: RecordResponse)
    ensures
        serves(r, data@),
{
    match data {
        RecordData::File { path, .. } => RecordResponse::File(path.clone()),
        RecordData::Url { target } => RecordResponse::Url(target.clone()),
        RecordData::Paste { body } => RecordResponse::Paste(body.clone()),
    }
}

/// Serve the record with slug `slug`, given what the store holds under its
/// key: what to serve, and the command that registers the read, if any.
pub fn get(slug: String, stored: Option<Vec<u8>>) -> (r: Result<
    (RecordResponse, Option<StoreCommand>),
    Error,
>)
    ensures
        stored is None ==> (r matches Err(Error::NotFound(s)) && s@ == slug@),
        stored matches Some(b) ==> match decoded(b@) {
            None => r matches Err(Error::SerDe(_)),
            Some(m) => r matches Ok((resp, cmd)) && serves(resp, m.data) && match cmd {
                None => consume_command(m) is None,
                Some(c) => consume_command(m) == Some(c@),
            },
        },
{
    let record = match Record::fetch(stored) {
        Err(e) => return Err(e),
        Ok(None) => return Err(Error::NotFound(slug)),
        Ok(Some(record)) => record,
    };
    let resp = response(record.data());
    let cmd = record.consume();
    Ok((resp, cmd))
}

/// A paste record of the uploaded bytes, created at `now`; an error where
/// they are not UTF-8.
pub fn create_paste(bytes: Vec<u8>, slug: String, settings: &RecordSettings, now: u64) -> (r:
    Result<Record, Error>)
    ensures
        r is Ok <==> valid_utf8(bytes@),
        r matches Ok(rec) ==> rec@ == (RecordView {
            data: PayloadView::Paste { body: decode_utf8(bytes@) },
            slug: slug@,
            accesses: settings@.max_access,
            expiry: spec_expiry(settings@, None, now),
        }),
        r matches Err(e) ==> e matches Error::PasteCreation(_),
{
    match string_from_utf8(bytes) {
        None => Err(Error::PasteCreation(String::from_str("the paste is not valid UTF-8"))),
        Some(text) => Ok(
            Record::paste(text, slug, settings.accesses(), settings.expiry(None, now)),
        ),
    }
}

/// A redirect record to `url`, created at `now`; an error where the url is
/// not an ASCII `http` or `https` url with a host.
pub fn create_url(url: String, slug: String, settings: &RecordSettings, now: u64) -> (r: Result<
    Record,
    Error,
>)
    ensures
        r is Ok <==> url_accepted(url@),
        r matches Ok(rec) ==> rec@ == (RecordView {
            data: PayloadView::Url { target: url@ },
            slug: slug@,
            accesses: settings@.max_access,
            expiry: spec_expiry(settings@, None, now),
        }),
        r matches Err(e) ==> e matches Error::UrlCreation(_),
{
    if !accepts_url(url.as_str()) {
        return Err(
            Error::UrlCreation(
                String::from_str("the url must use the http or https scheme and name a host"),
            ),
        );
    }
    Ok(Record::url(url, slug, settings.accesses(), settings.expiry(None, now)))
}

/// A file record for an upload of `size` bytes named `name`, stored under
/// `data_dir` by its slug, created at `now`; it expires when the retention
/// curve says, or earlier if the settings ask so.
pub fn create_file(
    name: String,
    size: u64,
    data_dir: &str,
    slug: String,
    settings: &RecordSettings,
    curve: &RetentionCurve,
    now: u64,
) -> (r: Record)
    ensures
        r@ == (RecordView {
            data: PayloadView::File { name: name@, path: joined(data_dir@, slug@), size },
            slug: slug@,
            accesses: settings@.max_access,
            expiry: spec_expiry(settings@, Some(curve.spec_compute_for(size) as u64), now),
        }),
        r@.expiry is Some,
{
    let path = join(data_dir, slug.as_str());
    let max_age = curve.compute_for(size);
    let expiry = settings.expiry(Some(max_age), now);
    Record::file(name, path, size, slug, settings.accesses(), expiry)
}

/// A record asked to expire right away is gone from the store once the
/// store has swept its expired keys, and a read of it then finds nothing.
pub proof fn lemma_expired_record_is_gone(
    store: StoreView,
    r: RecordView,
    s: SettingsView,
    now: u64,
    later: u64,
)
    requires
        s.expire_in == Some(0u64),
        s.expiry_timestamp is None,
        r.expiry == spec_expiry(s, None, now),
        now <= later,
    ensures
        r.expiry == Some(now),
        fetched(sweep(apply(store, persist_command(r)), later), r.slug) is None,
{
    let after = apply(store, persist_command(r));
    let k = crate::record::key_of(r.slug);
    assert(after[k].1 == Some(now));
    assert(!sweep(after, later).contains_key(k));
}

} // verus!
