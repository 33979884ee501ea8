//! The record store: the commands that persist, delete and consume records
//! in the backing key-value store, and what reading a stored value yields.

use crate::codec::{deserialize, record_bytes, serialize, wf_record};
use crate::error::Error;
use crate::record::{key, key_of, Record, RecordView};
use vstd::prelude::*;

verus! {

/// A write to the backing store.
#[derive(Debug, Clone, PartialEq, Eq)]
pub enum StoreCommand {
    /// Store `value` under `key`, to expire at the timestamp `expire_at` if any.
    Put { key: String, value: Vec<u8>, expire_at: Option<u64> },
    /// Remove `key`; removing an absent key is no error.
    Del { key: String },
}

/// A write to the backing store, as values.
pub enum CommandView {
    Put { key: Seq<char>, value: Seq<u8>, expire_at: Option<u64> },
    Del { key: Seq<char> },
}

impl View for StoreCommand {
    type V = CommandView;

    open spec fn view(&self) -> CommandView {
        match self {
            StoreCommand::Put { key, value, expire_at } => CommandView::Put {
                key: key@,
                value: value@,
                expire_at: *expire_at,
            },
            StoreCommand::Del { key } => CommandView::Del { key: key@ },
        }
    }
}

/// The backing store, as values: each key's bytes and the timestamp at which
/// it expires, if any.
pub type StoreView = Map<Seq<char>, (Seq<u8>, Option<u64>)>;

/// The store after the command `c`.
pub open spec fn apply(store: StoreView, c: CommandView) -> StoreView {
    match c {
        CommandView::Put { key, value, expire_at } => store.insert(key, (value, expire_at)),
        CommandView::Del { key } => store.remove(key),
    }
}

/// The store after its expiry sweep at time `now`: the keys whose expiry
/// has come are gone.
pub open spec fn sweep(store: StoreView, now: u64) -> StoreView {
    store.restrict(
        store.dom().filter(
            |k: Seq<char>|
                match store[k].1 {
                    Some(t) => t > now,
                    None => true,
                },
        ),
    )
}

/// The record whose stored form is `b`, if any.
pub open spec fn decoded(b: Seq<u8>) -> Option<RecordView> {
    if exists|m: RecordView| wf_record(m) && #[trigger] record_bytes(m) == b {
        Some(choose|m: RecordView| wf_record(m) && #[trigger] record_bytes(m) == b)
    } else {
        None
    }
}

/// The record that a read of `slug` finds in `store`.
pub open spec fn fetched(store: StoreView, slug: Seq<char>) -> Option<RecordView> {
    if store.contains_key(key_of(slug)) {
        decoded(store[key_of(slug)].0)
    } else {
        None
    }
}

/// The command that persists `r`.
pub open spec fn persist_command(r: RecordView) -> CommandView {
    CommandView::Put { key: key_of(r.slug), value: record_bytes(r), expire_at: r.expiry }
}

/// What one read of `r` does to the store: nothing when its reads are
/// unlimited, one access less when more than one is left, and its deletion
/// when the last one is used.
pub open spec fn consume_command(r: RecordView) -> Option<CommandView> {
    match r.accesses {
        None => None,
        Some(n) => if n > 1 {
            Some(persist_command(RecordView { accesses: Some((n - 1) as u16), ..r }))
        } else {
            Some(CommandView::Del { key: key_of(r.slug) })
        },
    }
}

impl Record {
    /// The command that writes this record to the store, with its expiry.
    pub fn persist(&self) -> (r: StoreCommand)
        ensures
            r@ == persist_command(self@),
            wf_record(self@),
    {
        StoreCommand::Put { key: key(self.slug()), value: serialize(self), expire_at: self.expiry() }
    }

    /// The command that removes this record from the store.
    pub fn delete(&self) -> (r: StoreCommand)
        ensures
            r@ == (CommandView::Del { key: key_of(self@.slug) }),
    {
        StoreCommand::Del { key: key(self.slug()) }
    }

    /// The record held by a stored value: none where the key was absent, an
    /// error where the value is no record's stored form.
    pub fn fetch(stored: Option<Vec<u8>>) -> (r: Result<Option<Record>, Error>)
        ensures
            stored is None ==> r == Ok::<Option<Record>, Error>(None),
            stored matches Some(b) ==> match decoded(b@) {
                Some(m) => r matches Ok(Some(rec)) && rec@ == m,
                None => r matches Err(Error::SerDe(_)),
            },
    {
        match stored {
            None => Ok(None),
            Some(b) => match deserialize(b.as_slice()) {
                Some(rec) => {
                    proof {
                        assert(wf_record(rec@) && record_bytes(rec@) == b@);
                    }
                    Ok(Some(rec))
                },
                None => Err(Error::SerDe(String::from_str("the stored value is no record"))),
            },
        }
    }

    /// Register one read of this record: the command to run on the store, if any.
    pub fn consume(self) -> (r: Option<StoreCommand>)
        ensures
            match r {
                None => consume_command(self@) is None,
                Some(c) => consume_command(self@) == Some(c@),
            },
    {
        match self.accesses() {
            None => None,
            Some(n) => {
                if n > 1 {
                    let next = self.with_accesses(Some(n - 1));
                    Some(next.persist())
                } else {
                    Some(self.delete())
                }
            },
        }
    }
}

/// One read of a record whose reads are limited: after the last one the
/// store no longer holds it, after another one it holds the same record with
/// one access less, and a record with unlimited reads is left as it was.
pub proof fn lemma_consumption(store: StoreView, r: RecordView)
    requires
        wf_record(r),
    ensures
        r.accesses == Some(1u16) ==> (consume_command(r) matches Some(c) && !apply(
            store,
            c,
        ).contains_key(key_of(r.slug)) && fetched(apply(store, c), r.slug) is None),
        r.accesses == Some(2u16) ==> (consume_command(r) matches Some(c) && fetched(
            apply(store, c),
            r.slug,
        ) == Some(RecordView { accesses: Some(1u16), ..r })),
        r.accesses is None ==> consume_command(r) is None,
{
    if r.accesses == Some(2u16) {
        let next = RecordView { accesses: Some(1u16), ..r };
        let b = record_bytes(next);
        assert(wf_record(next) && record_bytes(next) == b);
        let m = choose|m: RecordView| wf_record(m) && #[trigger] record_bytes(m) == b;
        crate::codec::lemma_round_trip(next, m);
    }
}

} // verus!
