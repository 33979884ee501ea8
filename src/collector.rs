//! The garbage collector's decisions: which store notifications concern
//! this library's records, and which files are orphaned by them.

use crate::path::{join, joined};
use crate::record::{key_of, storage_prefix, STORAGE_PREFIX};
use vstd::prelude::*;

verus! {

/// `key` lies in this library's namespace.
pub open spec fn in_namespace(key: Seq<char>) -> bool {
    key.len() >= storage_prefix().len() && key.subrange(0, storage_prefix().len() as int)
        == storage_prefix()
}

/// The slug that a store key names, if the key lies in this library's
/// namespace.
pub fn slug_of_key(key: &str) -> (r: Option<String>)
    ensures
        r is Some <==> in_namespace(key@),
        r matches Some(s) ==> key@ == key_of(s@),
{
    proof {
        reveal_strlit("shrekd:");
    }
    let prefix: &str = STORAGE_PREFIX;
    let m = prefix.unicode_len();
    let n = key.unicode_len();
    if n < m {
        return None;
    }
    let mut i: usize = 0;
    while i < m
        invariant
            prefix@ == storage_prefix(),
            m == prefix@.len(),
            n == key@.len(),
            m <= n,
            i <= m,
            forall|j: int| 0 <= j < i ==> key@[j] == prefix@[j],
        decreases m - i,
    {
        if key.get_char(i) != prefix.get_char(i) {
            proof {
                assert(key@.subrange(0, m as int)[i as int] != storage_prefix()[i as int]);
            }
            return None;
        }
        i = i + 1;
    }
    let rest = key.substring_char(m, n);
    proof {
        assert(key@.subrange(0, m as int) =~= storage_prefix());
        assert(key@ =~= storage_prefix() + rest@);
    }
    Some(String::from_str(rest))
}

/// What the collector does next with a notification.
#[derive(Debug, Clone, PartialEq, Eq)]
pub enum CleanupStep {
    /// Nothing: the notification concerns no orphaned record.
    Ignore,
    /// Ask the store whether a record with this slug exists, and report it
    /// to [`Collector::probed`].
    Probe(String),
    /// Remove the file at this path, if there is one.
    Remove(String),
}

/// The garbage collector, which removes the files of records that the
/// store deleted or expired.
#[derive(Debug)]
pub struct Collector {
    data_dir: String,
}

impl Collector {
    /// The directory that holds the records' files.
    pub closed spec fn spec_data_dir(&self) -> Seq<char> {
        self.data_dir@
    }

    /// A collector of the files under `data_dir`.
    pub fn new(data_dir: String) -> (r: Collector)
        ensures
            r.spec_data_dir() == data_dir@,
    {
        Collector { data_dir }
    }

    /// A key was deleted or expired: probe its slug, or ignore a key of
    /// another namespace without asking the store anything.
    pub fn notified(&self, key: &str) -> (r: CleanupStep)
        ensures
            !in_namespace(key@) ==> r == CleanupStep::Ignore,
            in_namespace(key@) ==> (r matches CleanupStep::Probe(s) && key@ == key_of(s@)),
    {
        match slug_of_key(key) {
            None => CleanupStep::Ignore,
            Some(slug) => CleanupStep::Probe(slug),
        }
    }

    /// The store answered whether a record with `slug` exists: a live record
    /// keeps its file, a gone one has it removed.
    pub fn probed(&self, slug: &str, exists: bool) -> (r: CleanupStep)
        ensures
            exists ==> r == CleanupStep::Ignore,
            !exists ==> (r matches CleanupStep::Remove(p) && p@ == joined(
                self.spec_data_dir(),
                slug@,
            )),
    {
        if exists {
            CleanupStep::Ignore
        } else {
            CleanupStep::Remove(join(self.data_dir.as_str(), slug))
        }
    }
}

} // verus!
