//! The process configuration.

use crate::error::Error;
use crate::path::{join, joined};
use crate::retention::RetentionCurve;
use vstd::prelude::*;

verus! {

/// The name of the directory, under the data directory, that holds uploads
/// still in transit.
pub const TEMPDIR_NAME: &'static str = ".temporary";

/// The process configuration.
#[derive(Debug, Clone)]
pub struct Config {
    /// Address on which the server is exposed.
    pub address: String,
    /// Port on which the server is exposed.
    pub port: u16,
    /// Url of the backing store.
    pub redis_url: String,
    /// Directory of the records' files.
    pub data_dir: String,
    /// Length of random slugs, in characters.
    pub slug_length: u8,
    /// Largest file upload, in bytes.
    pub max_file_size: u64,
    /// Largest paste, in bytes.
    pub max_paste_size: u64,
    /// Largest url, in bytes.
    pub max_url_size: u64,
    /// Shortest retention, in seconds.
    pub retention_min_age: u64,
    /// Longest retention, in seconds.
    pub retention_max_age: u64,
}

impl Default for Config {
    fn default() -> (r: Self)
        ensures
            r.address@ == "0.0.0.0"@,
            r.port == 8000,
            r.redis_url@ == "redis://127.0.0.1:6379"@,
            r.data_dir@ == "/tmp/.shrekd"@,
            r.slug_length == 13,
            r.max_file_size == 128_000_000,
            r.max_paste_size == 1_000_000,
            r.max_url_size == 32_000,
            r.retention_min_age == 60 * 60 * 24 * 7,
            r.retention_max_age == 60 * 60 * 24 * 7 * 3,
    {
        Config {
            address: String::from_str("0.0.0.0"),
            port: 8000,
            redis_url: String::from_str("redis://127.0.0.1:6379"),
            data_dir: String::from_str("/tmp/.shrekd"),
            slug_length: 13,
            max_file_size: 128_000_000,
            max_paste_size: 1_000_000,
            max_url_size: 32_000,
            // one week
            retention_min_age: 60 * 60 * 24 * 7,
            // three weeks
            retention_max_age: 60 * 60 * 24 * 7 * 3,
        }
    }
}

/// The kinds of upload, each with its size limit.
#[derive(Debug, Clone, Copy, PartialEq, Eq, Structural)]
pub enum UploadKind {
    File,
    Paste,
    Url,
}

impl Config {
    /// The largest upload of `kind`, in bytes.
    pub open spec fn spec_limit(&self, kind: UploadKind) -> u64 {
        match kind {
            UploadKind::File => self.max_file_size,
            UploadKind::Paste => self.max_paste_size,
            UploadKind::Url => self.max_url_size,
        }
    }

    /// Whether an upload of `kind` and `size` bytes is within its limit.
    pub fn accepts_size(&self, kind: UploadKind, size: u64) -> (r: bool)
        ensures
            r == (size <= self.spec_limit(kind)),
    {
        let limit = match kind {
            UploadKind::File => self.max_file_size,
            UploadKind::Paste => self.max_paste_size,
            UploadKind::Url => self.max_url_size,
        };
        size <= limit
    }

    /// The directory of uploads still in transit.
    pub fn temp(&self) -> (r: String)
        ensures
            r@ == joined(self.data_dir@, TEMPDIR_NAME@),
    {
        join(self.data_dir.as_str(), TEMPDIR_NAME)
    }

    /// The retention curve of file uploads: from the configured ages, down to
    /// the shortest one at the largest upload.
    pub fn curve(&self) -> (r: Result<RetentionCurve, Error>)
        ensures
            self.retention_min_age > self.retention_max_age ==> r == Err::<RetentionCurve, Error>(
                Error::Retention(
                    crate::retention::Error::BoundDefinition(
                        self.retention_min_age,
                        self.retention_max_age,
                    ),
                ),
            ),
            self.retention_min_age <= self.retention_max_age ==> (r matches Ok(c)
                && c.min_age() == self.retention_min_age && c.max_age()
                == self.retention_max_age && c.max_size() == self.max_file_size),
    {
        match RetentionCurve::new(
            self.retention_min_age,
            self.retention_max_age,
            self.max_file_size,
        ) {
            Ok(c) => Ok(c),
            Err(e) => Err(Error::Retention(e)),
        }
    }
}

} // verus!
