//! The options a caller attaches to a new record.

use vstd::prelude::*;

verus! {

/// The value of a run of ASCII decimal digits.
pub open spec fn digits_value(s: Seq<char>) -> int
    decreases s.len(),
{
    if s.len() == 0 {
        0
    } else {
        digits_value(s.drop_last()) * 10 + (s.last() as int - '0' as int)
    }
}

/// The unsigned integer that `s` writes in decimal, an optional `+` followed
/// by at least one digit, if it is at most `max`.
pub open spec fn decimal_at_most(s: Seq<char>, max: int) -> Option<int> {
    let d = if s.len() > 0 && s[0] == '+' {
        s.drop_first()
    } else {
        s
    };
    if d.len() > 0 && (forall|i: int| 0 <= i < d.len() ==> '0' <= #[trigger] d[i] <= '9')
        && digits_value(d) <= max {
        Some(digits_value(d))
    } else {
        None
    }
}

/// Relies on `u64`'s `FromStr`: an optional `+` and one or more ASCII digits
/// whose value fits are accepted, anything else is refused.
#[verifier::external_body]
fn parse_u64(s: &str) -> (r: Option<u64>)
    ensures
        r matches Some(v) ==> decimal_at_most(s@, u64::MAX as int) == Some(v as int),
        r is None ==> decimal_at_most(s@, u64::MAX as int) is None,
{
    s.parse::<u64>().ok()
}

/// A header's value as an integer no greater than `max`: `Some(None)` when
/// the header is absent, `None` when it is present but unreadable.
pub open spec fn header_int(h: Option<Seq<char>>, max: int) -> Option<Option<int>> {
    match h {
        None => Some(None),
        Some(s) => match decimal_at_most(s, max) {
            Some(v) => Some(Some(v)),
            None => None,
        },
    }
}

/// An optional `u8` as an optional integer.
pub open spec fn widen8(o: Option<u8>) -> Option<int> {
    match o {
        Some(v) => Some(v as int),
        None => None,
    }
}

/// An optional `u16` as an optional integer.
pub open spec fn widen16(o: Option<u16>) -> Option<int> {
    match o {
        Some(v) => Some(v as int),
        None => None,
    }
}

/// An optional `u64` as an optional integer.
pub open spec fn widen64(o: Option<u64>) -> Option<int> {
    match o {
        Some(v) => Some(v as int),
        None => None,
    }
}

/// `x`, capped at `u64::MAX`.
pub open spec fn saturate(x: int) -> u64 {
    if x > u64::MAX {
        u64::MAX
    } else {
        x as u64
    }
}

fn parse_at_most(s: &str, max: u64) -> (r: Option<u64>)
    ensures
        r matches Some(v) ==> decimal_at_most(s@, max as int) == Some(v as int),
        r is None ==> decimal_at_most(s@, max as int) is None,
{
    match parse_u64(s) {
        Some(v) => if v <= max {
            Some(v)
        } else {
            None
        },
        None => None,
    }
}

fn parse_header(h: Option<&str>, max: u64) -> (r: Option<Option<u64>>)
    ensures
        match header_int(
            match h {
                Some(s) => Some(s@),
                None => None,
            },
            max as int,
        ) {
            Some(None) => r == Some(None::<u64>),
            Some(Some(v)) => r matches Some(Some(x)) && x as int == v,
            None => r is None,
        },
{
    match h {
        None => Some(None),
        Some(s) => match parse_at_most(s, max) {
            Some(v) => Some(Some(v)),
            None => None,
        },
    }
}

/// The options of a new record, as values.
pub struct SettingsView {
    pub max_access: Option<u16>,
    pub expiry_timestamp: Option<u64>,
    pub expire_in: Option<u64>,
    pub slug_length: Option<u8>,
    pub custom_slug: Option<Seq<char>>,
    pub data_checksum: Option<Seq<char>>,
}

/// The view of an optional string.
pub open spec fn opt_view(s: Option<String>) -> Option<Seq<char>> {
    match s {
        Some(x) => Some(x@),
        None => None,
    }
}

/// The view of an optional string slice.
pub open spec fn opt_str_view(s: Option<&str>) -> Option<Seq<char>> {
    match s {
        Some(x) => Some(x@),
        None => None,
    }
}

/// The options a caller attaches to a new record. An absolute expiry and a
/// relative one are never both given.
#[derive(Debug)]
pub struct RecordSettings {
    /// Number of reads before the record is removed.
    max_access: Option<u16>,
    /// UTC timestamp at which the record is removed.
    expiry_timestamp: Option<u64>,
    /// Seconds from now after which the record is removed.
    expire_in: Option<u64>,
    /// Desired slug length.
    slug_length: Option<u8>,
    /// Desired custom slug.
    custom_slug: Option<String>,
    /// Checksum of the uploaded data; accepted, and not checked.
    data_checksum: Option<String>,
}

impl View for RecordSettings {
    type V = SettingsView;

    closed spec fn view(&self) -> SettingsView {
        SettingsView {
            max_access: self.max_access,
            expiry_timestamp: self.expiry_timestamp,
            expire_in: self.expire_in,
            slug_length: self.slug_length,
            custom_slug: opt_view(self.custom_slug),
            data_checksum: opt_view(self.data_checksum),
        }
    }
}

/// The expiry of a record created at `now` with the options `s`, capped at
/// `now + max_age` where a `max_age` is given; sums past `u64::MAX` stop there.
pub open spec fn spec_expiry(s: SettingsView, max_age: Option<u64>, now: u64) -> Option<u64> {
    let requested: Option<u64> = match s.expiry_timestamp {
        Some(t) => Some(t),
        None => match s.expire_in {
            Some(a) => Some(saturate(now + a)),
            None => None,
        },
    };
    match max_age {
        Some(m) => {
            let cap = saturate(now + m);
            match requested {
                Some(t) => Some(
                    if t <= cap {
                        t
                    } else {
                        cap
                    },
                ),
                None => Some(cap),
            }
        },
        None => requested,
    }
}

impl RecordSettings {
    /// An absolute expiry and a relative one are never both given.
    #[verifier::type_invariant]
    spec fn one_expiry(&self) -> bool {
        !(self.expiry_timestamp is Some && self.expire_in is Some)
    }

    /// Options from their values; none where both an absolute and a relative
    /// expiry are given.
    pub fn new(
        max_access: Option<u16>,
        expiry_timestamp: Option<u64>,
        expire_in: Option<u64>,
        slug_length: Option<u8>,
        custom_slug: Option<String>,
        data_checksum: Option<String>,
    ) -> (r: Option<RecordSettings>)
        ensures
            r is Some <==> !(expiry_timestamp is Some && expire_in is Some),
            r matches Some(s) ==> s@ == (SettingsView {
                max_access,
                expiry_timestamp,
                expire_in,
                slug_length,
                custom_slug: opt_view(custom_slug),
                data_checksum: opt_view(data_checksum),
            }),
    {
        if expiry_timestamp.is_some() && expire_in.is_some() {
            return None;
        }
        Some(
            RecordSettings {
                max_access,
                expiry_timestamp,
                expire_in,
                slug_length,
                custom_slug,
                data_checksum,
            },
        )
    }

    /// Options read from the text of the request's headers `Max-Access`,
    /// `Expiry-Timestamp`, `Expire-In`, `Slug-Length`, `Custom-Slug` and
    /// `Data-Checksum`; none where a number is unreadable or out of its
    /// type's range, or where both expiries are given.
    pub fn from_headers(
        max_access: Option<&str>,
        expiry_timestamp: Option<&str>,
        expire_in: Option<&str>,
        slug_length: Option<&str>,
        custom_slug: Option<&str>,
        data_checksum: Option<&str>,
    ) -> (r: Option<RecordSettings>)
        ensures
            ({
                let a = header_int(opt_str_view(max_access), u16::MAX as int);
                let t = header_int(opt_str_view(expiry_timestamp), u64::MAX as int);
                let i = header_int(opt_str_view(expire_in), u64::MAX as int);
                let l = header_int(opt_str_view(slug_length), u8::MAX as int);
                &&& r is Some <==> (a is Some && t is Some && i is Some && l is Some && !(t
                    == Some(Some(t->0->0)) && i == Some(Some(i->0->0))))
                &&& r matches Some(s) ==> {
                    &&& widen16(s@.max_access) == a->0
                    &&& widen64(s@.expiry_timestamp) == t->0
                    &&& widen64(s@.expire_in) == i->0
                    &&& widen8(s@.slug_length) == l->0
                    &&& s@.custom_slug == opt_str_view(custom_slug)
                    &&& s@.data_checksum == opt_str_view(data_checksum)
                }
            }),
    {
        let a = match parse_header(max_access, 0xffff) {
            Some(v) => v,
            None => return None,
        };
        let t = match parse_header(expiry_timestamp, u64::MAX) {
            Some(v) => v,
            None => return None,
        };
        let i = match parse_header(expire_in, u64::MAX) {
            Some(v) => v,
            None => return None,
        };
        let l = match parse_header(slug_length, 0xff) {
            Some(v) => v,
            None => return None,
        };
        let max_access: Option<u16> = match a {
            Some(v) => Some(v as u16),
            None => None,
        };
        let slug_length: Option<u8> = match l {
            Some(v) => Some(v as u8),
            None => None,
        };
        let custom_slug = match custom_slug {
            Some(s) => Some(String::from_str(s)),
            None => None,
        };
        let data_checksum = match data_checksum {
            Some(s) => Some(String::from_str(s)),
            None => None,
        };
        RecordSettings::new(max_access, t, i, slug_length, custom_slug, data_checksum)
    }

    /// The number of reads the record allows, if limited.
    pub fn accesses(&self) -> (r: Option<u16>)
        ensures
            r == self@.max_access,
    {
        self.max_access
    }

    /// The desired slug length, if any.
    pub fn slug_length(&self) -> (r: Option<u8>)
        ensures
            r == self@.slug_length,
    {
        self.slug_length
    }

    /// The desired custom slug, if any.
    pub fn custom_slug(&self) -> (r: Option<&String>)
        ensures
            r matches Some(s) ==> self@.custom_slug == Some(s@),
            r is None ==> self@.custom_slug is None,
    {
        self.custom_slug.as_ref()
    }

    /// The expiry of a record created at `now`, capped at `now + max_age`
    /// where a `max_age` is given.
    pub fn expiry(&self, max_age: Option<u64>, now: u64) -> (r: Option<u64>)
        ensures
            r == spec_expiry(self@, max_age, now),
    {
        let requested = match self.expiry_timestamp {
            Some(t) => Some(t),
            None => match self.expire_in {
                Some(a) => Some(now.saturating_add(a)),
                None => None,
            },
        };
        match max_age {
            Some(m) => {
                let cap = now.saturating_add(m);
                match requested {
                    Some(t) => Some(
                        if t <= cap {
                            t
                        } else {
                            cap
                        },
                    ),
                    None => Some(cap),
                }
            },
            None => requested,
        }
    }
}

} // verus!
