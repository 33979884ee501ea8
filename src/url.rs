//! The urls that a redirect may point to.

use vstd::prelude::*;
use vstd::string::is_ascii_spec_bytes;
use vstd::utf8::is_ascii_chars;

verus! {

/// `http://`.
pub open spec fn http_prefix() -> Seq<char> {
    seq!['h', 't', 't', 'p', ':', '/', '/']
}

/// `https://`.
pub open spec fn https_prefix() -> Seq<char> {
    seq!['h', 't', 't', 'p', 's', ':', '/', '/']
}

/// `u` begins with `p`.
pub open spec fn starts_with(u: Seq<char>, p: Seq<char>) -> bool {
    u.len() >= p.len() && u.subrange(0, p.len() as int) == p
}

/// What follows the `http://` or `https://` that `u` begins with.
pub open spec fn after_scheme(u: Seq<char>) -> Option<Seq<char>> {
    if starts_with(u, https_prefix()) {
        Some(u.skip(8))
    } else if starts_with(u, http_prefix()) {
        Some(u.skip(7))
    } else {
        None
    }
}

/// A character that ends a url's authority.
pub open spec fn ends_authority(c: char) -> bool {
    c == '/' || c == '?' || c == '#'
}

/// The authority of `r`, what follows the scheme, is its first `k` characters.
pub open spec fn authority_end(r: Seq<char>, k: int) -> bool {
    &&& 0 <= k <= r.len()
    &&& k == r.len() || ends_authority(r[k])
    &&& forall|i: int| 0 <= i < k ==> !ends_authority(#[trigger] r[i])
}

/// The host of the authority `a` starts at `h`, after its last `@`.
pub open spec fn host_start(a: Seq<char>, h: int) -> bool {
    &&& 0 <= h <= a.len()
    &&& h == 0 || a[h - 1] == '@'
    &&& forall|i: int| h <= i < a.len() ==> #[trigger] a[i] != '@'
}

/// The authority of `r` holds a non-empty host: after the last `@`, neither
/// the end of the authority nor the `:` of a port follows.
pub open spec fn has_host(r: Seq<char>) -> bool {
    exists|k: int, h: int|
        authority_end(r, k) && #[trigger] host_start(r.subrange(0, k), h) && h < k && r[h]
            != ':'
}

/// An ASCII url with the scheme `http` or `https` and a non-empty host.
pub open spec fn url_accepted(u: Seq<char>) -> bool {
    &&& is_ascii_chars(u)
    &&& after_scheme(u) matches Some(r)
    &&& has_host(r)
}

fn is_delimiter(b: u8) -> (r: bool)
    ensures
        r == (b == 47 || b == 63 || b == 35),
{
    b == 47 || b == 63 || b == 35
}

/// Whether the url `u` may be the target of a redirect.
pub fn accepts_url(u: &str) -> (r: bool)
    ensures
        r == url_accepted(u@),
{
    broadcast use is_ascii_spec_bytes;

    if !u.is_ascii() {
        return false;
    }
    let b = u.as_bytes();
    let n = b.len();
    assert(b@ =~= Seq::new(u@.len(), |i| u@[i] as u8));
    let ghost s = u@;
    assert(forall|i: int| 0 <= i < s.len() ==> b@[i] == s[i] as u8);
    assert(forall|i: int| 0 <= i < s.len() ==> '\0' <= #[trigger] s[i] <= '\u{7f}');
    let https = n >= 8 && b[0] == 104 && b[1] == 116 && b[2] == 116 && b[3] == 112 && b[4] == 115
        && b[5] == 58 && b[6] == 47 && b[7] == 47;
    let http = n >= 7 && b[0] == 104 && b[1] == 116 && b[2] == 116 && b[3] == 112 && b[4] == 58
        && b[5] == 47 && b[6] == 47;
    proof {
        if n >= 8 {
            assert(https == (s.subrange(0, 8) =~= https_prefix()));
        }
        if n >= 7 {
            assert(http == (s.subrange(0, 7) =~= http_prefix()));
        }
    }
    let start: usize = if https {
        8
    } else if http {
        7
    } else {
        return false;
    };
    let ghost r = s.skip(start as int);
    assert(after_scheme(s) == Some(r));
    let mut i: usize = start;
    let mut h: usize = start;
    while i < n && !is_delimiter(b[i])
        invariant
            start <= h <= i <= n,
            n == s.len(),
            b@.len() == n,
            r == s.skip(start as int),
            forall|j: int| 0 <= j < s.len() ==> b@[j] == s[j] as u8,
            forall|j: int| 0 <= j < s.len() ==> '\0' <= #[trigger] s[j] <= '\u{7f}',
            forall|j: int| start <= j < i ==> !ends_authority(#[trigger] s[j]),
            h == start || s[h - 1] == '@',
            forall|j: int| h <= j < i ==> #[trigger] s[j] != '@',
        decreases n - i,
    {
        if b[i] == 64 {
            h = i + 1;
        }
        i = i + 1;
    }
    let ok = h < i && b[h] != 58;
    proof {
        let k = (i - start) as int;
        let hh = (h - start) as int;
        assert(authority_end(r, k));
        assert(host_start(r.subrange(0, k), hh));
        if ok {
            assert(has_host(r));
        } else {
            assert forall|k2: int, h2: int|
                authority_end(r, k2) && #[trigger] host_start(r.subrange(0, k2), h2) implies !(h2
                < k2 && r[h2] != ':') by {
                if k2 < k {
                    assert(!ends_authority(r[k2]));
                } else if k2 > k {
                    assert(!ends_authority(r[k]));
                }
                if h2 < hh {
                    assert(r.subrange(0, k2)[hh - 1] == '@');
                } else if h2 > hh {
                    assert(r.subrange(0, k)[h2 - 1] == '@');
                }
            }
        }
    }
    ok
}

} // verus!
