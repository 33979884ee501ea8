//! The stored form of a record: a tag byte for the payload's kind, each text
//! as its UTF-8 byte count (8 bytes, little-endian) followed by those bytes,
//! integers little-endian, and each optional value behind a 0/1 byte.

use crate::record::{PayloadView, Record, RecordData, RecordView};
use vstd::bytes::{
    lemma_auto_spec_u16_to_from_le_bytes,
    lemma_auto_spec_u64_to_from_le_bytes,
    spec_u16_to_le_bytes,
    spec_u64_to_le_bytes,
    u16_from_le_bytes,
    u16_to_le_bytes,
    u64_from_le_bytes,
    u64_to_le_bytes,
};
use vstd::prelude::*;
use vstd::slice::{slice_subrange, slice_to_vec};
use vstd::utf8::{
    decode_utf8,
    decode_utf8_encode_utf8,
    encode_utf8,
    encode_utf8_decode_utf8,
    encode_utf8_valid_utf8,
    valid_utf8,
};

verus! {

/// A text whose UTF-8 byte count fits the 8-byte length field.
pub open spec fn wf_text(s: Seq<char>) -> bool {
    encode_utf8(s).len() <= u64::MAX
}

/// The stored form of a text.
pub open spec fn text_bytes(s: Seq<char>) -> Seq<u8> {
    spec_u64_to_le_bytes(encode_utf8(s).len() as u64) + encode_utf8(s)
}

/// The stored form of a payload.
pub open spec fn payload_bytes(p: PayloadView) -> Seq<u8> {
    match p {
        PayloadView::File { name, path, size } => seq![0u8] + text_bytes(name) + text_bytes(path)
            + spec_u64_to_le_bytes(size),
        PayloadView::Url { target } => seq![1u8] + text_bytes(target),
        PayloadView::Paste { body } => seq![2u8] + text_bytes(body),
    }
}

/// The stored form of an access count.
pub open spec fn count_bytes(c: Option<u16>) -> Seq<u8> {
    match c {
        None => seq![0u8],
        Some(n) => seq![1u8] + spec_u16_to_le_bytes(n),
    }
}

/// The stored form of an expiry.
pub open spec fn stamp_bytes(e: Option<u64>) -> Seq<u8> {
    match e {
        None => seq![0u8],
        Some(t) => seq![1u8] + spec_u64_to_le_bytes(t),
    }
}

/// The stored form of a record.
pub open spec fn record_bytes(r: RecordView) -> Seq<u8> {
    payload_bytes(r.data) + text_bytes(r.slug) + count_bytes(r.accesses) + stamp_bytes(r.expiry)
}

/// A payload whose texts all fit their length fields.
pub open spec fn wf_payload(p: PayloadView) -> bool {
    match p {
        PayloadView::File { name, path, size } => wf_text(name) && wf_text(path),
        PayloadView::Url { target } => wf_text(target),
        PayloadView::Paste { body } => wf_text(body),
    }
}

/// A record whose texts all fit their length fields.
pub open spec fn wf_record(r: RecordView) -> bool {
    wf_payload(r.data) && wf_text(r.slug)
}

/// `x` stands in `b` from position `p` on.
pub open spec fn prefix_at(b: Seq<u8>, p: int, x: Seq<u8>) -> bool {
    &&& 0 <= p
    &&& p + x.len() <= b.len()
    &&& b.subrange(p, p + x.len()) == x
}

/// Relies on `String::from_utf8`: it succeeds exactly on valid UTF-8, and the
/// string then holds the characters that the bytes encode.
#[verifier::external_body]
pub(crate) fn string_from_utf8(bytes: Vec<u8>) -> (r: Option<String>)
    ensures
        r is Some <==> valid_utf8(bytes@),
        r matches Some(s) ==> s@ == decode_utf8(bytes@),
{
    String::from_utf8(bytes).ok()
}

fn push_text(out: &mut Vec<u8>, s: &str)
    ensures
        final(out)@ == old(out)@ + text_bytes(s@),
        wf_text(s@),
{
    let b = s.as_bytes();
    let n = b.len();
    let mut len = u64_to_le_bytes(n as u64);
    let mut bytes = slice_to_vec(b);
    out.append(&mut len);
    out.append(&mut bytes);
    assert(final(out)@ =~= old(out)@ + text_bytes(s@));
}

/// The stored form of `record`.
pub fn serialize(record: &Record) -> (r: Vec<u8>)
    ensures
        r@ == record_bytes(record@),
        wf_record(record@),
{
    let mut out: Vec<u8> = Vec::new();
    match record.data() {
        RecordData::File { name, path, size } => {
            out.push(0u8);
            push_text(&mut out, name.as_str());
            push_text(&mut out, path.as_str());
            let mut b = u64_to_le_bytes(*size);
            out.append(&mut b);
        },
        RecordData::Url { target } => {
            out.push(1u8);
            push_text(&mut out, target.as_str());
        },
        RecordData::Paste { body } => {
            out.push(2u8);
            push_text(&mut out, body.as_str());
        },
    }
    assert(out@ =~= payload_bytes(record@.data));
    push_text(&mut out, record.slug());
    match record.accesses() {
        None => out.push(0u8),
        Some(n) => {
            out.push(1u8);
            let mut b = u16_to_le_bytes(n);
            out.append(&mut b);
        },
    }
    match record.expiry() {
        None => out.push(0u8),
        Some(t) => {
            out.push(1u8);
            let mut b = u64_to_le_bytes(t);
            out.append(&mut b);
        },
    }
    assert(out@ =~= record_bytes(record@));
    out
}

/// `x + y` stands at `p` exactly when `x` does and `y` follows it.
proof fn lemma_prefix_concat(b: Seq<u8>, p: int, x: Seq<u8>, y: Seq<u8>)
    ensures
        prefix_at(b, p, x + y) <==> (prefix_at(b, p, x) && prefix_at(b, p + x.len(), y)),
{
    if prefix_at(b, p, x + y) {
        let w = b.subrange(p, p + x.len() + y.len());
        assert(w == x + y);
        assert(b.subrange(p, p + x.len()) =~= w.subrange(0, x.len() as int));
        assert(w.subrange(0, x.len() as int) =~= x);
        assert(b.subrange(p + x.len(), p + x.len() + y.len()) =~= w.subrange(
            x.len() as int,
            w.len() as int,
        ));
        assert(w.subrange(x.len() as int, w.len() as int) =~= y);
    }
    if prefix_at(b, p, x) && prefix_at(b, p + x.len(), y) {
        assert(b.subrange(p, p + (x + y).len()) =~= b.subrange(p, p + x.len()) + b.subrange(
            p + x.len(),
            p + x.len() + y.len(),
        ));
    }
}

proof fn lemma_u64_unique(x: u64, y: u64)
    requires
        spec_u64_to_le_bytes(x) == spec_u64_to_le_bytes(y),
    ensures
        x == y,
{
    lemma_auto_spec_u64_to_from_le_bytes();
}

proof fn lemma_u16_unique(x: u16, y: u16)
    requires
        spec_u16_to_le_bytes(x) == spec_u16_to_le_bytes(y),
    ensures
        x == y,
{
    lemma_auto_spec_u16_to_from_le_bytes();
    assert(spec_u16_to_le_bytes(x).len() == 2);
    assert(spec_u16_to_le_bytes(y).len() == 2);
}

/// The stored form of a text splits into its length field and its bytes.
proof fn lemma_text_split(b: Seq<u8>, p: int, s: Seq<char>)
    requires
        prefix_at(b, p, text_bytes(s)),
    ensures
        prefix_at(b, p, spec_u64_to_le_bytes(encode_utf8(s).len() as u64)),
        prefix_at(b, p + 8, encode_utf8(s)),
        text_bytes(s).len() == 8 + encode_utf8(s).len(),
{
    lemma_auto_spec_u64_to_from_le_bytes();
    lemma_prefix_concat(b, p, spec_u64_to_le_bytes(encode_utf8(s).len() as u64), encode_utf8(s));
}

/// At most one text's stored form stands at a position.
proof fn lemma_text_unique(b: Seq<u8>, p: int, s: Seq<char>, t: Seq<char>)
    requires
        wf_text(s),
        wf_text(t),
        prefix_at(b, p, text_bytes(s)),
        prefix_at(b, p, text_bytes(t)),
    ensures
        s == t,
{
    lemma_text_split(b, p, s);
    lemma_text_split(b, p, t);
    lemma_auto_spec_u64_to_from_le_bytes();
    lemma_u64_unique(encode_utf8(s).len() as u64, encode_utf8(t).len() as u64);
    assert(encode_utf8(s) == encode_utf8(t));
    encode_utf8_decode_utf8(s);
    encode_utf8_decode_utf8(t);
}

/// The stored form of a payload splits into its tag and its fields.
proof fn lemma_payload_split(b: Seq<u8>, p: int, d: PayloadView)
    requires
        prefix_at(b, p, payload_bytes(d)),
    ensures
        0 <= p < b.len(),
        match d {
            PayloadView::File { name, path, size } => {
                &&& b[p] == 0u8
                &&& prefix_at(b, p + 1, text_bytes(name))
                &&& prefix_at(b, p + 1 + text_bytes(name).len(), text_bytes(path))
                &&& prefix_at(
                    b,
                    p + 1 + text_bytes(name).len() + text_bytes(path).len(),
                    spec_u64_to_le_bytes(size),
                )
                &&& payload_bytes(d).len() == 1 + text_bytes(name).len() + text_bytes(path).len()
                    + 8
            },
            PayloadView::Url { target } => {
                &&& b[p] == 1u8
                &&& prefix_at(b, p + 1, text_bytes(target))
                &&& payload_bytes(d).len() == 1 + text_bytes(target).len()
            },
            PayloadView::Paste { body } => {
                &&& b[p] == 2u8
                &&& prefix_at(b, p + 1, text_bytes(body))
                &&& payload_bytes(d).len() == 1 + text_bytes(body).len()
            },
        },
{
    lemma_auto_spec_u64_to_from_le_bytes();
    match d {
        PayloadView::File { name, path, size } => {
            let a = seq![0u8];
            let n = text_bytes(name);
            let t = text_bytes(path);
            let z = spec_u64_to_le_bytes(size);
            lemma_prefix_concat(b, p, a + n + t, z);
            lemma_prefix_concat(b, p, a + n, t);
            lemma_prefix_concat(b, p, a, n);
            assert(b.subrange(p, p + 1)[0] == b[p]);
        },
        PayloadView::Url { target } => {
            lemma_prefix_concat(b, p, seq![1u8], text_bytes(target));
            assert(b.subrange(p, p + 1)[0] == b[p]);
        },
        PayloadView::Paste { body } => {
            lemma_prefix_concat(b, p, seq![2u8], text_bytes(body));
            assert(b.subrange(p, p + 1)[0] == b[p]);
        },
    }
}

/// At most one payload's stored form stands at a position.
proof fn lemma_payload_unique(b: Seq<u8>, p: int, d: PayloadView, e: PayloadView)
    requires
        wf_payload(d),
        wf_payload(e),
        prefix_at(b, p, payload_bytes(d)),
        prefix_at(b, p, payload_bytes(e)),
    ensures
        d == e,
{
    lemma_payload_split(b, p, d);
    lemma_payload_split(b, p, e);
    match (d, e) {
        (
            PayloadView::File { name: name_d, path: path_d, size: size_d },
            PayloadView::File { name: name_e, path: path_e, size: size_e },
        ) => {
            lemma_text_unique(b, p + 1, name_d, name_e);
            lemma_text_unique(b, p + 1 + text_bytes(name_d).len(), path_d, path_e);
            lemma_u64_unique(size_d, size_e);
        },
        (PayloadView::Url { target: t1 }, PayloadView::Url { target: t2 }) => {
            lemma_text_unique(b, p + 1, t1, t2);
        },
        (PayloadView::Paste { body: t1 }, PayloadView::Paste { body: t2 }) => {
            lemma_text_unique(b, p + 1, t1, t2);
        },
        _ => {},
    }
}

proof fn lemma_count_split(b: Seq<u8>, p: int, c: Option<u16>)
    requires
        prefix_at(b, p, count_bytes(c)),
    ensures
        0 <= p < b.len(),
        c is None ==> b[p] == 0u8 && count_bytes(c).len() == 1,
        c matches Some(n) ==> b[p] == 1u8 && prefix_at(b, p + 1, spec_u16_to_le_bytes(n))
            && count_bytes(c).len() == 3,
{
    lemma_auto_spec_u16_to_from_le_bytes();
    match c {
        None => {
            assert(b.subrange(p, p + 1)[0] == b[p]);
        },
        Some(n) => {
            lemma_prefix_concat(b, p, seq![1u8], spec_u16_to_le_bytes(n));
            assert(b.subrange(p, p + 1)[0] == b[p]);
        },
    }
}

proof fn lemma_stamp_split(b: Seq<u8>, p: int, e: Option<u64>)
    requires
        prefix_at(b, p, stamp_bytes(e)),
    ensures
        0 <= p < b.len(),
        e is None ==> b[p] == 0u8 && stamp_bytes(e).len() == 1,
        e matches Some(t) ==> b[p] == 1u8 && prefix_at(b, p + 1, spec_u64_to_le_bytes(t))
            && stamp_bytes(e).len() == 9,
{
    lemma_auto_spec_u64_to_from_le_bytes();
    match e {
        None => {
            assert(b.subrange(p, p + 1)[0] == b[p]);
        },
        Some(t) => {
            lemma_prefix_concat(b, p, seq![1u8], spec_u64_to_le_bytes(t));
            assert(b.subrange(p, p + 1)[0] == b[p]);
        },
    }
}

/// The stored form of a record splits into those of its fields.
proof fn lemma_record_split(m: RecordView)
    ensures
        ({
            let b = record_bytes(m);
            let slug_at = payload_bytes(m.data).len() as int;
            let count_at = slug_at + text_bytes(m.slug).len();
            let stamp_at = count_at + count_bytes(m.accesses).len();
            &&& prefix_at(b, 0, payload_bytes(m.data))
            &&& prefix_at(b, slug_at, text_bytes(m.slug))
            &&& prefix_at(b, count_at, count_bytes(m.accesses))
            &&& prefix_at(b, stamp_at, stamp_bytes(m.expiry))
            &&& b.len() == stamp_at + stamp_bytes(m.expiry).len()
        }),
{
    let b = record_bytes(m);
    let a = payload_bytes(m.data);
    let s = text_bytes(m.slug);
    let c = count_bytes(m.accesses);
    let e = stamp_bytes(m.expiry);
    assert(b.subrange(0, b.len() as int) =~= b);
    lemma_prefix_concat(b, 0, a + s + c, e);
    lemma_prefix_concat(b, 0, a + s, c);
    lemma_prefix_concat(b, 0, a, s);
}

/// A stored form decodes to the record it was made from, and to no other.
pub proof fn lemma_round_trip(m: RecordView, n: RecordView)
    requires
        wf_record(m),
        wf_record(n),
        record_bytes(n) == record_bytes(m),
    ensures
        n == m,
{
    let b = record_bytes(m);
    lemma_record_split(m);
    lemma_record_split(n);
    lemma_payload_unique(b, 0, m.data, n.data);
    let slug_at = payload_bytes(m.data).len() as int;
    lemma_text_unique(b, slug_at, m.slug, n.slug);
    let count_at = slug_at + text_bytes(m.slug).len();
    lemma_count_split(b, count_at, m.accesses);
    lemma_count_split(b, count_at, n.accesses);
    if let (Some(x), Some(y)) = (m.accesses, n.accesses) {
        lemma_u16_unique(x, y);
    }
    let stamp_at = count_at + count_bytes(m.accesses).len();
    lemma_stamp_split(b, stamp_at, m.expiry);
    lemma_stamp_split(b, stamp_at, n.expiry);
    if let (Some(x), Some(y)) = (m.expiry, n.expiry) {
        lemma_u64_unique(x, y);
    }
}

fn read_byte(b: &[u8], p: usize) -> (r: Option<u8>)
    requires
        p <= b@.len(),
    ensures
        b@.len() <= usize::MAX,
        r matches Some(v) ==> p < b@.len() && b@[p as int] == v,
        r is None ==> p == b@.len(),
{
    if p < b.len() {
        Some(b[p])
    } else {
        None
    }
}

fn read_u64(b: &[u8], p: usize) -> (r: Option<u64>)
    requires
        p <= b@.len(),
    ensures
        b@.len() <= usize::MAX,
        r matches Some(v) ==> prefix_at(b@, p as int, spec_u64_to_le_bytes(v)),
        forall|v: u64|
            prefix_at(b@, p as int, #[trigger] spec_u64_to_le_bytes(v)) ==> r == Some(v),
{
    proof {
        lemma_auto_spec_u64_to_from_le_bytes();
    }
    if b.len() - p < 8 {
        return None;
    }
    let s = slice_subrange(b, p, p + 8);
    let v = u64_from_le_bytes(s);
    proof {
        assert(spec_u64_to_le_bytes(v) == s@);
        assert forall|w: u64| prefix_at(b@, p as int, #[trigger] spec_u64_to_le_bytes(w)) implies v
            == w by {
            lemma_u64_unique(v, w);
        }
    }
    Some(v)
}

fn read_u16(b: &[u8], p: usize) -> (r: Option<u16>)
    requires
        p <= b@.len(),
    ensures
        r matches Some(v) ==> prefix_at(b@, p as int, spec_u16_to_le_bytes(v)),
        forall|v: u16|
            prefix_at(b@, p as int, #[trigger] spec_u16_to_le_bytes(v)) ==> r == Some(v),
{
    proof {
        lemma_auto_spec_u16_to_from_le_bytes();
    }
    if b.len() - p < 2 {
        proof {
            assert forall|w: u16| !prefix_at(b@, p as int, #[trigger] spec_u16_to_le_bytes(w)) by {
                assert(spec_u16_to_le_bytes(w).len() == 2);
            }
        }
        return None;
    }
    let s = slice_subrange(b, p, p + 2);
    let v = u16_from_le_bytes(s);
    proof {
        assert(spec_u16_to_le_bytes(v) == s@);
        assert forall|w: u16| prefix_at(b@, p as int, #[trigger] spec_u16_to_le_bytes(w)) implies v
            == w by {
            assert(spec_u16_to_le_bytes(w).len() == 2);
            lemma_u16_unique(v, w);
        }
    }
    Some(v)
}

fn read_text(b: &[u8], p: usize) -> (r: Option<(String, usize)>)
    requires
        p <= b@.len(),
    ensures
        r matches Some((s, q)) ==> wf_text(s@) && prefix_at(b@, p as int, text_bytes(s@)) && q
            == p + text_bytes(s@).len(),
        forall|t: Seq<char>|
            wf_text(t) && prefix_at(b@, p as int, #[trigger] text_bytes(t)) ==> (r matches Some(
                (s, q),
            ) && s@ == t),
{
    proof {
        lemma_auto_spec_u64_to_from_le_bytes();
        assert forall|t: Seq<char>| prefix_at(b@, p as int, #[trigger] text_bytes(t)) implies prefix_at(
            b@,
            p as int,
            spec_u64_to_le_bytes(encode_utf8(t).len() as u64),
        ) && prefix_at(b@, p + 8, encode_utf8(t)) by {
            lemma_text_split(b@, p as int, t);
        }
    }
    let n = match read_u64(b, p) {
        None => return None,
        Some(n) => n,
    };
    let start = p + 8;
    if ((b.len() - start) as u64) < n {
        return None;
    }
    let end = start + n as usize;
    let bytes = slice_to_vec(slice_subrange(b, start, end));
    let ghost raw = bytes@;
    match string_from_utf8(bytes) {
        None => {
            proof {
                assert forall|t: Seq<char>|
                    wf_text(t) && prefix_at(b@, p as int, #[trigger] text_bytes(t)) implies false by {
                    encode_utf8_valid_utf8(t);
                    assert(raw =~= encode_utf8(t));
                }
            }
            None
        },
        Some(s) => {
            proof {
                decode_utf8_encode_utf8(raw);
                assert(encode_utf8(s@) == raw);
                assert(b@.subrange(p as int, end as int) =~= b@.subrange(p as int, start as int)
                    + raw);
                assert forall|t: Seq<char>|
                    wf_text(t) && prefix_at(b@, p as int, #[trigger] text_bytes(t)) implies s@
                    == t by {
                    lemma_text_unique(b@, p as int, s@, t);
                }
            }
            Some((s, end))
        },
    }
}

fn read_payload(b: &[u8], p: usize) -> (r: Option<(RecordData, usize)>)
    requires
        p <= b@.len(),
    ensures
        r matches Some((d, q)) ==> wf_payload(d@) && prefix_at(b@, p as int, payload_bytes(d@))
            && q == p + payload_bytes(d@).len(),
        forall|d: PayloadView|
            wf_payload(d) && prefix_at(b@, p as int, #[trigger] payload_bytes(d)) ==> (r matches Some(
                (x, q),
            ) && x@ == d),
{
    proof {
        assert forall|d: PayloadView| #[trigger]
            prefix_at(b@, p as int, payload_bytes(d)) implies 0 <= p < b@.len() by {
            lemma_payload_split(b@, p as int, d);
        }
    }
    let tag = match read_byte(b, p) {
        None => return None,
        Some(t) => t,
    };
    proof {
        lemma_auto_spec_u64_to_from_le_bytes();
    }
    let r = if tag == 0 {
        match read_text(b, p + 1) {
            None => None,
            Some((name, q1)) => match read_text(b, q1) {
                None => None,
                Some((path, q2)) => match read_u64(b, q2) {
                    None => None,
                    Some(size) => {
                        let d = RecordData::File { name, path, size };
                        proof {
                            lemma_prefix_concat(b@, p as int, seq![0u8], text_bytes(name@));
                            assert(b@.subrange(p as int, p + 1) =~= seq![0u8]);
                            lemma_prefix_concat(
                                b@,
                                p as int,
                                seq![0u8] + text_bytes(name@),
                                text_bytes(path@),
                            );
                            lemma_prefix_concat(
                                b@,
                                p as int,
                                seq![0u8] + text_bytes(name@) + text_bytes(path@),
                                spec_u64_to_le_bytes(size),
                            );
                        }
                        Some((d, q2 + 8))
                    },
                },
            },
        }
    } else if tag == 1 {
        match read_text(b, p + 1) {
            None => None,
            Some((target, q)) => {
                proof {
                    lemma_prefix_concat(b@, p as int, seq![1u8], text_bytes(target@));
                    assert(b@.subrange(p as int, p + 1) =~= seq![1u8]);
                }
                Some((RecordData::Url { target }, q))
            },
        }
    } else if tag == 2 {
        match read_text(b, p + 1) {
            None => None,
            Some((body, q)) => {
                proof {
                    lemma_prefix_concat(b@, p as int, seq![2u8], text_bytes(body@));
                    assert(b@.subrange(p as int, p + 1) =~= seq![2u8]);
                }
                Some((RecordData::Paste { body }, q))
            },
        }
    } else {
        None
    };
    proof {
        assert forall|d: PayloadView|
            wf_payload(d) && prefix_at(b@, p as int, #[trigger] payload_bytes(d)) implies (r matches Some(
            (x, q),
        ) && x@ == d) by {
            lemma_payload_split(b@, p as int, d);
            if let Some((x, q)) = r {
                lemma_payload_unique(b@, p as int, x@, d);
            }
        }
    }
    r
}

fn read_count(b: &[u8], p: usize) -> (r: Option<(Option<u16>, usize)>)
    requires
        p <= b@.len(),
    ensures
        r matches Some((c, q)) ==> prefix_at(b@, p as int, count_bytes(c)) && q == p
            + count_bytes(c).len(),
        forall|c: Option<u16>|
            prefix_at(b@, p as int, #[trigger] count_bytes(c)) ==> (r matches Some((x, q)) && x
                == c),
{
    proof {
        lemma_auto_spec_u16_to_from_le_bytes();
        assert forall|c: Option<u16>| #[trigger]
            prefix_at(b@, p as int, count_bytes(c)) implies 0 <= p < b@.len() by {
            lemma_count_split(b@, p as int, c);
        }
    }
    let tag = match read_byte(b, p) {
        None => return None,
        Some(t) => t,
    };
    let r = if tag == 0 {
        proof {
            assert(b@.subrange(p as int, p + 1) =~= seq![0u8]);
        }
        Some((None, p + 1))
    } else if tag == 1 {
        match read_u16(b, p + 1) {
            None => None,
            Some(n) => {
                proof {
                    lemma_prefix_concat(b@, p as int, seq![1u8], spec_u16_to_le_bytes(n));
                    assert(b@.subrange(p as int, p + 1) =~= seq![1u8]);
                    assert(spec_u16_to_le_bytes(n).len() == 2);
                }
                Some((Some(n), p + 3))
            },
        }
    } else {
        None
    };
    proof {
        assert forall|c: Option<u16>| #[trigger]
            prefix_at(b@, p as int, count_bytes(c)) implies (r matches Some((x, q)) && x == c) by {
            lemma_count_split(b@, p as int, c);
        }
    }
    r
}

fn read_stamp(b: &[u8], p: usize) -> (r: Option<(Option<u64>, usize)>)
    requires
        p <= b@.len(),
    ensures
        r matches Some((e, q)) ==> prefix_at(b@, p as int, stamp_bytes(e)) && q == p
            + stamp_bytes(e).len(),
        forall|e: Option<u64>|
            prefix_at(b@, p as int, #[trigger] stamp_bytes(e)) ==> (r matches Some((x, q)) && x
                == e),
{
    proof {
        lemma_auto_spec_u64_to_from_le_bytes();
        assert forall|e: Option<u64>| #[trigger]
            prefix_at(b@, p as int, stamp_bytes(e)) implies 0 <= p < b@.len() by {
            lemma_stamp_split(b@, p as int, e);
        }
    }
    let tag = match read_byte(b, p) {
        None => return None,
        Some(t) => t,
    };
    let r = if tag == 0 {
        proof {
            assert(b@.subrange(p as int, p + 1) =~= seq![0u8]);
        }
        Some((None, p + 1))
    } else if tag == 1 {
        match read_u64(b, p + 1) {
            None => None,
            Some(t) => {
                proof {
                    lemma_prefix_concat(b@, p as int, seq![1u8], spec_u64_to_le_bytes(t));
                    assert(b@.subrange(p as int, p + 1) =~= seq![1u8]);
                }
                Some((Some(t), p + 9))
            },
        }
    } else {
        None
    };
    proof {
        assert forall|e: Option<u64>| #[trigger]
            prefix_at(b@, p as int, stamp_bytes(e)) implies (r matches Some((x, q)) && x == e) by {
            lemma_stamp_split(b@, p as int, e);
        }
    }
    r
}

/// The record whose stored form is `bytes`, if any.
pub fn deserialize(bytes: &[u8]) -> (r: Option<Record>)
    ensures
        r matches Some(rec) ==> wf_record(rec@) && record_bytes(rec@) == bytes@,
        forall|m: RecordView|
            wf_record(m) && #[trigger] record_bytes(m) == bytes@ ==> (r matches Some(rec) && rec@
                == m),
{
    let r = match read_payload(bytes, 0) {
        None => None,
        Some((data, slug_at)) => match read_text(bytes, slug_at) {
            None => None,
            Some((slug, count_at)) => match read_count(bytes, count_at) {
                None => None,
                Some((accesses, stamp_at)) => match read_stamp(bytes, stamp_at) {
                    None => None,
                    Some((expiry, end)) => {
                        if end == bytes.len() {
                            let rec = Record::new(data, slug, accesses, expiry);
                            proof {
                                let b = bytes@;
                                let a = payload_bytes(rec@.data);
                                let s = text_bytes(rec@.slug);
                                let c = count_bytes(rec@.accesses);
                                let e = stamp_bytes(rec@.expiry);
                                lemma_prefix_concat(b, 0, a, s);
                                lemma_prefix_concat(b, 0, a + s, c);
                                lemma_prefix_concat(b, 0, a + s + c, e);
                                assert(b.subrange(0, b.len() as int) =~= b);
                            }
                            Some(rec)
                        } else {
                            None
                        }
                    },
                },
            },
        },
    };
    proof {
        assert forall|m: RecordView|
            wf_record(m) && #[trigger] record_bytes(m) == bytes@ implies (r matches Some(rec)
            && rec@ == m) by {
            lemma_record_split(m);
            if let Some(rec) = r {
                lemma_round_trip(m, rec@);
            }
        }
    }
    r
}

} // verus!
