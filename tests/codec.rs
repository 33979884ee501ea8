use shrekd::codec::{deserialize, serialize};
use shrekd::{Record, RecordData};

fn samples() -> Vec<Record> {
    vec![
        Record::file(
            "holiday.jpg".to_string(),
            "/tmp/.shrekd/abc".to_string(),
            12345,
            "abc".to_string(),
            Some(3),
            Some(1_700_000_000),
        ),
        Record::url(
            "https://example.com/a?b#c".to_string(),
            "xYz09".to_string(),
            None,
            Some(42),
        ),
        Record::paste("héllo wörld ✓ 🦀".to_string(), "p".to_string(), Some(1), None),
        Record::paste(String::new(), String::new(), None, None),
    ]
}

#[test]
fn records_survive_a_round_trip() {
    for r in samples() {
        let bytes = serialize(&r);
        assert!(deserialize(&bytes) == Some(r));
    }
}

#[test]
fn stored_form_is_laid_out_as_documented() {
    let r = Record::paste("hi".to_string(), "s".to_string(), Some(2), None);
    let bytes = serialize(&r);
    let mut expected = vec![2u8];
    expected.extend_from_slice(&2u64.to_le_bytes());
    expected.extend_from_slice(b"hi");
    expected.extend_from_slice(&1u64.to_le_bytes());
    expected.extend_from_slice(b"s");
    expected.extend_from_slice(&[1, 2, 0]);
    expected.push(0);
    assert_eq!(bytes, expected);
}

#[test]
fn truncated_or_padded_forms_are_refused() {
    for r in samples() {
        let bytes = serialize(&r);
        for cut in 0..bytes.len() {
            assert!(deserialize(&bytes[..cut]).is_none());
        }
        let mut longer = bytes.clone();
        longer.push(0);
        assert!(deserialize(&longer).is_none());
    }
}

#[test]
fn unknown_tags_and_bad_utf8_are_refused() {
    let r = Record::paste("ok".to_string(), "s".to_string(), None, None);
    let mut bytes = serialize(&r);
    bytes[0] = 3;
    assert!(deserialize(&bytes).is_none());

    let mut bad = vec![2u8];
    bad.extend_from_slice(&1u64.to_le_bytes());
    bad.push(0xff);
    bad.extend_from_slice(&1u64.to_le_bytes());
    bad.extend_from_slice(b"s");
    bad.extend_from_slice(&[0, 0]);
    assert!(deserialize(&bad).is_none());
}

#[test]
fn getters_give_back_the_parts() {
    let r = Record::file(
        "n".to_string(),
        "/d/s".to_string(),
        9,
        "s".to_string(),
        Some(4),
        Some(77),
    );
    assert_eq!(r.slug(), "s");
    assert_eq!(r.accesses(), Some(4));
    assert_eq!(r.expiry(), Some(77));
    assert_eq!(
        r.data(),
        &RecordData::File {
            name: "n".to_string(),
            path: "/d/s".to_string(),
            size: 9
        }
    );
}
