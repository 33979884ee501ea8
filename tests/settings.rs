use shrekd::settings::RecordSettings;

#[test]
fn headers_are_read() {
    let s = RecordSettings::from_headers(
        Some("3"),
        None,
        Some("+60"),
        Some("20"),
        Some("custom"),
        Some("abc"),
    )
    .unwrap();
    assert_eq!(s.accesses(), Some(3));
    assert_eq!(s.slug_length(), Some(20));
    assert_eq!(s.custom_slug(), Some(&"custom".to_string()));
    assert_eq!(s.expiry(None, 1000), Some(1060));
}

#[test]
fn unreadable_headers_are_refused() {
    assert!(RecordSettings::from_headers(Some("x"), None, None, None, None, None).is_none());
    assert!(RecordSettings::from_headers(Some("65536"), None, None, None, None, None).is_none());
    assert!(RecordSettings::from_headers(None, None, None, Some("256"), None, None).is_none());
    assert!(RecordSettings::from_headers(None, Some("-1"), None, None, None, None).is_none());
    assert!(RecordSettings::from_headers(None, None, Some(""), None, None, None).is_none());
    assert!(RecordSettings::from_headers(None, None, Some("+"), None, None, None).is_none());
    assert!(RecordSettings::from_headers(Some("65535"), None, None, Some("255"), None, None)
        .is_some());
}

#[test]
fn both_expiries_are_refused() {
    assert!(RecordSettings::from_headers(None, Some("10"), Some("10"), None, None, None).is_none());
    assert!(RecordSettings::new(None, Some(10), Some(10), None, None, None).is_none());
}

#[test]
fn expiry_is_capped_by_max_age() {
    let absolute = RecordSettings::new(None, Some(5000), None, None, None, None).unwrap();
    assert_eq!(absolute.expiry(None, 1000), Some(5000));
    assert_eq!(absolute.expiry(Some(100), 1000), Some(1100));
    assert_eq!(absolute.expiry(Some(10_000), 1000), Some(5000));

    let none = RecordSettings::new(None, None, None, None, None, None).unwrap();
    assert_eq!(none.expiry(None, 1000), None);
    assert_eq!(none.expiry(Some(50), 1000), Some(1050));

    let relative = RecordSettings::new(None, None, Some(u64::MAX), None, None, None).unwrap();
    assert_eq!(relative.expiry(None, 1000), Some(u64::MAX));
}
