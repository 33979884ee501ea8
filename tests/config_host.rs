use shrekd::api::{create_file, response, RecordResponse};
use shrekd::config::{Config, UploadKind};
use shrekd::retention::Error::BoundDefinition;
use shrekd::host::HostBase;
use shrekd::settings::RecordSettings;
use shrekd::{Error, RecordData};

#[test]
fn default_config() {
    let c = Config::default();
    assert_eq!(c.port, 8000);
    assert_eq!(c.slug_length, 13);
    assert_eq!(c.data_dir, "/tmp/.shrekd");
    assert_eq!(c.temp(), "/tmp/.shrekd/.temporary");
    let curve = c.curve().unwrap();
    assert_eq!(curve.max(), 1814400);
    assert_eq!(curve.compute_for(128_000_000), 604800);
}

#[test]
fn inverted_retention_is_refused() {
    let c = Config {
        retention_min_age: 10,
        retention_max_age: 1,
        ..Config::default()
    };
    assert!(matches!(
        c.curve(),
        Err(Error::Retention(BoundDefinition(10, 1)))
    ));
}

#[test]
fn host_base_from_headers() {
    let h = HostBase::from_headers(Some("a.example"), Some("b.example"), Some("https")).unwrap();
    assert_eq!(h.with("/abc"), "https://a.example/abc");
    let h = HostBase::from_headers(None, Some("b.example:8000"), None).unwrap();
    assert_eq!(h.clone().into_inner(), "http://b.example:8000");
    assert!(HostBase::from_headers(None, None, Some("https")).is_none());
    assert!(HostBase::from_headers(Some(""), Some("b"), None).is_none());
}

#[test]
fn file_records_expire_by_size() {
    let c = Config::default();
    let curve = c.curve().unwrap();
    let settings = RecordSettings::new(Some(2), None, None, None, None, None).unwrap();
    let r = create_file(
        "big.iso".to_string(),
        128_000_000,
        "/srv",
        "slug".to_string(),
        &settings,
        &curve,
        1_000,
    );
    assert_eq!(r.expiry(), Some(1_000 + 604800));
    assert_eq!(r.accesses(), Some(2));
    assert_eq!(
        response(r.data()),
        RecordResponse::File("/srv/slug".to_string())
    );
    let small = create_file(
        "a.txt".to_string(),
        0,
        "/srv/",
        "s2".to_string(),
        &settings,
        &curve,
        1_000,
    );
    assert_eq!(small.expiry(), Some(1_000 + 1814400));
    assert!(matches!(small.data(), RecordData::File { path, .. } if path == "/srv/s2"));
}

#[test]
fn upload_sizes_are_limited_per_kind() {
    let c = Config::default();
    assert!(c.accepts_size(UploadKind::File, 128_000_000));
    assert!(!c.accepts_size(UploadKind::File, 128_000_001));
    assert!(c.accepts_size(UploadKind::Paste, 1_000_000));
    assert!(!c.accepts_size(UploadKind::Paste, 1_000_001));
    assert!(c.accepts_size(UploadKind::Url, 32_000));
    assert!(!c.accepts_size(UploadKind::Url, 32_001));
}
