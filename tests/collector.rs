use shrekd::collector::{slug_of_key, CleanupStep, Collector};

#[test]
fn live_record_keeps_its_file() {
    let c = Collector::new("/srv/data".to_string());
    assert_eq!(
        c.notified("shrekd:abc"),
        CleanupStep::Probe("abc".to_string())
    );
    assert_eq!(c.probed("abc", true), CleanupStep::Ignore);
}

#[test]
fn orphaned_file_is_removed() {
    let c = Collector::new("/srv/data".to_string());
    assert_eq!(
        c.probed("abc", false),
        CleanupStep::Remove("/srv/data/abc".to_string())
    );
    let c = Collector::new("/srv/data/".to_string());
    assert_eq!(
        c.probed("abc", false),
        CleanupStep::Remove("/srv/data/abc".to_string())
    );
}

#[test]
fn foreign_namespace_is_ignored() {
    let c = Collector::new("/srv/data".to_string());
    assert_eq!(c.notified("other:abc"), CleanupStep::Ignore);
    assert_eq!(c.notified("shrekd"), CleanupStep::Ignore);
    assert_eq!(c.notified(""), CleanupStep::Ignore);
    assert_eq!(c.notified("shrt:abc"), CleanupStep::Ignore);
}

#[test]
fn slug_of_key_strips_the_prefix() {
    assert_eq!(slug_of_key("shrekd:"), Some(String::new()));
    assert_eq!(slug_of_key("shrekd:é/x"), Some("é/x".to_string()));
    assert_eq!(slug_of_key("Shrekd:x"), None);
}
