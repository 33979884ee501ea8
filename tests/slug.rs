use shrekd::settings::RecordSettings;
use shrekd::slug::{slug, SlugAllocator, SlugStep};

#[test]
fn random_slugs_are_alphanumeric() {
    for len in [0u8, 1, 13, 255] {
        let s = slug(len);
        assert_eq!(s.chars().count(), len as usize);
        assert!(s.chars().all(|c| c.is_ascii_alphanumeric()));
    }
}

#[test]
fn free_custom_slug_is_kept() {
    let settings =
        RecordSettings::new(None, None, None, None, Some("mine".to_string()), None).unwrap();
    let (mut a, step) = settings.slug(13);
    assert_eq!(step, SlugStep::Probe("mine".to_string()));
    assert_eq!(a.taken(false), SlugStep::Done("mine".to_string()));
}

#[test]
fn taken_custom_slug_falls_back_to_a_drawn_one() {
    let settings = RecordSettings::new(None, None, None, Some(20), Some("mine".to_string()), None)
        .unwrap();
    let (mut a, _) = settings.slug(13);
    assert_eq!(a.taken(true), SlugStep::Draw(20));
    assert_eq!(a.drawn("q".repeat(20)), SlugStep::Probe("q".repeat(20)));
    assert_eq!(a.taken(false), SlugStep::Done("q".repeat(20)));
}

#[test]
fn empty_custom_slug_is_ignored() {
    let settings =
        RecordSettings::new(None, None, None, Some(4), Some(String::new()), None).unwrap();
    let (_, step) = settings.slug(13);
    assert_eq!(step, SlugStep::Draw(13));
}

#[test]
fn crowded_store_gives_z_or_fails_after_one_retry() {
    // every one-character slug is taken but "z"
    let taken = |s: &str| s != "z";

    let (mut a, step) = SlugAllocator::start(None, Some(1), 0);
    assert_eq!(step, SlugStep::Draw(1));
    assert_eq!(a.drawn("z".to_string()), SlugStep::Probe("z".to_string()));
    assert_eq!(a.taken(taken("z")), SlugStep::Done("z".to_string()));

    let (mut a, _) = SlugAllocator::start(None, Some(1), 0);
    a.drawn("a".to_string());
    assert_eq!(a.taken(taken("a")), SlugStep::Draw(1));
    a.drawn("z".to_string());
    assert_eq!(a.taken(taken("z")), SlugStep::Done("z".to_string()));

    let (mut a, _) = SlugAllocator::start(None, Some(1), 0);
    a.drawn("a".to_string());
    assert_eq!(a.taken(taken("a")), SlugStep::Draw(1));
    assert!(!a.expects_probe());
    a.drawn("b".to_string());
    assert!(a.expects_probe());
    assert_eq!(a.taken(taken("b")), SlugStep::Failed);
}

#[test]
fn taken_custom_slug_in_crowded_store_draws_twice_at_most() {
    let taken = |s: &str| s != "z";
    let settings =
        RecordSettings::new(None, None, None, Some(1), Some("a".to_string()), None).unwrap();
    let (mut a, step) = settings.slug(1);
    assert_eq!(step, SlugStep::Probe("a".to_string()));
    assert_eq!(a.taken(taken("a")), SlugStep::Draw(1));
    a.drawn("b".to_string());
    assert_eq!(a.taken(taken("b")), SlugStep::Draw(1));
    a.drawn("c".to_string());
    assert_eq!(a.taken(taken("c")), SlugStep::Failed);
    assert!(!a.expects_draw());
    assert!(!a.expects_probe());
}
