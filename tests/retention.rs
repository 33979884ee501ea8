use shrekd::retention::{Error, RetentionCurve};

#[test]
fn bound_definition_error() {
    let error = RetentionCurve::new(1, 0, 0).unwrap_err();

    assert_eq!(error, Error::BoundDefinition(1, 0));
}

#[test]
fn zero_size_is_max_age() {
    let curve = RetentionCurve::new(604800, 1814400, 128000000).unwrap();

    assert_eq!(curve.compute_for(0), 1814400);
}

#[test]
fn max_size_is_min_age() {
    let curve = RetentionCurve::new(604800, 1814400, 128000000).unwrap();

    assert_eq!(curve.compute_for(128000000), 604800);
}

#[test]
fn more_than_max_size_is_min_age() {
    let curve = RetentionCurve::new(604800, 1814400, 128000000).unwrap();

    assert_eq!(curve.compute_for(512000000), 604800);
}

#[test]
fn curve_is_exponential() {
    let curve = RetentionCurve::new(0, 10000, 10000).unwrap();

    assert_eq!(curve.compute_for(2500), 9375);
    assert_eq!(curve.compute_for(5000), 7500);
    assert_eq!(curve.compute_for(7500), 4375);
}

#[test]
fn bound_definition_error_for_any_max_size() {
    for max_size in [0u64, 1, 4096, u64::MAX] {
        assert_eq!(
            RetentionCurve::new(1, 0, max_size).unwrap_err(),
            Error::BoundDefinition(1, 0)
        );
    }
}

#[test]
fn equal_ages_are_accepted() {
    let curve = RetentionCurve::new(5, 5, 100).unwrap();
    assert_eq!(curve.max(), 5);
    assert_eq!(curve.compute_for(0), 5);
    assert_eq!(curve.compute_for(50), 5);
    assert_eq!(curve.compute_for(1000), 5);
}

#[test]
fn retention_rounds_down() {
    // 100 - 100 * (1/3)^2 = 88.88...
    let curve = RetentionCurve::new(0, 100, 3).unwrap();
    assert_eq!(curve.compute_for(1), 88);
    // 100 - 100 * (2/3)^2 = 55.55...
    assert_eq!(curve.compute_for(2), 55);
}

#[test]
fn zero_max_size_gives_min_age() {
    let curve = RetentionCurve::new(7, 70, 0).unwrap();
    assert_eq!(curve.compute_for(0), 7);
}

#[test]
fn retention_never_grows_with_size() {
    let curve = RetentionCurve::new(604800, 1814400, 128000000).unwrap();
    let mut last = curve.compute_for(0);
    let mut size = 0u64;
    while size <= 130_000_000 {
        let r = curve.compute_for(size);
        assert!(r <= last);
        assert!((604800..=1814400).contains(&r));
        last = r;
        size += 999_983;
    }
}

#[test]
fn largest_values_do_not_overflow() {
    let curve = RetentionCurve::new(0, u64::MAX, u64::MAX).unwrap();
    assert_eq!(curve.compute_for(0), u64::MAX);
    assert_eq!(curve.compute_for(u64::MAX), 0);
    // floor(M - M * ((M / 2) / M)^2) with M = 2^64 - 1
    assert_eq!(curve.compute_for(u64::MAX / 2), 13835058055282163711);
}
