use scene_server::{ExistenceTime, TimeSpan, NANOS_PER_SEC};

#[test]
fn span_from_nanos_splits_seconds() {
    let t = TimeSpan::from_nanos(3_000_000_007);
    assert_eq!(t.as_secs(), 3);
    assert_eq!(t.subsec_nanos(), 7);
}

#[test]
fn span_addition_carries_into_seconds() {
    let a = TimeSpan::new(1, 600_000_000);
    let b = TimeSpan::new(2, 700_000_000);
    let c = a.add(&b);
    assert_eq!(c.as_secs(), 4);
    assert_eq!(c.subsec_nanos(), 300_000_000);
}

#[test]
fn span_addition_overflow_is_refused() {
    let max = TimeSpan::new(u64::MAX, NANOS_PER_SEC - 1);
    assert!(max.checked_add(&TimeSpan::from_nanos(1)).is_none());
    assert!(max.checked_add(&TimeSpan::zero()).is_some());
    let near = TimeSpan::new(u64::MAX, 0);
    let r = near.checked_add(&TimeSpan::new(0, NANOS_PER_SEC - 1)).unwrap();
    assert_eq!(r.as_secs(), u64::MAX);
    assert_eq!(r.subsec_nanos(), NANOS_PER_SEC - 1);
    assert!(TimeSpan::new(u64::MAX, 1)
        .checked_add(&TimeSpan::new(0, NANOS_PER_SEC - 1))
        .is_none());
}

#[test]
fn existence_counter_ticks() {
    let mut t = ExistenceTime::new();
    t.tick(&TimeSpan::new(0, 999_999_999));
    t.tick(&TimeSpan::from_nanos(2));
    assert_eq!(t.elapsed.as_secs(), 1);
    assert_eq!(t.elapsed.subsec_nanos(), 1);
}
