use safekeeper::breaker::{capacity_limit, DiskBreaker};
use std::sync::atomic::{AtomicBool, Ordering};

#[test]
fn limit_is_ratio_of_capacity() {
    assert_eq!(capacity_limit(100_000, 1_000_000), 100);
    assert_eq!(capacity_limit(500_000_000, 4096), 2048);
    assert_eq!(capacity_limit(1_000_000_000, u64::MAX), u64::MAX);
    assert_eq!(capacity_limit(3_000_000_000, u64::MAX), u64::MAX);
    assert_eq!(capacity_limit(1, 999), 0);
}

#[test]
fn zero_ratio_never_trips() {
    let limit = capacity_limit(0, 1_000_000);
    assert_eq!(limit, 0);
    let mut b = DiskBreaker::new(limit);
    assert!(!b.is_enabled());
    for u in [0u64, 1, 1_000_000, u64::MAX] {
        assert!(!b.observe(Some(u)));
    }
    assert!(!b.observe(None));
    assert!(!b.is_tripped());
}

#[test]
fn trips_only_above_limit() {
    let mut b = DiskBreaker::new(100);
    assert!(b.is_enabled());
    assert!(!b.observe(Some(100)));
    assert!(b.observe(Some(101)));
    assert!(b.is_tripped());
    assert!(!b.observe(Some(99)));
    assert!(!b.is_tripped());
}

#[test]
fn failed_sample_counts_as_zero() {
    let mut b = DiskBreaker::new(10);
    assert!(b.observe(Some(11)));
    assert!(!b.observe(None));
    assert_eq!(b.limit(), 10);
}

#[test]
fn small_ratio_trips_and_consumer_sees_it() {
    let limit = capacity_limit(100_000, 1_000_000);
    assert_eq!(limit, 100);
    let mut b = DiskBreaker::new(limit);
    let flag = AtomicBool::new(false);
    flag.store(b.observe(Some(500)), Ordering::Relaxed);
    assert!(flag.load(Ordering::Relaxed));
}
