use ebook_playback::time::Duration;

#[test]
fn constructors_count_nanoseconds() {
    assert_eq!(Duration::from_nanos(7).as_nanos(), 7);
    assert_eq!(Duration::from_millis(3).as_nanos(), 3_000_000);
    assert_eq!(Duration::from_secs(2).as_nanos(), 2_000_000_000);
    assert_eq!(Duration::zero().as_nanos(), 0);
    assert!(Duration::zero().is_zero());
    assert!(!Duration::from_nanos(1).is_zero());
}

#[test]
fn constructors_saturate() {
    assert_eq!(Duration::from_millis(u64::MAX).as_nanos(), u64::MAX);
    assert_eq!(Duration::from_secs(u64::MAX).as_nanos(), u64::MAX);
    assert_eq!(Duration::from_millis(18_446_744_073_709).as_nanos(), 18_446_744_073_709_000_000);
    assert_eq!(Duration::from_millis(18_446_744_073_710).as_nanos(), u64::MAX);
}

#[test]
fn whole_units_round_down() {
    let d = Duration::from_nanos(3_999_999_999);
    assert_eq!(d.as_secs(), 3);
    assert_eq!(d.as_millis(), 3_999);
}

#[test]
fn sums_and_differences_saturate() {
    let a = Duration::from_millis(5);
    let b = Duration::from_millis(8);
    assert_eq!(a.saturating_add(b), Duration::from_millis(13));
    assert_eq!(b.saturating_sub(a), Duration::from_millis(3));
    assert_eq!(a.saturating_sub(b), Duration::zero());
    assert_eq!(Duration::from_nanos(u64::MAX).saturating_add(a).as_nanos(), u64::MAX);
    assert_eq!(a.min(b), a);
    assert_eq!(b.min(a), a);
}
