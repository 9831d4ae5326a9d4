use jobqueue::backoff::{delay, delay_saturating};

#[test]
fn delay_is_base_times_two_to_the_n() {
    assert_eq!(delay(2000, 0), 2000);
    assert_eq!(delay(2000, 1), 4000);
    assert_eq!(delay(2000, 2), 8000);
    assert_eq!(delay(2000, 10), 2000 * 1024);
    assert_eq!(delay(1, 20), 1 << 20);
}

#[test]
fn delay_with_zero_base_is_zero() {
    assert_eq!(delay(0, 0), 0);
    assert_eq!(delay(0, 63), 0);
}

#[test]
fn delay_grows_monotonically() {
    let mut prev = 0u64;
    for n in 0..20 {
        let d = delay(500, n);
        assert!(d > prev);
        prev = d;
    }
}

#[test]
fn saturating_delay_matches_exact_delay_in_range() {
    for n in 0..30 {
        assert_eq!(delay_saturating(2000, n), delay(2000, n));
    }
}

#[test]
fn saturating_delay_clamps_on_overflow() {
    assert_eq!(delay_saturating(2000, 60), u64::MAX);
    assert_eq!(delay_saturating(u64::MAX, 1), u64::MAX);
    assert_eq!(delay_saturating(1, 64), u64::MAX);
    assert_eq!(delay_saturating(1, 63), 1u64 << 63);
}
