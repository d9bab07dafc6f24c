use sysmon::rate::{rate, Rate};

#[test]
fn increase_over_elapsed_time() {
    let r = rate(1000, 1500, 1_000_000_000);
    assert_eq!(r.delta, 500);
    assert_eq!(r.elapsed_nanos, 1_000_000_000);
    assert_eq!(r.bytes_per_sec(), 500);
}

#[test]
fn fractional_rates_round_down() {
    let r = rate(0, 10, 3_000_000_000);
    assert_eq!(r.bytes_per_sec(), 3);
}

#[test]
fn counter_reset_clamps_to_zero() {
    let r = rate(1500, 1400, 1_000_000_000);
    assert_eq!(r.delta, 0);
    assert_eq!(r.bytes_per_sec(), 0);
}

#[test]
fn same_reading_with_no_elapsed_time() {
    let r = rate(777, 777, 0);
    assert_eq!(r.elapsed_nanos, 1);
    assert_eq!(r.bytes_per_sec(), 0);
}

#[test]
fn zero_elapsed_is_floored_to_one_nanosecond() {
    let r = rate(0, 1, 0);
    assert_eq!(r.elapsed_nanos, 1);
    assert_eq!(r.bytes_per_sec(), 1_000_000_000);
}

#[test]
fn huge_rates_saturate() {
    let r = rate(0, u64::MAX, 1);
    assert_eq!(r.bytes_per_sec(), u64::MAX);
}

#[test]
fn zero_rate() {
    let r = Rate::zero();
    assert_eq!(r.bytes_per_sec(), 0);
    assert_eq!(r.elapsed_nanos, 1);
}
