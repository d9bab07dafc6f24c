use sysmon::rate::rate;
use sysmon::text::{bytes_per_sec_human, bytes_to_human};

#[test]
fn kilobytes_with_one_decimal() {
    assert_eq!(bytes_to_human(1536), "1.5 KB");
}

#[test]
fn one_terabyte() {
    assert_eq!(bytes_to_human(1_099_511_627_776), "1.0 TB");
}

#[test]
fn plain_bytes_below_one_kilobyte() {
    assert_eq!(bytes_to_human(0), "0 B");
    assert_eq!(bytes_to_human(1023), "1023 B");
}

#[test]
fn unit_boundaries() {
    assert_eq!(bytes_to_human(1024), "1.0 KB");
    assert_eq!(bytes_to_human(1_048_576), "1.0 MB");
    assert_eq!(bytes_to_human(1_073_741_824), "1.0 GB");
    assert_eq!(bytes_to_human(1_048_575), "1024.0 KB");
}

#[test]
fn ties_round_to_even() {
    assert_eq!(bytes_to_human(1280), "1.2 KB");
    assert_eq!(bytes_to_human(1792), "1.8 KB");
    assert_eq!(bytes_to_human(2_621_440), "2.5 MB");
}

#[test]
fn largest_count() {
    assert_eq!(bytes_to_human(u64::MAX), "16777216.0 TB");
}

#[test]
fn rates_append_per_second() {
    assert_eq!(bytes_per_sec_human(0), "0 B/s");
    assert_eq!(bytes_per_sec_human(500), "500 B/s");
    assert_eq!(bytes_per_sec_human(1536), "1.5 KB/s");
}

#[test]
fn rate_formats_through_whole_bytes() {
    let r = rate(0, 3000, 2_000_000_000);
    assert_eq!(bytes_per_sec_human(r.bytes_per_sec()), "1.5 KB/s");
}
