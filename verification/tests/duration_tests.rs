use sis_kernel::duration::{format_duration, format_duration_nanos};
use std::time::Duration;

#[test]
fn test_format_duration_nanoseconds() {
    let duration = Duration::from_nanos(500);
    assert_eq!(format_duration(duration), "500ns");
}

#[test]
fn test_format_duration_microseconds() {
    let duration = Duration::from_micros(500);
    assert_eq!(format_duration(duration), "500.00μs");
}

#[test]
fn test_format_duration_milliseconds() {
    let duration = Duration::from_millis(500);
    assert_eq!(format_duration(duration), "500.00ms");
}

#[test]
fn test_format_duration_seconds() {
    let duration = Duration::from_secs(2);
    assert_eq!(format_duration(duration), "2.00s");
}

/// The text the formatter is meant to produce, computed with `f64` as the
/// unit boundaries prescribe.
fn float_reference(n: u128) -> String {
    let d = Duration::from_nanos(n as u64);
    if d.as_nanos() < 1_000 {
        format!("{}ns", d.as_nanos())
    } else if d.as_micros() < 1_000 {
        format!("{:.2}μs", d.as_nanos() as f64 / 1_000.0)
    } else if d.as_millis() < 1_000 {
        format!("{:.2}ms", d.as_micros() as f64 / 1_000.0)
    } else {
        format!("{:.2}s", d.as_millis() as f64 / 1_000.0)
    }
}

#[test]
fn duration_text_matches_double_rounding_in_microseconds() {
    for n in 0u128..200_000 {
        assert_eq!(format_duration_nanos(n), float_reference(n), "n = {}", n);
    }
}

#[test]
fn duration_text_matches_double_rounding_near_ties() {
    let mut k: u128 = 1_005;
    while k < 1_000_000 {
        assert_eq!(format_duration_nanos(k), float_reference(k), "n = {}", k);
        assert_eq!(format_duration_nanos(k * 1000), float_reference(k * 1000), "n = {}", k * 1000);
        k += 10;
    }
}

#[test]
fn duration_text_matches_double_rounding_in_seconds() {
    let samples: [u128; 8] = [
        1_000_000_000,
        1_005_000_000,
        1_125_000_000,
        2_675_000_000,
        123_456_789_012_345,
        9_007_199_254_740_993_000_000,
        18_446_744_073_709_551_615_000_000,
        3_600_000_000_000,
    ];
    for &n in samples.iter() {
        let d = Duration::new((n / 1_000_000_000) as u64, (n % 1_000_000_000) as u32);
        let expect = format!("{:.2}s", d.as_millis() as f64 / 1_000.0);
        assert_eq!(format_duration(d), expect, "n = {}", n);
    }
}

#[test]
fn duration_text_large_values() {
    let d = Duration::new(u64::MAX, 999_999_999);
    let expect = format!("{:.2}s", d.as_millis() as f64 / 1_000.0);
    assert_eq!(format_duration(d), expect);
    assert_eq!(format_duration(Duration::from_millis(1125)), "1.12s");
    assert_eq!(format_duration(Duration::from_nanos(999)), "999ns");
    assert_eq!(format_duration(Duration::from_nanos(1000)), "1.00μs");
}
