use mcpg_plugin_observability_audit::clock::{
    chrono_lite_format, is_leap_year, now_iso8601, timestamp, timestamp_of_clock,
    timestamp_of_elapsed, timestamp_of_reading,
};
use mcpg_plugin_observability_audit::text::{hex_encode, padded};

#[test]
fn dates_around_leap_days() {
    assert_eq!(chrono_lite_format(0), "1970-01-01T00:00:00");
    assert_eq!(chrono_lite_format(86_399), "1970-01-01T23:59:59");
    assert_eq!(chrono_lite_format(86_400), "1970-01-02T00:00:00");
    assert_eq!(chrono_lite_format(68_256_000), "1972-03-01T00:00:00");
    assert_eq!(chrono_lite_format(951_782_400), "2000-02-29T00:00:00");
    assert_eq!(chrono_lite_format(951_868_800), "2000-03-01T00:00:00");
    assert_eq!(chrono_lite_format(1_700_000_000), "2023-11-14T22:13:20");
    assert_eq!(chrono_lite_format(1_709_164_800), "2024-02-29T00:00:00");
    assert_eq!(chrono_lite_format(1_735_689_599), "2024-12-31T23:59:59");
    assert_eq!(chrono_lite_format(4_107_542_400), "2100-03-01T00:00:00");
}

#[test]
fn years_beyond_four_digits() {
    assert_eq!(chrono_lite_format(253_402_300_799), "9999-12-31T23:59:59");
    assert_eq!(chrono_lite_format(253_402_300_800), "10000-01-01T00:00:00");
}

#[test]
fn leap_years() {
    assert!(is_leap_year(2024));
    assert!(is_leap_year(2000));
    assert!(!is_leap_year(1900));
    assert!(!is_leap_year(2023));
}

#[test]
fn timestamps_have_milliseconds() {
    assert_eq!(timestamp(1_700_000_000, 7), "2023-11-14T22:13:20.007Z");
    assert_eq!(timestamp(0, 999), "1970-01-01T00:00:00.999Z");
    assert_eq!(timestamp(0, 0).len(), 24);
}

#[test]
fn clock_before_1970_counts_as_its_start() {
    assert_eq!(timestamp_of_reading(None), "1970-01-01T00:00:00.000Z");
    assert_eq!(
        timestamp_of_reading(Some((1_700_000_000, 20))),
        "2023-11-14T22:13:20.020Z"
    );
}

#[test]
fn elapsed_time_as_a_timestamp() {
    let start = std::time::UNIX_EPOCH;
    let elapsed = std::time::Duration::new(1_700_000_000, 20_999_999);
    assert_eq!(
        timestamp_of_elapsed((start + elapsed).duration_since(start)),
        "2023-11-14T22:13:20.020Z"
    );
    assert_eq!(
        timestamp_of_elapsed(start.duration_since(start + elapsed)),
        "1970-01-01T00:00:00.000Z"
    );
}

#[test]
fn clock_readings_are_cut_to_milliseconds() {
    let start = std::time::UNIX_EPOCH;
    let later = std::time::Duration::from_nanos(1_007_999_999);
    assert_eq!(timestamp_of_clock(start + later), "1970-01-01T00:00:01.007Z");
    assert_eq!(timestamp_of_clock(start), "1970-01-01T00:00:00.000Z");
    assert_eq!(timestamp_of_clock(start - later), "1970-01-01T00:00:00.000Z");
}

#[test]
fn now_is_a_recent_timestamp() {
    let now = now_iso8601();
    assert_eq!(now.len(), 24);
    assert!(now.ends_with('Z'));
    assert!(now.as_str() > "2020-01-01T00:00:00.000Z");
}

#[test]
fn later_moments_sort_later() {
    let moments: [u64; 5] = [0, 86_399, 951_868_799, 951_868_800, 4_107_542_399];
    for pair in moments.windows(2) {
        assert!(chrono_lite_format(pair[0]) < chrono_lite_format(pair[1]));
    }
}

#[test]
fn numbers_are_padded() {
    assert_eq!(padded(7, 2), "07");
    assert_eq!(padded(0, 3), "000");
    assert_eq!(padded(12345, 4), "12345");
    assert_eq!(padded(u64::MAX, 2), "18446744073709551615");
}

#[test]
fn bytes_in_hexadecimal() {
    assert_eq!(hex_encode(&[]), "");
    assert_eq!(hex_encode(&[0x00, 0x0f, 0xa0, 0xff]), "000fa0ff");
}
