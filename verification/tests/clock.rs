//! Instants as the pages show them.
use greenroom::clock::{now, rfc3339, EARLIEST, LATEST, YEAR_ZERO};

#[test]
fn timestamps_are_shown_in_rfc_3339() {
    assert_eq!(rfc3339(0), "1970-01-01T00:00:00Z");
    assert_eq!(rfc3339(1_757_000_000), "2025-09-04T15:33:20Z");
    assert_eq!(rfc3339(-1), "1969-12-31T23:59:59Z");
}

#[test]
fn the_last_second_of_the_year_9999_is_the_last_with_a_date() {
    assert_eq!(rfc3339(LATEST), "9999-12-31T23:59:59Z");
    assert_eq!(rfc3339(LATEST + 1), "1970-01-01T00:00:00Z");
    assert_eq!(rfc3339(i64::MAX), "1970-01-01T00:00:00Z");
}

#[test]
fn years_before_zero_are_shown_as_nothing() {
    assert_eq!(rfc3339(YEAR_ZERO), "0000-01-01T00:00:00Z");
    assert_eq!(rfc3339(YEAR_ZERO - 1), "");
    assert_eq!(rfc3339(EARLIEST), "");
    assert_eq!(rfc3339(EARLIEST - 1), "1970-01-01T00:00:00Z");
    assert_eq!(rfc3339(i64::MIN), "1970-01-01T00:00:00Z");
}

#[test]
fn the_clock_reads_the_present() {
    let first = now();
    let second = now();
    assert!(first > 1_700_000_000);
    assert!(second >= first);
}
