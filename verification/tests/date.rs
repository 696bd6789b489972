use uniman::date::civil_from_days;
use uniman::index::{iso_now, iso_timestamp};

#[test]
fn epoch_day_zero_is_1970_01_01() {
    assert_eq!(civil_from_days(0), (1970, 1, 1));
}

#[test]
fn known_date_2024_march_1() {
    assert_eq!(civil_from_days(19783), (2024, 3, 1));
}

#[test]
fn known_date_2000_01_01() {
    assert_eq!(civil_from_days(10957), (2000, 1, 1));
}

#[test]
fn known_date_1999_12_31() {
    assert_eq!(civil_from_days(10956), (1999, 12, 31));
}

#[test]
fn leap_day_2024_feb_29() {
    assert_eq!(civil_from_days(19782), (2024, 2, 29));
}

#[test]
fn negative_days_1969_12_31() {
    assert_eq!(civil_from_days(-1), (1969, 12, 31));
}

#[test]
fn far_future_date() {
    assert_eq!(civil_from_days(47482), (2100, 1, 1));
}

#[test]
fn century_rules() {
    // 1900 is no leap year, 2000 is.
    assert_eq!(civil_from_days(-25508), (1900, 3, 1));
    assert_eq!(civil_from_days(-25509), (1900, 2, 28));
    assert_eq!(civil_from_days(11016), (2000, 2, 29));
    assert_eq!(civil_from_days(-719468), (0, 3, 1));
}

#[test]
fn consecutive_days_are_consecutive_dates() {
    let mut prev = civil_from_days(-800);
    for d in -799..800 {
        let cur = civil_from_days(d);
        assert_ne!(cur, prev);
        prev = cur;
    }
}

#[test]
fn iso_now_produces_valid_format() {
    let now = iso_now();
    assert!(now.contains('T'), "iso_now should contain 'T': {now}");
    assert!(now.ends_with('Z'), "iso_now should end with 'Z': {now}");
    assert_eq!(now.len(), 20, "iso_now should be 20 chars: {now}");
}

#[test]
fn iso_timestamp_exact_values() {
    assert_eq!(iso_timestamp(0), "1970-01-01T00:00:00Z");
    assert_eq!(iso_timestamp(1709251199), "2024-02-29T23:59:59Z");
    assert_eq!(iso_timestamp(951782400), "2000-02-29T00:00:00Z");
    assert_eq!(iso_timestamp(253402300800), "10000-01-01T00:00:00Z");
}

#[test]
fn next_day_law_on_concrete_days() {
    assert_eq!(civil_from_days(19781), (2024, 2, 28));
    assert_eq!(civil_from_days(19782), (2024, 2, 29));
    assert_eq!(civil_from_days(19783), (2024, 3, 1));
    assert_eq!(civil_from_days(-1), (1969, 12, 31));
    assert_eq!(civil_from_days(0), (1970, 1, 1));
}
