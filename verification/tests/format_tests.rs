use durcalc::duration::{Days, Duration, Hours, Minutes, Seconds, Weeks};
use durcalc::fmt::fmt_u64;

#[test]
fn formatting_omits_zero_units() {
    let d = Duration {
        hours: Hours(5),
        ..Default::default()
    };
    assert_eq!(d.format(), "5h ");
}

#[test]
fn zero_duration_formats_as_empty() {
    assert_eq!(Duration::default().format(), "");
}

#[test]
fn formatting_lists_units_largest_first() {
    let d = Duration::from_seconds(Seconds(694861));
    assert_eq!(d.format(), "1w 1d 1h 1m 1s ");
}

#[test]
fn formatting_skips_inner_zero_units() {
    let d = Duration {
        weeks: Weeks(2),
        days: Days(0),
        hours: Hours(0),
        minutes: Minutes(30),
        seconds: Seconds(0),
    };
    assert_eq!(d.format(), "2w 30m ");
}

#[test]
fn unit_formatting_appends_the_suffix() {
    assert_eq!(Weeks(3).format(), "3w");
    assert_eq!(Days(11).format(), "11d");
    assert_eq!(Hours(0).format(), "0h");
    assert_eq!(Minutes(59).format(), "59m");
    assert_eq!(Seconds(90).format(), "90s");
}

#[test]
fn numbers_format_in_decimal() {
    assert_eq!(fmt_u64(0), "0");
    assert_eq!(fmt_u64(7), "7");
    assert_eq!(fmt_u64(1234567890), "1234567890");
    assert_eq!(fmt_u64(u64::MAX), "18446744073709551615");
}

#[test]
fn conversion_factors_match_the_table() {
    assert_eq!(Seconds::conversion_factor(), 1);
    assert_eq!(Minutes::conversion_factor(), 60);
    assert_eq!(Hours::conversion_factor(), 3600);
    assert_eq!(Days::conversion_factor(), 86400);
    assert_eq!(Weeks::conversion_factor(), 604800);
}

#[test]
fn noncanonical_duration_normalizes() {
    let d = Duration {
        minutes: Minutes(90),
        ..Default::default()
    };
    let normalized = Duration::from_seconds(d.as_seconds());
    let expected = Duration {
        weeks: Weeks(0),
        days: Days(0),
        hours: Hours(1),
        minutes: Minutes(30),
        seconds: Seconds(0),
    };
    assert_eq!(normalized, expected);
}

#[test]
fn format_and_reparse_round_trip() {
    let d = Duration::from_seconds(Seconds(694861));
    let text = d.format();
    let reparsed = Duration::from_text(text.trim()).unwrap();
    assert_eq!(reparsed, d);
}

#[test]
fn explicit_zero_magnitudes_format_as_empty() {
    let d = Duration::from_text("0h 0m").unwrap();
    assert_eq!(d.format(), "");
}

#[test]
fn checked_seconds_detects_overflow() {
    let d = Duration {
        weeks: Weeks(u64::MAX),
        ..Default::default()
    };
    assert_eq!(d.checked_seconds(), None);

    let small = Duration {
        minutes: Minutes(2),
        seconds: Seconds(5),
        ..Default::default()
    };
    assert_eq!(small.checked_seconds(), Some(125));
}
