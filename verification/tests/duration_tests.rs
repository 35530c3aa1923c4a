use durcalc::duration::{Days, Duration, Hours, Minutes, Seconds, Weeks};
use durcalc::eval::parse_and_solve;

#[test]
fn roundtrip_equality() {
    let duration_1 = Duration {
        hours: Hours(5),
        ..Default::default()
    };

    let duration_2: Duration = Duration::from_seconds(duration_1.as_seconds());

    assert_eq!(duration_1, duration_2);
}

#[test]
fn minutes_to_seconds() {
    let duration = Duration {
        minutes: Minutes(1),
        ..Default::default()
    };

    let expected_seconds = Seconds(60);

    assert_eq!(expected_seconds, duration.as_seconds());
}

#[test]
fn hours_to_seconds() {
    let duration = Duration {
        hours: Hours(1),
        ..Default::default()
    };

    let expected_seconds = Seconds(60 * 60);

    assert_eq!(expected_seconds, duration.as_seconds());
}

#[test]
fn days_to_seconds() {
    let duration = Duration {
        days: Days(1),
        ..Default::default()
    };

    let expected_seconds = Seconds(60 * 60 * 24);

    assert_eq!(expected_seconds, duration.as_seconds());
}

#[test]
fn weeks_to_seconds() {
    let duration = Duration {
        weeks: Weeks(1),
        ..Default::default()
    };

    let expected_seconds = Seconds(60 * 60 * 24 * 7);

    assert_eq!(expected_seconds, duration.as_seconds());
}

#[test]
fn seconds_to_minutes() {
    let seconds = Seconds(60);

    let expected_duration = Duration {
        minutes: Minutes(1),
        ..Default::default()
    };

    assert_eq!(expected_duration, Duration::from_seconds(seconds));
}

#[test]
fn seconds_to_hours() {
    let seconds = Seconds(60 * 60);

    let expected_duration = Duration {
        hours: Hours(1),
        ..Default::default()
    };

    assert_eq!(expected_duration, Duration::from_seconds(seconds));
}

#[test]
fn seconds_to_days() {
    let seconds = Seconds(60 * 60 * 24);

    let expected_duration = Duration {
        days: Days(1),
        ..Default::default()
    };

    assert_eq!(expected_duration, Duration::from_seconds(seconds));
}

#[test]
fn seconds_to_weeks() {
    let seconds = Seconds(60 * 60 * 24 * 7);

    let expected_duration = Duration {
        weeks: Weeks(1),
        ..Default::default()
    };

    assert_eq!(expected_duration, Duration::from_seconds(seconds));
}

#[test]
fn double_subtraction() {
    let input = vec!["6d", "-", "1d", "-", "2d"]
        .into_iter()
        .map(str::to_string)
        .collect::<Vec<_>>();

    let result = parse_and_solve(&input).unwrap();
    let expected_result = Duration::from_text("3d").unwrap();

    assert_eq!(expected_result, result);
}
