use durcalc::duration::{Days, Duration, Hours, Minutes, Seconds, UnitKind, Weeks};
use durcalc::error::Error;
use durcalc::parse::{first_char, is_op, parse_duration, parse_equation, Phrase};

#[test]
fn duplicate_unit_is_rejected() {
    assert_eq!(
        Duration::from_text("1h 2h"),
        Err(Error::DuplicateUnit(UnitKind::Hours))
    );
}

#[test]
fn duplicate_week_is_rejected() {
    assert_eq!(
        Duration::from_text("1w 2d 3w"),
        Err(Error::DuplicateUnit(UnitKind::Weeks))
    );
}

#[test]
fn unknown_suffix_is_rejected() {
    assert_eq!(Duration::from_text("5x"), Err(Error::UnknownSuffix('x')));
}

#[test]
fn leading_operator_is_rejected() {
    let input = vec!["+", "1h"]
        .into_iter()
        .map(str::to_string)
        .collect::<Vec<_>>();

    assert_eq!(
        durcalc::eval::parse_and_solve(&input),
        Err(Error::EmptyOperand)
    );
}

#[test]
fn adjacent_operators_are_rejected() {
    let input = vec!["1h", "+", "+", "2h"]
        .into_iter()
        .map(str::to_string)
        .collect::<Vec<_>>();

    assert_eq!(parse_equation(&input).err(), Some(Error::EmptyOperand));
}

#[test]
fn trailing_operator_is_rejected() {
    let input = vec!["1h", "-"]
        .into_iter()
        .map(str::to_string)
        .collect::<Vec<_>>();

    assert_eq!(parse_equation(&input).err(), Some(Error::EmptyOperand));
}

#[test]
fn operand_units_in_any_order() {
    assert_eq!(Duration::from_text("2m 1h"), Duration::from_text("1h 2m"));
}

#[test]
fn absent_units_default_to_zero() {
    assert_eq!(
        Duration::from_text("4d"),
        Ok(Duration {
            weeks: Weeks(0),
            days: Days(4),
            hours: Hours(0),
            minutes: Minutes(0),
            seconds: Seconds(0),
        })
    );
}

#[test]
fn empty_unit_token_is_rejected() {
    assert_eq!(Duration::from_text("1h  2m"), Err(Error::MissingSuffix));
}

#[test]
fn empty_operand_text_is_rejected() {
    assert_eq!(Duration::from_text(""), Err(Error::MissingSuffix));
}

#[test]
fn signed_prefix_is_rejected() {
    assert_eq!(Duration::from_text("+5h"), Err(Error::Numeric));
}

#[test]
fn missing_number_is_rejected() {
    assert_eq!(Duration::from_text("h"), Err(Error::Numeric));
}

#[test]
fn non_digit_prefix_is_rejected() {
    assert_eq!(Duration::from_text("1a2h"), Err(Error::Numeric));
}

#[test]
fn magnitude_overflow_is_rejected() {
    assert_eq!(
        Duration::from_text("18446744073709551616s"),
        Err(Error::Numeric)
    );
}

#[test]
fn largest_magnitude_is_accepted() {
    assert_eq!(
        Duration::from_text("18446744073709551615s"),
        Ok(Duration {
            weeks: Weeks(0),
            days: Days(0),
            hours: Hours(0),
            minutes: Minutes(0),
            seconds: Seconds(u64::MAX),
        })
    );
}

#[test]
fn wrong_suffix_is_a_format_error() {
    assert_eq!(parse_duration("5w", "days", "d"), Err(Error::Format));
}

#[test]
fn parse_duration_reads_the_prefix() {
    assert_eq!(parse_duration("120m", "minutes", "m"), Ok(120));
}

#[test]
fn unit_parsers_read_their_suffix() {
    assert_eq!(Weeks::parse("3w"), Ok(Weeks(3)));
    assert_eq!(Days::parse("11d"), Ok(Days(11)));
    assert_eq!(Hours::parse("0h"), Ok(Hours(0)));
    assert_eq!(Minutes::parse("59m"), Ok(Minutes(59)));
    assert_eq!(Seconds::parse("90s"), Ok(Seconds(90)));
    assert_eq!(Hours::parse("5x"), Err(Error::Format));
}

#[test]
fn first_char_reads_the_head() {
    assert_eq!(first_char("abc"), Ok('a'));
    assert_eq!(first_char(""), Err(Error::EmptyOperand));
}

#[test]
fn is_op_recognizes_operators() {
    assert!(is_op('+'));
    assert!(is_op('-'));
    assert!(!is_op('1'));
    assert!(!is_op(' '));
}

#[test]
fn phrase_classification() {
    assert_eq!(Phrase::parse("+"), Ok(Phrase::Plus));
    assert_eq!(Phrase::parse("-"), Ok(Phrase::Minus));
    assert_eq!(Phrase::parse("3d"), Ok(Phrase::Seconds(259200)));
    assert_eq!(Phrase::parse(""), Err(Error::EmptyOperand));
}

#[test]
fn operand_total_beyond_scalar_is_rejected() {
    assert_eq!(
        Phrase::parse("18446744073709551615w"),
        Err(Error::Overflow)
    );
}

#[test]
fn equation_groups_multi_token_operands() {
    let input = vec!["1h", "30m", "+", "15m"]
        .into_iter()
        .map(str::to_string)
        .collect::<Vec<_>>();

    let equation = parse_equation(&input).unwrap();
    assert_eq!(
        equation,
        vec![Phrase::Seconds(5400), Phrase::Plus, Phrase::Seconds(900)]
    );
}

#[test]
fn equation_trims_token_whitespace() {
    let input = vec![" 1h ", "  +", "5m"]
        .into_iter()
        .map(str::to_string)
        .collect::<Vec<_>>();

    let equation = parse_equation(&input).unwrap();
    assert_eq!(
        equation,
        vec![Phrase::Seconds(3600), Phrase::Plus, Phrase::Seconds(300)]
    );
}
