use durcalc::duration::{Days, Duration, Hours, Minutes, Seconds, Weeks};
use durcalc::error::Error;
use durcalc::eval::{parse_and_solve, solve_equation};
use durcalc::parse::Phrase;

fn args(tokens: &[&str]) -> Vec<String> {
    tokens.iter().map(|t| t.to_string()).collect()
}

#[test]
fn single_operand_is_normalized() {
    let result = parse_and_solve(&args(&["90m"])).unwrap();
    let expected = Duration {
        weeks: Weeks(0),
        days: Days(0),
        hours: Hours(1),
        minutes: Minutes(30),
        seconds: Seconds(0),
    };
    assert_eq!(expected, result);
}

#[test]
fn addition_carries_across_units() {
    let result = parse_and_solve(&args(&["6d", "+", "1d"])).unwrap();
    let expected = Duration {
        weeks: Weeks(1),
        days: Days(0),
        hours: Hours(0),
        minutes: Minutes(0),
        seconds: Seconds(0),
    };
    assert_eq!(expected, result);
}

#[test]
fn intermediate_negative_total_is_fine() {
    let result = parse_and_solve(&args(&["1d", "-", "2d", "+", "3d"])).unwrap();
    let expected = Duration {
        weeks: Weeks(0),
        days: Days(2),
        hours: Hours(0),
        minutes: Minutes(0),
        seconds: Seconds(0),
    };
    assert_eq!(expected, result);
}

#[test]
fn net_negative_total_is_rejected() {
    assert_eq!(
        parse_and_solve(&args(&["1d", "-", "2d"])),
        Err(Error::Negative)
    );
}

#[test]
fn solve_folds_left_to_right() {
    let equation = vec![
        Phrase::Seconds(518400),
        Phrase::Minus,
        Phrase::Seconds(86400),
        Phrase::Minus,
        Phrase::Seconds(172800),
    ];
    let expected = Duration {
        weeks: Weeks(0),
        days: Days(3),
        hours: Hours(0),
        minutes: Minutes(0),
        seconds: Seconds(0),
    };
    assert_eq!(solve_equation(&equation), Ok(expected));
}

#[test]
fn solve_starts_with_implicit_plus() {
    let equation = vec![Phrase::Seconds(60)];
    let expected = Duration {
        weeks: Weeks(0),
        days: Days(0),
        hours: Hours(0),
        minutes: Minutes(1),
        seconds: Seconds(0),
    };
    assert_eq!(solve_equation(&equation), Ok(expected));
}

#[test]
fn empty_equation_evaluates_to_zero() {
    assert_eq!(solve_equation(&[]), Ok(Duration::default()));
}

#[test]
fn final_total_beyond_scalar_is_rejected() {
    let equation = vec![
        Phrase::Seconds(u64::MAX),
        Phrase::Plus,
        Phrase::Seconds(1),
    ];
    assert_eq!(solve_equation(&equation), Err(Error::Overflow));
}

#[test]
fn multi_token_operands_combine_before_evaluation() {
    let result = parse_and_solve(&args(&["1h", "30m", "+", "15m"])).unwrap();
    let expected = Duration {
        weeks: Weeks(0),
        days: Days(0),
        hours: Hours(1),
        minutes: Minutes(45),
        seconds: Seconds(0),
    };
    assert_eq!(expected, result);
}

#[test]
fn error_messages_are_stable() {
    assert_eq!(Error::Negative.message(), "negative duration");
    assert_eq!(Error::MissingInput.message(), "missing input");
    assert_eq!(Error::EmptyOperand.message(), "no char in substring");
}
