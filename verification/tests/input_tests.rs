use mouse_clicker::error::AppError;
use mouse_clicker::input::{
    check_input, duration_from_fields, key_action, parse_decimal, parse_duration,
    pause_or_default, InputVerdict, KeyAction, DEFAULT_PAUSE,
};

#[test]
fn decimal_numbers() {
    assert_eq!(parse_decimal("0"), Some(0));
    assert_eq!(parse_decimal("7"), Some(7));
    assert_eq!(parse_decimal("0042"), Some(42));
    assert_eq!(parse_decimal("18446744073709551615"), Some(u64::MAX));
    assert_eq!(parse_decimal("18446744073709551616"), None);
    assert_eq!(parse_decimal("99999999999999999999999"), None);
    assert_eq!(parse_decimal(""), None);
    assert_eq!(parse_decimal("+5"), None);
    assert_eq!(parse_decimal("-5"), None);
    assert_eq!(parse_decimal("5 "), None);
    assert_eq!(parse_decimal("1a"), None);
    assert_eq!(parse_decimal("\u{661}\u{662}"), None);
}

#[test]
fn durations_in_minutes_and_seconds() {
    assert_eq!(parse_duration("1m30s"), Ok(90));
    assert_eq!(parse_duration("45s"), Ok(45));
    assert_eq!(parse_duration("2m"), Ok(120));
    assert_eq!(parse_duration("2M"), Ok(120));
    assert_eq!(parse_duration("1M05S"), Ok(65));
    assert_eq!(parse_duration("0m7s"), Ok(7));
    assert_eq!(parse_duration("90s"), Ok(90));
    assert_eq!(parse_duration("120m0s"), Ok(7200));
}

#[test]
fn durations_that_are_refused() {
    assert_eq!(parse_duration(""), Err(AppError::ParseError));
    assert_eq!(parse_duration("0s"), Err(AppError::ParseError));
    assert_eq!(parse_duration("0m0s"), Err(AppError::ParseError));
    assert_eq!(parse_duration("abc"), Err(AppError::ParseError));
    assert_eq!(parse_duration("30"), Err(AppError::ParseError));
    assert_eq!(parse_duration("30s1m"), Err(AppError::ParseError));
    assert_eq!(parse_duration("1m 30s"), Err(AppError::ParseError));
    assert_eq!(parse_duration(" 5s"), Err(AppError::ParseError));
    assert_eq!(parse_duration("5s\n"), Err(AppError::ParseError));
    assert_eq!(parse_duration("1h"), Err(AppError::ParseError));
    assert_eq!(parse_duration("-5s"), Err(AppError::ParseError));
}

#[test]
fn durations_with_numbers_that_do_not_fit() {
    // a field that holds no number that fits counts as zero
    assert_eq!(parse_duration("99999999999999999999s"), Err(AppError::ParseError));
    assert_eq!(parse_duration("99999999999999999999m5s"), Ok(5));
    assert_eq!(parse_duration("\u{661}\u{662}s"), Err(AppError::ParseError));
    // the sum does not fit
    assert_eq!(parse_duration("307445734561825861m"), Err(AppError::ParseError));
    assert_eq!(parse_duration("307445734561825860m15s"), Ok(u64::MAX));
    assert_eq!(parse_duration("307445734561825860m16s"), Err(AppError::ParseError));
}

#[test]
fn duration_from_given_fields() {
    assert_eq!(duration_from_fields(&None), Err(AppError::ParseError));
    assert_eq!(duration_from_fields(&Some((None, None))), Err(AppError::ParseError));
    assert_eq!(duration_from_fields(&Some((Some("3".to_string()), None))), Ok(180));
    assert_eq!(duration_from_fields(&Some((None, Some("3".to_string())))), Ok(3));
    assert_eq!(
        duration_from_fields(&Some((Some("2".to_string()), Some("x".to_string())))),
        Ok(120)
    );
    assert_eq!(
        duration_from_fields(&Some((Some("".to_string()), Some("0".to_string())))),
        Err(AppError::ParseError)
    );
}

#[test]
fn timed_pause_defaults_to_a_minute() {
    assert_eq!(DEFAULT_PAUSE, 60);
    assert_eq!(pause_or_default(Ok(5)), 5);
    assert_eq!(pause_or_default(Err(AppError::ParseError)), 60);
    assert_eq!(pause_or_default(parse_duration("1m30s")), 90);
    assert_eq!(pause_or_default(parse_duration("soon")), 60);
}

#[test]
fn input_is_checked_against_bounds() {
    assert_eq!(check_input(Some(5), 1, 10), InputVerdict::Accepted(5));
    assert_eq!(check_input(Some(1), 1, 10), InputVerdict::Accepted(1));
    assert_eq!(check_input(Some(10), 1, 10), InputVerdict::Accepted(10));
    assert_eq!(check_input(Some(0), 1, 10), InputVerdict::OutOfRange);
    assert_eq!(check_input(Some(11), 1, 10), InputVerdict::OutOfRange);
    assert_eq!(check_input(Some(5), 10, 1), InputVerdict::OutOfRange);
    assert_eq!(check_input(None, 1, 10), InputVerdict::NotANumber);
}

#[test]
fn keys_and_their_actions() {
    assert_eq!(key_action('p'), KeyAction::TogglePause);
    assert_eq!(key_action('c'), KeyAction::ClearScreen);
    assert_eq!(key_action('q'), KeyAction::Quit);
    assert_eq!(key_action('t'), KeyAction::TimedPause);
    assert_eq!(key_action('P'), KeyAction::Ignore);
    assert_eq!(key_action('x'), KeyAction::Ignore);
    assert_eq!(key_action(' '), KeyAction::Ignore);
}
