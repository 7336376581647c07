//! What the operator types: pause lengths such as `1m30s`, numbers within a
//! range, and the keys that steer a running loop.

use crate::error::AppError;
use regex::Error;
use regex::Regex;
use vstd::prelude::*;

verus! {

/// `regex::Error`, the reason why a pattern is no regular expression.
#[verifier::external_type_specification]
#[verifier::external_body]
pub struct ExRegexError(Error);

/// The parts of `text` that two named groups of a regular expression match,
/// when the whole expression is matched against the text: nothing at all
/// when `pattern` is no regular expression, nothing inside when the
/// expression does not match, and for each group nothing when it took no
/// part in the match.
pub uninterp spec fn regex_groups(
    pattern: Seq<char>,
    text: Seq<char>,
    first: Seq<char>,
    second: Seq<char>,
) -> Option<Option<(Option<Seq<char>>, Option<Seq<char>>)>>;

/// The texts of the two fields of a match.
pub open spec fn fields_view(fields: Option<(Option<String>, Option<String>)>) -> Option<
    (Option<Seq<char>>, Option<Seq<char>>),
> {
    match fields {
        None => None,
        Some((a, b)) => Some(
            (
                match a {
                    Some(s) => Some(s@),
                    None => None,
                },
                match b {
                    Some(s) => Some(s@),
                    None => None,
                },
            ),
        ),
    }
}

/// `Regex::new`, `Regex::captures` and `Captures::name` of the `regex`
/// crate: compiles the pattern, matches it against the text and hands out
/// what the groups named `first` and `second` matched.
#[verifier::external_body]
fn named_groups(pattern: &str, text: &str, first: &str, second: &str) -> (r: Result<
    Option<(Option<String>, Option<String>)>,
    Error,
>)
    ensures
        r.is_ok() <==> regex_groups(pattern@, text@, first@, second@).is_some(),
        r.is_ok() ==> regex_groups(pattern@, text@, first@, second@) == Some(
            fields_view(r.unwrap()),
        ),
{
    let expression = Regex::new(pattern)?;
    let found = match expression.captures(text) {
        Some(found) => found,
        None => return Ok(None),
    };
    let a = match found.name(first) {
        Some(part) => Some(part.as_str().to_owned()),
        None => None,
    };
    let b = match found.name(second) {
        Some(part) => Some(part.as_str().to_owned()),
        None => None,
    };
    Ok(Some((a, b)))
}

/// `c` is one of the digits `0` to `9`.
pub open spec fn is_digit(c: char) -> bool {
    '0' <= c && c <= '9'
}

/// The number that a sequence of digits stands for in base ten.
pub open spec fn decimal_value(digits: Seq<char>) -> int
    decreases digits.len(),
{
    if digits.len() == 0 {
        0
    } else {
        decimal_value(digits.drop_last()) * 10 + (digits.last() as int - '0' as int)
    }
}

/// The number that a text stands for: the text must be made of the digits
/// `0` to `9` alone, of at least one, and the number must fit.
pub open spec fn parsed_decimal(text: Seq<char>) -> Option<u64> {
    if text.len() > 0 && (forall|i: int| 0 <= i < text.len() ==> is_digit(#[trigger] text[i]))
        && decimal_value(text) <= u64::MAX {
        Some(decimal_value(text) as u64)
    } else {
        None
    }
}

/// The number that the first digits stand for is at most the number that
/// all of them stand for.
proof fn lemma_decimal_prefix(digits: Seq<char>, n: int)
    requires
        0 <= n <= digits.len(),
        forall|i: int| 0 <= i < digits.len() ==> is_digit(#[trigger] digits[i]),
    ensures
        0 <= decimal_value(digits.subrange(0, n)) <= decimal_value(digits),
    decreases digits.len() - n,
{
    if n == digits.len() {
        assert(digits.subrange(0, n) =~= digits);
        lemma_decimal_nonnegative(digits);
    } else {
        let longer = digits.subrange(0, n + 1);
        assert(longer.drop_last() =~= digits.subrange(0, n));
        assert(is_digit(digits[n]));
        lemma_decimal_nonnegative(digits.subrange(0, n));
        lemma_decimal_prefix(digits, n + 1);
    }
}

/// A sequence of digits stands for a number that is not negative.
proof fn lemma_decimal_nonnegative(digits: Seq<char>)
    requires
        forall|i: int| 0 <= i < digits.len() ==> is_digit(#[trigger] digits[i]),
    ensures
        0 <= decimal_value(digits),
    decreases digits.len(),
{
    if digits.len() > 0 {
        assert(is_digit(digits[digits.len() - 1]));
        lemma_decimal_nonnegative(digits.drop_last());
    }
}

/// Reads a number written with the digits `0` to `9`.
pub fn parse_decimal(text: &str) -> (r: Option<u64>)
    ensures
        r == parsed_decimal(text@),
{
    let n = text.unicode_len();
    if n == 0 {
        return None;
    }
    let mut value: u64 = 0;
    let mut i: usize = 0;
    while i < n
        invariant
            n == text@.len(),
            i <= n,
            forall|k: int| 0 <= k < i ==> is_digit(#[trigger] text@[k]),
            value == decimal_value(text@.subrange(0, i as int)),
        decreases n - i,
    {
        let c = text.get_char(i);
        if !('0' <= c && c <= '9') {
            assert(!is_digit(text@[i as int]));
            return None;
        }
        let digit: u64 = (c as u64) - 48;
        proof {
            let longer = text@.subrange(0, i + 1);
            assert(longer.drop_last() =~= text@.subrange(0, i as int));
            assert(longer.last() == c);
            assert(decimal_value(longer) == value * 10 + digit);
        }
        if value > (u64::MAX - digit) / 10 {
            proof {
                if forall|k: int| 0 <= k < text@.len() ==> is_digit(#[trigger] text@[k]) {
                    lemma_decimal_prefix(text@, i + 1);
                }
            }
            return None;
        }
        value = value * 10 + digit;
        i = i + 1;
    }
    assert(text@.subrange(0, n as int) =~= text@);
    Some(value)
}

/// The value of a field of a pause length: the number it holds, and zero for
/// a field that is missing or holds no number that fits.
pub open spec fn field_value(field: Option<Seq<char>>) -> u64 {
    match field {
        Some(digits) => match parsed_decimal(digits) {
            Some(v) => v,
            None => 0,
        },
        None => 0,
    }
}

/// The seconds that the fields of a pause length add up to: sixty for each
/// minute and one for each second. There is no length when the text did not
/// match, when both fields are zero and when the sum does not fit.
pub open spec fn duration_of(fields: Option<(Option<Seq<char>>, Option<Seq<char>>)>) -> Option<
    u64,
> {
    match fields {
        None => None,
        Some((minutes, seconds)) => {
            let m = field_value(minutes);
            let s = field_value(seconds);
            if m == 0 && s == 0 {
                None
            } else if m * 60 + s > u64::MAX {
                None
            } else {
                Some((m * 60 + s) as u64)
            }
        },
    }
}

/// The value of a field of a pause length.
fn value_of_field(field: &Option<String>) -> (v: u64)
    ensures
        v == field_value(
            match *field {
                Some(s) => Some(s@),
                None => None,
            },
        ),
{
    match field {
        Some(digits) => match parse_decimal(digits.as_str()) {
            Some(v) => v,
            None => 0,
        },
        None => 0,
    }
}

/// Adds up the fields of a pause length, in seconds.
pub fn duration_from_fields(fields: &Option<(Option<String>, Option<String>)>) -> (r: Result<
    u64,
    AppError,
>)
    ensures
        match duration_of(fields_view(*fields)) {
            Some(seconds) => r == Ok::<u64, AppError>(seconds),
            None => r == Err::<u64, AppError>(AppError::ParseError),
        },
{
    match fields {
        None => Err(AppError::ParseError),
        Some((minutes, seconds)) => {
            let m = value_of_field(minutes);
            let s = value_of_field(seconds);
            if m == 0 && s == 0 {
                Err(AppError::ParseError)
            } else if m > (u64::MAX - s) / 60 {
                Err(AppError::ParseError)
            } else {
                Ok(m * 60 + s)
            }
        },
    }
}

/// The form of a pause length, as a regular expression: a number of
/// minutes followed by `m`, then a number of seconds followed by `s`, each
/// part optional, in upper or lower case.
pub open spec fn duration_pattern() -> Seq<char> {
    "(?i)^((?P<m>\\d+)m)?((?P<s>\\d+)s)?$"@
}

/// The seconds that a pause length such as `1m30s`, `45s` or `2M` stands
/// for, if it stands for any.
pub open spec fn parsed_duration(text: Seq<char>) -> Option<u64> {
    match regex_groups(duration_pattern(), text, "m"@, "s"@) {
        None => None,
        Some(fields) => duration_of(fields),
    }
}

/// Reads a pause length and gives it in seconds. A text of another form, a
/// length of zero and a length that does not fit are refused.
pub fn parse_duration(text: &str) -> (r: Result<u64, AppError>)
    ensures
        match parsed_duration(text@) {
            Some(seconds) => r == Ok::<u64, AppError>(seconds),
            None => r == Err::<u64, AppError>(AppError::ParseError),
        },
{
    match named_groups("(?i)^((?P<m>\\d+)m)?((?P<s>\\d+)s)?$", text, "m", "s") {
        Ok(fields) => duration_from_fields(&fields),
        Err(_) => Err(AppError::ParseError),
    }
}

/// The pause that is made when no length could be read, in seconds.
pub const DEFAULT_PAUSE: u64 = 60;

/// The length of a timed pause in seconds: the length that was read, or
/// `DEFAULT_PAUSE` when none could be read.
pub fn pause_or_default(parsed: Result<u64, AppError>) -> (seconds: u64)
    ensures
        seconds == (match parsed {
            Ok(s) => s,
            Err(_) => DEFAULT_PAUSE,
        }),
{
    match parsed {
        Ok(s) => s,
        Err(_) => DEFAULT_PAUSE,
    }
}

/// What is made of a number that the operator was asked for.
#[derive(Debug, Clone, Copy, PartialEq, Eq, Structural)]
pub enum InputVerdict {
    /// The number lies within the bounds.
    Accepted(i32),
    /// A number, but outside the bounds: ask again.
    OutOfRange,
    /// No number: ask again.
    NotANumber,
}

/// Checks what the operator typed, read as a number where it is one, against
/// the bounds `min` and `max`, both of which are allowed.
pub fn check_input(parsed: Option<i32>, min: i32, max: i32) -> (r: InputVerdict)
    ensures
        r == (match parsed {
            Some(n) => if min <= n <= max {
                InputVerdict::Accepted(n)
            } else {
                InputVerdict::OutOfRange
            },
            None => InputVerdict::NotANumber,
        }),
{
    match parsed {
        Some(n) => if n >= min && n <= max {
            InputVerdict::Accepted(n)
        } else {
            InputVerdict::OutOfRange
        },
        None => InputVerdict::NotANumber,
    }
}

/// What a key does to a running loop.
#[derive(Debug, Clone, Copy, PartialEq, Eq, Structural)]
pub enum KeyAction {
    /// Pause the loop, or resume it if it is paused.
    TogglePause,
    /// Wipe the screen.
    ClearScreen,
    /// End the program.
    Quit,
    /// Ask for a length and pause for that long.
    TimedPause,
    /// The key means nothing.
    Ignore,
}

/// The action that belongs to a key: `p` toggles the pause, `c` wipes the
/// screen, `q` ends the program and `t` starts a timed pause.
pub fn key_action(key: char) -> (r: KeyAction)
    ensures
        r == (if key == 'p' {
            KeyAction::TogglePause
        } else if key == 'c' {
            KeyAction::ClearScreen
        } else if key == 'q' {
            KeyAction::Quit
        } else if key == 't' {
            KeyAction::TimedPause
        } else {
            KeyAction::Ignore
        }),
{
    if key == 'p' {
        KeyAction::TogglePause
    } else if key == 'c' {
        KeyAction::ClearScreen
    } else if key == 'q' {
        KeyAction::Quit
    } else if key == 't' {
        KeyAction::TimedPause
    } else {
        KeyAction::Ignore
    }
}

} // verus!
