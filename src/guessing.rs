//! The guessing game and the reading of a menu selection.

use rand::Rng;
use vstd::prelude::*;

verus! {

/// How a guess compares with the secret.
#[derive(Debug, Clone, Copy, PartialEq, Eq, Structural)]
pub enum GuessOutcome {
    TooSmall,
    TooBig,
    Correct,
}

pub open spec fn outcome_of(guess: u32, secret: u32) -> GuessOutcome {
    if guess < secret {
        GuessOutcome::TooSmall
    } else if guess > secret {
        GuessOutcome::TooBig
    } else {
        GuessOutcome::Correct
    }
}

pub fn judge_guess(guess: u32, secret: u32) -> (r: GuessOutcome)
    ensures
        r == outcome_of(guess, secret),
{
    if guess < secret {
        GuessOutcome::TooSmall
    } else if guess > secret {
        GuessOutcome::TooBig
    } else {
        GuessOutcome::Correct
    }
}

/// Relies on `rand::thread_rng` and `Rng::gen_range`: a value drawn from
/// `low..high`, which is not empty.
#[verifier::external_body]
fn random_in(low: u32, high: u32) -> (r: u32)
    requires
        low < high,
    ensures
        low <= r < high,
{
    rand::thread_rng().gen_range(low..high)
}

/// The least secret that a round may draw.
pub const SECRET_MIN: u32 = 1;

/// The greatest secret that a round may draw.
pub const SECRET_MAX: u32 = 100;

/// One round of the game: the secret it drew and how the guess compared.
#[derive(Debug, Clone, Copy)]
pub struct GuessRound {
    pub secret: u32,
    pub outcome: GuessOutcome,
}

/// Draws a new secret and compares `guess` with it; every round draws its own.
pub fn play_round(guess: u32) -> (r: GuessRound)
    ensures
        SECRET_MIN <= r.secret <= SECRET_MAX,
        r.outcome == outcome_of(guess, r.secret),
{
    let secret = random_in(SECRET_MIN, SECRET_MAX + 1);
    GuessRound { secret, outcome: judge_guess(guess, secret) }
}

/// The value of a run of ASCII digits.
pub open spec fn digits_value(s: Seq<char>) -> int
    decreases s.len(),
{
    if s.len() == 0 {
        0
    } else {
        digits_value(s.drop_last()) * 10 + (s.last() as u32 - '0' as u32)
    }
}

pub open spec fn is_digit(c: char) -> bool {
    '0' <= c <= '9'
}

/// What `u32`'s `FromStr` gives: an optional '+' followed by one or more
/// ASCII digits whose value fits in a `u32`, and nothing else.
pub open spec fn parsed_u32(s: Seq<char>) -> Option<u32> {
    let digits = if s.len() > 0 && s[0] == '+' {
        s.drop_first()
    } else {
        s
    };
    if digits.len() > 0 && (forall|i: int| 0 <= i < digits.len() ==> is_digit(#[trigger] digits[i]))
        && digits_value(digits) <= u32::MAX {
        Some(digits_value(digits) as u32)
    } else {
        None
    }
}

/// Relies on `str::parse::<u32>`: an optional '+' and then decimal digits
/// whose value fits, and nothing else, give that value; any other text fails.
#[verifier::external_body]
fn parse_u32(s: &str) -> (r: Option<u32>)
    ensures
        r == parsed_u32(s@),
{
    s.parse::<u32>().ok()
}

/// Why a line was not taken as a selection.
#[derive(Debug, Clone, Copy, PartialEq, Eq, Structural)]
pub enum SelectionError {
    /// The line is not a number.
    NotANumber,
    /// The number lies outside the range offered.
    OutOfRange,
}

/// Reads a line, already trimmed, as a number in `min..=max`.
pub fn read_selection(text: &str, min: u32, max: u32) -> (r: Result<u32, SelectionError>)
    ensures
        r == (match parsed_u32(text@) {
            None => Err(SelectionError::NotANumber),
            Some(v) => if v < min || v > max {
                Err(SelectionError::OutOfRange)
            } else {
                Ok(v)
            },
        }),
{
    match parse_u32(text) {
        None => Err(SelectionError::NotANumber),
        Some(v) => {
            if v < min || v > max {
                Err(SelectionError::OutOfRange)
            } else {
                Ok(v)
            }
        },
    }
}

} // verus!
