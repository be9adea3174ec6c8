use rust_book::guessing::{judge_guess, play_round, read_selection, GuessOutcome, SelectionError};

#[test]
fn guesses_compare_with_secret() {
    assert_eq!(judge_guess(3, 50), GuessOutcome::TooSmall);
    assert_eq!(judge_guess(51, 50), GuessOutcome::TooBig);
    assert_eq!(judge_guess(50, 50), GuessOutcome::Correct);
}

#[test]
fn rounds_draw_secrets_in_range() {
    for guess in [1, 50, 100, 101] {
        let round = play_round(guess);
        assert!((1..=100).contains(&round.secret));
        assert_eq!(round.outcome, judge_guess(guess, round.secret));
    }
}

#[test]
fn selections_in_range_are_taken() {
    assert_eq!(read_selection("5", 1, 9), Ok(5));
    assert_eq!(read_selection("+7", 1, 9), Ok(7));
    assert_eq!(read_selection("009", 1, 9), Ok(9));
    assert_eq!(read_selection("1", 1, 9), Ok(1));
}

#[test]
fn bad_selections_are_refused() {
    assert_eq!(read_selection("0", 1, 9), Err(SelectionError::OutOfRange));
    assert_eq!(read_selection("10", 1, 9), Err(SelectionError::OutOfRange));
    assert_eq!(read_selection("x", 1, 9), Err(SelectionError::NotANumber));
    assert_eq!(read_selection("", 1, 9), Err(SelectionError::NotANumber));
    assert_eq!(read_selection("+", 1, 9), Err(SelectionError::NotANumber));
    assert_eq!(read_selection("-1", 1, 9), Err(SelectionError::NotANumber));
    assert_eq!(read_selection(" 5", 1, 9), Err(SelectionError::NotANumber));
    assert_eq!(read_selection("4294967296", 1, 9), Err(SelectionError::NotANumber));
    assert_eq!(read_selection("4294967295", 1, 9), Err(SelectionError::OutOfRange));
}
