use rust_book::football::MatchResult;
use rust_book::vectors::{append_sum, games_to_be_played};

#[test]
fn append_sum_pushes_the_total() {
    let mut v = vec![0, 1, 2];
    append_sum(&mut v);
    assert_eq!(v, vec![0, 1, 2, 3]);
}

#[test]
fn append_sum_of_nothing_is_zero() {
    let mut v: Vec<i32> = Vec::new();
    append_sum(&mut v);
    assert_eq!(v, vec![0]);
}

#[test]
fn append_sum_with_negatives() {
    let mut v = vec![-5, 7, -9, i32::MAX, -100];
    append_sum(&mut v);
    assert_eq!(v, vec![-5, 7, -9, i32::MAX, -100, i32::MAX - 107]);
}

fn times(games: &[&MatchResult]) -> Vec<String> {
    games
        .iter()
        .map(|g| match g {
            MatchResult::Scheduled(t) => t.clone(),
            _ => String::from("not scheduled"),
        })
        .collect()
}

#[test]
fn only_scheduled_games_remain() {
    let mut games = vec![
        MatchResult::Abandoned,
        MatchResult::Postponed,
        MatchResult::Scheduled(String::from("15:00")),
        MatchResult::HomeWin,
        MatchResult::Draw,
        MatchResult::Scheduled(String::from("19:00")),
    ];
    assert_eq!(times(&games_to_be_played(&games)), vec!["15:00", "19:00"]);

    games[2] = MatchResult::Scheduled(String::from("15:45"));
    games[5] = MatchResult::HomeWin;
    assert_eq!(times(&games_to_be_played(&games)), vec!["15:45"]);
}

#[test]
fn no_games_to_play() {
    let games = vec![MatchResult::Draw, MatchResult::AwayWin];
    assert!(games_to_be_played(&games).is_empty());
    assert!(games_to_be_played(&[]).is_empty());
}
