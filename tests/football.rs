use rust_book::football::{MatchCompletion, MatchResult, MatchScore};

fn score(home: u32, away: u32) -> MatchScore {
    MatchScore { home, away }
}

#[test]
fn home_lead_is_labelled_draw() {
    assert!(matches!(score(2, 1).match_result(), MatchResult::Draw));
}

#[test]
fn away_lead_is_labelled_away_win() {
    assert!(matches!(score(0, 4).match_result(), MatchResult::AwayWin));
}

#[test]
fn level_score_is_labelled_home_win() {
    assert!(matches!(score(0, 0).match_result(), MatchResult::HomeWin));
}

#[test]
fn score_text_is_home_dash_away() {
    assert_eq!(score(2, 1).to_string(), "2 - 1");
    assert_eq!(score(10, 0).to_string(), "10 - 0");
    assert_eq!(score(4294967295, 907).to_string(), "4294967295 - 907");
}

#[test]
fn unplayed_game_is_scheduled_at_three() {
    let game = MatchCompletion::Incomplete;
    match game.match_result() {
        MatchResult::Scheduled(t) => assert_eq!(t, "15:00"),
        _ => panic!("an unplayed game is scheduled"),
    }
    assert_eq!(game.game_time(), "15:00");
    assert_eq!(game.to_string(), "Team 1 15:00 Team 2");
}

#[test]
fn normal_time_result() {
    let game = MatchCompletion::NormalTime { score: score(2, 1) };
    assert!(matches!(game.match_result(), MatchResult::Draw));
    assert_eq!(game.game_time(), "Game Finished");
    assert_eq!(game.to_string(), "Team 1 2 - 1 Team 2");
}

#[test]
fn extra_time_result_uses_score_after_extra_time() {
    let game = MatchCompletion::ExtraTime { score: score(2, 2), aet: score(3, 4) };
    assert!(matches!(game.match_result(), MatchResult::AwayWin));
    assert_eq!(game.game_time(), "Game Finished");
    assert_eq!(game.to_string(), "Team 1 2 - 2 (3 - 4 AET) Team 2");
}

#[test]
fn penalties_result_uses_penalty_score() {
    let game = MatchCompletion::Penalties {
        score: score(2, 2),
        aet: score(4, 4),
        penalties: score(5, 1),
    };
    assert!(matches!(game.match_result(), MatchResult::Draw));
    assert_eq!(game.to_string(), "Team 1 2 - 2 (4 - 4 AET) (5 - 1 Pen) Team 2");
}

#[test]
fn result_labels() {
    assert_eq!(MatchResult::Scheduled(String::from("19:00")).label(), "19:00");
    assert_eq!(MatchResult::HomeWin.label(), "Game Over");
    assert_eq!(MatchResult::Postponed.label(), "Game Over");
}
