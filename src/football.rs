//! Match scores, completion stages and their rendering.

use vstd::prelude::*;

use crate::text::{decimal, decimal_string};

verus! {

/// The outcome of a game, or the kickoff time of one not yet played.
#[derive(Debug)]
pub enum MatchResult {
    HomeWin,
    Draw,
    AwayWin,
    Abandoned,
    Postponed,
    Scheduled(String),
}

/// A mathematical picture of a `MatchResult`, with the kickoff time as characters.
pub enum Outcome {
    HomeWin,
    Draw,
    AwayWin,
    Abandoned,
    Postponed,
    Scheduled(Seq<char>),
}

impl View for MatchResult {
    type V = Outcome;

    open spec fn view(&self) -> Outcome {
        match self {
            MatchResult::HomeWin => Outcome::HomeWin,
            MatchResult::Draw => Outcome::Draw,
            MatchResult::AwayWin => Outcome::AwayWin,
            MatchResult::Abandoned => Outcome::Abandoned,
            MatchResult::Postponed => Outcome::Postponed,
            MatchResult::Scheduled(t) => Outcome::Scheduled(t@),
        }
    }
}

/// Goals scored by the home and the away side.
#[derive(Debug, Clone, Copy)]
pub struct MatchScore {
    pub home: u32,
    pub away: u32,
}

/// The outcome that a score stands for. The labels are kept as the game has
/// always reported them: more home goals reads as `Draw`, a level score as
/// `HomeWin`, more away goals as `AwayWin`.
pub open spec fn score_outcome(s: MatchScore) -> Outcome {
    if s.home < s.away {
        Outcome::AwayWin
    } else if s.home > s.away {
        Outcome::Draw
    } else {
        Outcome::HomeWin
    }
}

impl MatchScore {
    pub fn match_result(&self) -> (r: MatchResult)
        ensures
            r@ == score_outcome(*self),
    {
        if self.home < self.away {
            MatchResult::AwayWin
        } else if self.home > self.away {
            MatchResult::Draw
        } else {
            MatchResult::HomeWin
        }
    }

    /// The score as "home - away".
    pub fn to_string(&self) -> (r: String)
        ensures
            r@ == score_text(*self),
    {
        let mut s = decimal_string(self.home);
        s.append(" - ");
        s.append(decimal_string(self.away).as_str());
        s
    }
}

/// "home - away", each side in base ten.
pub open spec fn score_text(s: MatchScore) -> Seq<char> {
    decimal(s.home as nat) + " - "@ + decimal(s.away as nat)
}

impl MatchResult {
    /// The kickoff time of a scheduled game, "Game Over" for any other.
    pub fn label(&self) -> (r: String)
        ensures
            r@ == (match self@ {
                Outcome::Scheduled(t) => t,
                _ => "Game Over"@,
            }),
    {
        match self {
            MatchResult::Scheduled(time) => time.clone(),
            _ => String::from_str("Game Over"),
        }
    }
}

/// How far a game got, with the score of each stage that was played.
#[derive(Debug, Clone, Copy)]
pub enum MatchCompletion {
    Incomplete,
    NormalTime { score: MatchScore },
    ExtraTime { score: MatchScore, aet: MatchScore },
    Penalties { score: MatchScore, aet: MatchScore, penalties: MatchScore },
}

/// The kickoff time given to a game that has not been played.
pub open spec fn kickoff_time() -> Seq<char> {
    "15:00"@
}

/// The outcome of a game: decided by the score of its last stage.
pub open spec fn completion_outcome(c: MatchCompletion) -> Outcome {
    match c {
        MatchCompletion::Incomplete => Outcome::Scheduled(kickoff_time()),
        MatchCompletion::NormalTime { score } => score_outcome(score),
        MatchCompletion::ExtraTime { aet, .. } => score_outcome(aet),
        MatchCompletion::Penalties { penalties, .. } => score_outcome(penalties),
    }
}

/// The scores of a game as shown: each stage played, the later ones marked.
pub open spec fn stage_text(c: MatchCompletion) -> Seq<char> {
    match c {
        MatchCompletion::Incomplete => kickoff_time(),
        MatchCompletion::NormalTime { score } => score_text(score),
        MatchCompletion::ExtraTime { score, aet } => score_text(score) + " ("@ + score_text(aet)
            + " AET)"@,
        MatchCompletion::Penalties { score, aet, penalties } => score_text(score) + " ("@
            + score_text(aet) + " AET) ("@ + score_text(penalties) + " Pen)"@,
    }
}

/// The full line shown for a game.
pub open spec fn completion_text(c: MatchCompletion) -> Seq<char> {
    "Team 1 "@ + stage_text(c) + " Team 2"@
}

impl MatchCompletion {
    pub fn match_result(&self) -> (r: MatchResult)
        ensures
            r@ == completion_outcome(*self),
    {
        match self {
            MatchCompletion::Incomplete => MatchResult::Scheduled(String::from_str("15:00")),
            MatchCompletion::NormalTime { score } => score.match_result(),
            MatchCompletion::ExtraTime { aet, .. } => aet.match_result(),
            MatchCompletion::Penalties { penalties, .. } => penalties.match_result(),
        }
    }

    /// The kickoff time of a game not yet played, "Game Finished" otherwise.
    pub fn game_time(&self) -> (r: String)
        ensures
            r@ == (if *self is Incomplete {
                kickoff_time()
            } else {
                "Game Finished"@
            }),
    {
        if let MatchResult::Scheduled(time) = self.match_result() {
            time
        } else {
            String::from_str("Game Finished")
        }
    }

    pub fn to_string(&self) -> (r: String)
        ensures
            r@ == completion_text(*self),
    {
        let score_string = match self.match_result() {
            MatchResult::HomeWin | MatchResult::Draw | MatchResult::AwayWin => match self {
                MatchCompletion::NormalTime { score } => score.to_string(),
                MatchCompletion::ExtraTime { score, aet } => {
                    let mut s = score.to_string();
                    s.append(" (");
                    s.append(aet.to_string().as_str());
                    s.append(" AET)");
                    s
                },
                MatchCompletion::Penalties { score, aet, penalties } => {
                    let mut s = score.to_string();
                    s.append(" (");
                    s.append(aet.to_string().as_str());
                    s.append(" AET) (");
                    s.append(penalties.to_string().as_str());
                    s.append(" Pen)");
                    s
                },
                MatchCompletion::Incomplete => String::new(),
            },
            MatchResult::Abandoned => String::from_str("A - A"),
            MatchResult::Postponed => String::from_str("P - P"),
            MatchResult::Scheduled(time) => time,
        };
        let mut r = String::from_str("Team 1 ");
        r.append(score_string.as_str());
        r.append(" Team 2");
        r
    }
}

} // verus!
