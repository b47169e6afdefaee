//! The decisions of the move pipeline, apart from the state they are made
//! in: the rules engine is consulted once, and the answers are assessed.

use vstd::prelude::*;
use crate::model::{EngineError, MovePlan, PlanModel, Verdict};
use crate::oracle::{
    fen_turn, judge, move_is_legal, oracle_is_legal, oracle_play, oracle_turn, parse_move,
    parsed_move, position_after, position_verdict, text_of,
};

verus! {

/// What the rules engine says of one request: the side to move, the move
/// that the text names, whether it is legal, the position it leads to, the
/// side to move there and the verdict on it.
#[derive(Debug)]
pub struct Answers {
    pub turn: Option<bool>,
    pub parsed: Option<String>,
    pub legal: Option<bool>,
    pub next: Option<String>,
    pub next_turn: Option<bool>,
    pub verdict: Option<Verdict>,
}

/// `Answers` with its texts as sequences.
pub ghost struct AnswersModel {
    pub turn: Option<bool>,
    pub parsed: Option<Seq<char>>,
    pub legal: Option<bool>,
    pub next: Option<Seq<char>>,
    pub next_turn: Option<bool>,
    pub verdict: Option<Verdict>,
}

impl View for Answers {
    type V = AnswersModel;

    open spec fn view(&self) -> AnswersModel {
        AnswersModel {
            turn: self.turn,
            parsed: text_of(self.parsed),
            legal: self.legal,
            next: text_of(self.next),
            next_turn: self.next_turn,
            verdict: self.verdict,
        }
    }
}

/// A plan, or the refusal, with the plan's texts as sequences.
pub open spec fn plan_view(r: Result<MovePlan, EngineError>) -> Result<PlanModel, EngineError> {
    match r {
        Ok(p) => Ok(p@),
        Err(e) => Err(e),
    }
}

/// The rules engine's answers on `text` in the position `fen`. Legality is
/// asked of the move that the text names; the move is played only where it
/// is legal; turn and verdict are read from the position it leads to.
pub open spec fn answers_for(fen: Seq<char>, text: Seq<char>) -> AnswersModel {
    let parsed = parsed_move(text, fen);
    let legal = match parsed {
        Some(m) => move_is_legal(fen, m),
        None => None,
    };
    let next = if legal == Some(true) {
        position_after(fen, parsed->0)
    } else {
        None
    };
    AnswersModel {
        turn: fen_turn(fen),
        parsed,
        legal,
        next,
        next_turn: match next {
            Some(n) => fen_turn(n),
            None => None,
        },
        verdict: match next {
            Some(n) => position_verdict(n),
            None => None,
        },
    }
}

/// Puts the request to the rules engine.
pub fn consult(fen: &str, text: &str) -> (a: Answers)
    ensures
        a@ == answers_for(fen@, text@),
{
    let turn = oracle_turn(fen);
    let parsed = parse_move(text, fen);
    let legal: Option<bool> = match &parsed {
        Some(m) => oracle_is_legal(fen, m.as_str()),
        None => None,
    };
    let next: Option<String> = match (&parsed, legal) {
        (Some(m), Some(true)) => oracle_play(fen, m.as_str()),
        _ => None,
    };
    let next_turn: Option<bool> = match &next {
        Some(n) => oracle_turn(n.as_str()),
        None => None,
    };
    let verdict: Option<Verdict> = match &next {
        Some(n) => judge(n.as_str()),
        None => None,
    };
    Answers { turn, parsed, legal, next, next_turn, verdict }
}

/// What the answers `a` mean for a request by the player of white
/// (`plays_white`) or of black, in game `game_id` with `ply` moves played:
///
/// - a position that does not decode is an invariant violation;
/// - the side to move must be the player's, else it is not their turn;
/// - a text that names no move is invalid notation;
/// - a move that is not legal is an illegal move;
/// - the position reached must decode, hand the turn to the other side and
///   have a consistent verdict, else it is an invariant violation;
/// - otherwise the move is planned at `ply`.
pub open spec fn assessed(game_id: int, ply: int, plays_white: bool, a: AnswersModel) -> Result<
    PlanModel,
    EngineError,
> {
    if a.turn is None {
        Err(EngineError::InvariantViolation)
    } else if a.turn != Some(plays_white) {
        Err(EngineError::NotYourTurn)
    } else if a.parsed is None {
        Err(EngineError::InvalidNotation)
    } else if a.legal != Some(true) {
        Err(EngineError::IllegalMove)
    } else if a.next is None || a.next_turn != Some(!plays_white) || a.verdict is None
        || !a.verdict->0.consistent() {
        Err(EngineError::InvariantViolation)
    } else {
        Ok(
            PlanModel {
                game_id,
                ply,
                notation: a.parsed->0,
                fen: a.next->0,
                verdict: a.verdict->0,
            },
        )
    }
}

/// Assesses the rules engine's answers on one request.
pub fn assess(game_id: usize, ply: usize, plays_white: bool, a: Answers) -> (r: Result<
    MovePlan,
    EngineError,
>)
    ensures
        plan_view(r) == assessed(game_id as int, ply as int, plays_white, a@),
{
    let white: bool = match a.turn {
        Some(w) => w,
        None => {
            return Err(EngineError::InvariantViolation);
        },
    };
    if white != plays_white {
        return Err(EngineError::NotYourTurn);
    }
    let notation: String = match a.parsed {
        Some(m) => m,
        None => {
            return Err(EngineError::InvalidNotation);
        },
    };
    match a.legal {
        Some(true) => {},
        _ => {
            return Err(EngineError::IllegalMove);
        },
    }
    let fen: String = match a.next {
        Some(n) => n,
        None => {
            return Err(EngineError::InvariantViolation);
        },
    };
    match a.next_turn {
        Some(w) => {
            if w == white {
                return Err(EngineError::InvariantViolation);
            }
        },
        None => {
            return Err(EngineError::InvariantViolation);
        },
    }
    let verdict: Verdict = match a.verdict {
        Some(v) => v,
        None => {
            return Err(EngineError::InvariantViolation);
        },
    };
    if !verdict.is_consistent() {
        return Err(EngineError::InvariantViolation);
    }
    Ok(MovePlan { game_id, ply, notation, fen, verdict })
}

} // verus!
