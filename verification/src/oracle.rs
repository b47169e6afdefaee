//! The rules of chess, as the `shakmaty` crate implements them.
//!
//! Positions cross this boundary as FEN text and moves as coordinate
//! notation. What the rules engine answers is named by the spec functions
//! below; the engine's contracts are stated over those names.

use shakmaty::fen::Fen;
use shakmaty::san::San;
use shakmaty::uci::UciMove;
use shakmaty::{CastlingMode, Chess, EnPassantMode, Outcome, Position};
use vstd::prelude::*;
use crate::model::{Color, Termination, Verdict};

verus! {

/// Whether white is to move in the position that `fen` encodes; `None`
/// where `fen` encodes no valid position.
pub uninterp spec fn fen_turn(fen: Seq<char>) -> Option<bool>;

/// The legal move that `notation`, read as short algebraic notation, names
/// in the position `fen`, in coordinate notation.
pub uninterp spec fn san_move(notation: Seq<char>, fen: Seq<char>) -> Option<Seq<char>>;

/// The legal move that `notation`, read as coordinate notation, names in
/// the position `fen`, in coordinate notation.
pub uninterp spec fn uci_move(notation: Seq<char>, fen: Seq<char>) -> Option<Seq<char>>;

/// Whether the move `mv` (coordinate notation) is legal in the position
/// `fen`; `None` where either does not decode.
pub uninterp spec fn move_is_legal(fen: Seq<char>, mv: Seq<char>) -> Option<bool>;

/// The encoding of the position reached from `fen` by the legal move `mv`.
pub uninterp spec fn position_after(fen: Seq<char>, mv: Seq<char>) -> Option<Seq<char>>;

/// Whether the game is over in the position `fen`.
pub uninterp spec fn position_is_over(fen: Seq<char>) -> Option<bool>;

/// Whether white has won in the position `fen`; `None` where nobody has.
pub uninterp spec fn decisive_winner(fen: Seq<char>) -> Option<bool>;

/// An optional text as an optional sequence of characters.
pub open spec fn text_of(o: Option<String>) -> Option<Seq<char>> {
    match o {
        Some(s) => Some(s@),
        None => None,
    }
}

/// The encoding of the position a game starts from.
pub open spec fn start_encoding() -> Seq<char> {
    "rnbqkbnr/pppppppp/8/8/8/8/PPPPPPPP/RNBQKBNR w KQkq - 0 1"@
}

/// The encoding of the position a game starts from.
pub fn starting_fen() -> (r: String)
    ensures
        r@ == start_encoding(),
{
    "rnbqkbnr/pppppppp/8/8/8/8/PPPPPPPP/RNBQKBNR w KQkq - 0 1".to_owned()
}

/// Trusted: `Fen::from_ascii`, `Fen::into_position` and `Position::turn`.
/// Decodes `fen` under standard castling rules and reads the side to move;
/// the contract only gives the answer its name.
#[verifier::external_body]
pub(crate) fn oracle_turn(fen: &str) -> (r: Option<bool>)
    ensures
        r == fen_turn(fen@),
{
    let pos: Chess = Fen::from_ascii(fen.as_bytes()).ok()?.into_position(CastlingMode::Standard).ok()?;
    Some(pos.turn().is_white())
}

/// Trusted: `San::from_ascii` and `San::to_move` on the decoded position,
/// the move written back with `Move::to_uci`. The contract only gives the
/// answer its name.
#[verifier::external_body]
pub(crate) fn oracle_san(notation: &str, fen: &str) -> (r: Option<String>)
    ensures
        text_of(r) == san_move(notation@, fen@),
{
    let pos: Chess = Fen::from_ascii(fen.as_bytes()).ok()?.into_position(CastlingMode::Standard).ok()?;
    let m = San::from_ascii(notation.as_bytes()).ok()?.to_move(&pos).ok()?;
    Some(m.to_uci(CastlingMode::Standard).to_string())
}

/// Trusted: `UciMove::from_ascii` and `UciMove::to_move` on the decoded
/// position, the move written back with `Move::to_uci`. The contract only
/// gives the answer its name.
#[verifier::external_body]
pub(crate) fn oracle_uci(notation: &str, fen: &str) -> (r: Option<String>)
    ensures
        text_of(r) == uci_move(notation@, fen@),
{
    let pos: Chess = Fen::from_ascii(fen.as_bytes()).ok()?.into_position(CastlingMode::Standard).ok()?;
    let m = UciMove::from_ascii(notation.as_bytes()).ok()?.to_move(&pos).ok()?;
    Some(m.to_uci(CastlingMode::Standard).to_string())
}

/// Trusted: `Position::is_legal` on the decoded position and move; `None`
/// where the position does not decode or the text names no move in it. The
/// contract only gives the answer its name.
#[verifier::external_body]
pub(crate) fn oracle_is_legal(fen: &str, mv: &str) -> (r: Option<bool>)
    ensures
        r == move_is_legal(fen@, mv@),
{
    let pos: Chess = Fen::from_ascii(fen.as_bytes()).ok()?.into_position(CastlingMode::Standard).ok()?;
    let m = UciMove::from_ascii(mv.as_bytes()).ok()?.to_move(&pos).ok()?;
    Some(pos.is_legal(&m))
}

/// Trusted: `Position::play` on the decoded position and move, the result
/// encoded with `Fen::from_position`, en passant square always written.
/// `None` where something does not decode or the move is refused. The
/// contract only gives the answer its name.
#[verifier::external_body]
pub(crate) fn oracle_play(fen: &str, mv: &str) -> (r: Option<String>)
    ensures
        text_of(r) == position_after(fen@, mv@),
{
    let pos: Chess = Fen::from_ascii(fen.as_bytes()).ok()?.into_position(CastlingMode::Standard).ok()?;
    let m = UciMove::from_ascii(mv.as_bytes()).ok()?.to_move(&pos).ok()?;
    let next = pos.play(&m).ok()?;
    Some(Fen::from_position(next, EnPassantMode::Always).to_string())
}

/// Trusted: `Position::is_game_over` on the decoded position. The contract
/// only gives the answer its name.
#[verifier::external_body]
pub(crate) fn oracle_is_over(fen: &str) -> (r: Option<bool>)
    ensures
        r == position_is_over(fen@),
{
    let pos: Chess = Fen::from_ascii(fen.as_bytes()).ok()?.into_position(CastlingMode::Standard).ok()?;
    Some(pos.is_game_over())
}

/// Trusted: `Position::outcome` on the decoded position: whether white is
/// the winner of a decisive outcome. The contract only gives the answer its
/// name.
#[verifier::external_body]
pub(crate) fn oracle_winner(fen: &str) -> (r: Option<bool>)
    ensures
        r == decisive_winner(fen@),
{
    let pos: Chess = Fen::from_ascii(fen.as_bytes()).ok()?.into_position(CastlingMode::Standard).ok()?;
    match pos.outcome()? {
        Outcome::Decisive { winner } => Some(winner.is_white()),
        Outcome::Draw => None,
    }
}

/// The move that `notation` names in `fen`: read as short algebraic notation
/// first, as coordinate notation where that names none.
pub open spec fn parsed_move(notation: Seq<char>, fen: Seq<char>) -> Option<Seq<char>> {
    match san_move(notation, fen) {
        Some(m) => Some(m),
        None => uci_move(notation, fen),
    }
}

/// Reads `notation` against the position `fen` in both notations.
pub fn parse_move(notation: &str, fen: &str) -> (r: Option<String>)
    ensures
        text_of(r) == parsed_move(notation@, fen@),
{
    let m = oracle_san(notation, fen);
    if m.is_some() {
        return m;
    }
    oracle_uci(notation, fen)
}

/// The verdict on a position: open where the game is not over; a mate for
/// the winner where there is one; a draw otherwise.
pub open spec fn verdict_of(over: bool, white_won: Option<bool>) -> Verdict {
    if !over {
        Verdict { ended: false, winner: None, termination: None }
    } else {
        match white_won {
            Some(w) => Verdict {
                ended: true,
                winner: Some(Color::of_white(w)),
                termination: Some(Termination::Checkmate),
            },
            None => Verdict { ended: true, winner: None, termination: Some(Termination::Draw) },
        }
    }
}

/// Turns the rules engine's two answers on a position into a verdict.
pub fn classify_end(over: bool, white_won: Option<bool>) -> (r: Verdict)
    ensures
        r == verdict_of(over, white_won),
        r.consistent(),
{
    if !over {
        Verdict { ended: false, winner: None, termination: None }
    } else {
        match white_won {
            Some(w) => Verdict {
                ended: true,
                winner: Some(Color::from_white(w)),
                termination: Some(Termination::Checkmate),
            },
            None => Verdict { ended: true, winner: None, termination: Some(Termination::Draw) },
        }
    }
}

/// The verdict on the position `fen`, as the rules engine sees it; `None`
/// where `fen` encodes no valid position.
pub open spec fn position_verdict(fen: Seq<char>) -> Option<Verdict> {
    match position_is_over(fen) {
        Some(over) => Some(verdict_of(over, decisive_winner(fen))),
        None => None,
    }
}

/// Asks the rules engine whether the game is over in `fen`, and for whom.
pub fn judge(fen: &str) -> (r: Option<Verdict>)
    ensures
        r == position_verdict(fen@),
        r matches Some(v) ==> v.consistent(),
{
    match oracle_is_over(fen) {
        Some(over) => {
            let w = oracle_winner(fen);
            Some(classify_end(over, w))
        },
        None => None,
    }
}

} // verus!
