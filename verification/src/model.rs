//! The records the engine keeps and the values it hands to its callers.

use vstd::prelude::*;

verus! {

/// One of the two sides of a game.
#[derive(Clone, Copy, PartialEq, Eq, Structural, Debug)]
pub enum Color {
    White,
    Black,
}

impl Color {
    /// The other side.
    pub open spec fn opposite(self) -> Color {
        match self {
            Color::White => Color::Black,
            Color::Black => Color::White,
        }
    }

    /// The side named by "white is to move".
    pub open spec fn of_white(white: bool) -> Color {
        if white {
            Color::White
        } else {
            Color::Black
        }
    }

    /// The other side.
    pub fn other(self) -> (r: Color)
        ensures
            r == self.opposite(),
    {
        match self {
            Color::White => Color::Black,
            Color::Black => Color::White,
        }
    }

    /// White for `true`, black for `false`.
    pub fn from_white(white: bool) -> (r: Color)
        ensures
            r == Color::of_white(white),
    {
        if white {
            Color::White
        } else {
            Color::Black
        }
    }

    /// Whether this is white.
    pub fn is_white(self) -> (r: bool)
        ensures
            r == (self == Color::White),
    {
        match self {
            Color::White => true,
            Color::Black => false,
        }
    }
}

/// Why a game ended. `Timeout` is reserved: nothing produces it.
#[derive(Clone, Copy, PartialEq, Eq, Structural, Debug)]
pub enum Termination {
    Timeout,
    Resign,
    Checkmate,
    Draw,
}

/// What an operation reports when it does not go through.
#[derive(Clone, Copy, PartialEq, Eq, Structural, Debug)]
pub enum EngineError {
    AlreadyPlaying,
    NotPlaying,
    NotYourTurn,
    InvalidNotation,
    IllegalMove,
    StoreUnavailable,
    InvariantViolation,
}

/// How a position stands once a move has been played.
#[derive(Clone, Copy, PartialEq, Eq, Structural, Debug)]
pub struct Verdict {
    pub ended: bool,
    pub winner: Option<Color>,
    pub termination: Option<Termination>,
}

impl Verdict {
    /// A verdict that a game row can take: an open game has neither winner
    /// nor reason, an ended one has a reason.
    pub open spec fn consistent(self) -> bool {
        &&& !self.ended ==> self.winner is None && self.termination is None
        &&& self.ended ==> self.termination is Some
    }

    /// Whether a game row can take this verdict.
    pub fn is_consistent(&self) -> (r: bool)
        ensures
            r == self.consistent(),
    {
        if self.ended {
            self.termination.is_some()
        } else {
            self.winner.is_none() && self.termination.is_none()
        }
    }
}

/// A game row.
#[derive(Debug)]
pub struct Game {
    pub id: usize,
    pub white: Option<i64>,
    pub black: Option<i64>,
    pub ended: bool,
    pub winner: Option<Color>,
    pub termination: Option<Termination>,
    pub fen: String,
}

impl Game {
    /// `user` holds one of the seats.
    pub open spec fn has_player(self, user: i64) -> bool {
        self.white == Some(user) || self.black == Some(user)
    }

    /// Exactly one seat is taken and the game has not ended.
    pub open spec fn is_pending(self) -> bool {
        !self.ended && (self.white is None) != (self.black is None)
    }

    /// Both seats are taken and the game has not ended.
    pub open spec fn is_active(self) -> bool {
        !self.ended && self.white is Some && self.black is Some
    }

    /// The game has ended.
    pub open spec fn is_terminal(self) -> bool {
        self.ended
    }

    /// The verdict that the row carries.
    pub open spec fn verdict(self) -> Verdict {
        Verdict { ended: self.ended, winner: self.winner, termination: self.termination }
    }

    /// A seat is taken, nobody sits on both, and the verdict is consistent.
    pub open spec fn well_formed(self) -> bool {
        &&& self.white is Some || self.black is Some
        &&& self.white is Some ==> self.white != self.black
        &&& self.verdict().consistent()
    }

    /// The side `user` holds: white where the white seat is theirs.
    pub open spec fn side_of(self, user: i64) -> Color {
        Color::of_white(self.white == Some(user))
    }

    /// Who holds the one seat that is taken, white's where both are.
    pub open spec fn seat_holder(self) -> Option<i64> {
        if self.white is None {
            self.black
        } else {
            self.white
        }
    }

    /// Who sits opposite `user`, if anyone.
    pub open spec fn opponent_of(self, user: i64) -> Option<i64> {
        if self.white == Some(user) {
            self.black
        } else {
            self.white
        }
    }

    /// Two rows that have a player in common.
    pub open spec fn shares_player(self, other: Game) -> bool {
        ||| self.white is Some && (self.white == other.white || self.white == other.black)
        ||| self.black is Some && (self.black == other.white || self.black == other.black)
    }

    /// Whether `user` holds one of the seats.
    pub fn plays(&self, user: i64) -> (r: bool)
        ensures
            r == self.has_player(user),
    {
        let w: bool = match self.white {
            Some(id) => id == user,
            None => false,
        };
        let b: bool = match self.black {
            Some(id) => id == user,
            None => false,
        };
        w || b
    }

    /// Whether `user` holds the white seat.
    pub fn plays_white(&self, user: i64) -> (r: bool)
        ensures
            r == (self.white == Some(user)),
    {
        match self.white {
            Some(id) => id == user,
            None => false,
        }
    }

    /// Whether the game waits for a second player.
    pub fn pending(&self) -> (r: bool)
        ensures
            r == self.is_pending(),
    {
        !self.ended && (self.white.is_none() != self.black.is_none())
    }

    /// Whether the game is being played by two.
    pub fn active(&self) -> (r: bool)
        ensures
            r == self.is_active(),
    {
        !self.ended && self.white.is_some() && self.black.is_some()
    }

    /// Whether the two rows have a player in common.
    pub fn shares(&self, other: &Game) -> (r: bool)
        ensures
            r == self.shares_player(*other),
    {
        let w: bool = match self.white {
            Some(u) => other.plays(u),
            None => false,
        };
        let b: bool = match self.black {
            Some(u) => other.plays(u),
            None => false,
        };
        w || b
    }

    /// Whether the row is well formed.
    pub fn sound(&self) -> (r: bool)
        ensures
            r == self.well_formed(),
    {
        let seated: bool = self.white.is_some() || self.black.is_some();
        let apart: bool = match self.white {
            Some(w) => match self.black {
                Some(b) => w != b,
                None => true,
            },
            None => true,
        };
        let verdict = Verdict {
            ended: self.ended,
            winner: self.winner,
            termination: self.termination,
        };
        seated && apart && verdict.is_consistent()
    }

    /// Who sits opposite `user`, if anyone.
    pub fn opponent(&self, user: i64) -> (r: Option<i64>)
        ensures
            r == self.opponent_of(user),
    {
        if self.plays_white(user) {
            self.black
        } else {
            self.white
        }
    }
}

/// A persisted move: the game, its ply and the move in coordinate notation.
#[derive(Debug)]
pub struct MoveRecord {
    pub game_id: usize,
    pub ply: usize,
    pub notation: String,
}

/// What `join` did for the user.
#[derive(Clone, Copy, PartialEq, Eq, Structural, Debug)]
pub enum JoinOutcome {
    WaitingForOpponent { game_id: usize },
    Paired { game_id: usize, color: Color, opponent: i64 },
}

/// What matchmaking is to do for a joiner: seat them in a pending game, or
/// open a new game for them.
#[derive(Clone, Copy, PartialEq, Eq, Structural, Debug)]
pub enum JoinStep {
    Seat { game_id: usize, color: Color, opponent: i64 },
    Open,
}

/// A move that passed every test and waits to be persisted.
#[derive(Debug)]
pub struct MovePlan {
    pub game_id: usize,
    pub ply: usize,
    pub notation: String,
    pub fen: String,
    pub verdict: Verdict,
}

/// `MovePlan` with its texts as sequences.
pub ghost struct PlanModel {
    pub game_id: int,
    pub ply: int,
    pub notation: Seq<char>,
    pub fen: Seq<char>,
    pub verdict: Verdict,
}

impl View for MovePlan {
    type V = PlanModel;

    open spec fn view(&self) -> PlanModel {
        PlanModel {
            game_id: self.game_id as int,
            ply: self.ply as int,
            notation: self.notation@,
            fen: self.fen@,
            verdict: self.verdict,
        }
    }
}

/// What `resign` reports: the game, who won and who is to be told.
#[derive(Clone, Copy, PartialEq, Eq, Structural, Debug)]
pub struct ResignReport {
    pub game_id: usize,
    pub winner: Option<Color>,
    pub opponent: Option<i64>,
}

/// What an inbound text asks for.
#[derive(Clone, Copy, PartialEq, Eq, Structural, Debug)]
pub enum Command {
    Join,
    Resign,
    Move,
}

} // verus!
