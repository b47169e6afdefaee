//! The session engine: matchmaking, the move pipeline and resignation over
//! the game rows, the move records and the board cache.

use vstd::prelude::*;
use crate::cache::BoardCache;
use crate::model::{
    Color, Command, EngineError, Game, JoinOutcome, JoinStep, MovePlan, MoveRecord, PlanModel,
    ResignReport, Termination,
};
use crate::oracle::{fen_turn, oracle_turn, start_encoding, starting_fen};
use crate::pipeline::{answers_for, assess, assessed, consult, plan_view};

verus! {

/// The users seen so far, the game rows, the moves of each game in the order
/// they were played, and the board cache. A game's identifier is its index in `games`.
pub struct Engine {
    pub users: Vec<i64>,
    pub games: Vec<Game>,
    pub moves: Vec<Vec<MoveRecord>>,
    pub cache: BoardCache,
}

/// The row `game` with `user` on its free seat: white where that is free.
pub open spec fn seated(game: Game, user: i64) -> Game {
    if game.white is None {
        Game { white: Some(user), ..game }
    } else {
        Game { black: Some(user), ..game }
    }
}

/// The row `game` after a move: the new encoding and verdict.
pub open spec fn advanced(game: Game, next: Game, plan: PlanModel) -> bool {
    &&& next.id == game.id
    &&& next.white == game.white
    &&& next.black == game.black
    &&& next.fen@ == plan.fen
    &&& next.verdict() == plan.verdict
}

/// Row `g` of `games` has not ended and `user` sits in it.
pub open spec fn open_for(games: Seq<Game>, g: int, user: i64) -> bool {
    0 <= g < games.len() && !games[g].ended && games[g].has_player(user)
}

/// A row of `games` that has not ended and in which `user` sits.
pub open spec fn open_game_in(games: Seq<Game>, user: i64) -> Option<int> {
    if exists|g: int| open_for(games, g, user) {
        Some(choose|g: int| open_for(games, g, user))
    } else {
        None
    }
}

/// Row `g` of `games` is pending and no row before it is.
pub open spec fn first_pending_at(games: Seq<Game>, g: int) -> bool {
    &&& 0 <= g < games.len()
    &&& games[g].is_pending()
    &&& forall|j: int| 0 <= j < g ==> !(#[trigger] games[j]).is_pending()
}

/// The first pending row of `games`.
pub open spec fn first_pending_in(games: Seq<Game>) -> Option<int> {
    if exists|g: int| first_pending_at(games, g) {
        Some(choose|g: int| first_pending_at(games, g))
    } else {
        None
    }
}

/// Each row carries its index as identifier and is well formed.
pub open spec fn rows_valid(games: Seq<Game>) -> bool {
    forall|g: int|
        0 <= g < games.len() ==> {
            &&& (#[trigger] games[g]).id == g
            &&& games[g].well_formed()
        }
}

/// No two rows that have not ended have a player in common.
pub open spec fn bookings_disjoint(games: Seq<Game>) -> bool {
    forall|a: int, b: int|
        0 <= a < b < games.len() && !games[a].ended && !games[b].ended
            ==> !#[trigger] games[a].shares_player(games[b])
}

/// The moves of each game carry its index and the plies 0, 1, 2, ...
pub open spec fn plies_in_order(moves: Seq<Vec<MoveRecord>>) -> bool {
    forall|g: int, i: int|
        0 <= g < moves.len() && 0 <= i < moves[g]@.len() ==> {
            &&& (#[trigger] moves[g]@[i]).ply == i
            &&& moves[g]@[i].game_id == g
        }
}

/// The records can be an engine's: one list of moves for each row, no user
/// twice, the rows valid, nobody booked twice, the plies in order.
pub open spec fn records_sound(users: Seq<i64>, games: Seq<Game>, moves: Seq<Vec<MoveRecord>>) -> bool {
    &&& moves.len() == games.len()
    &&& users.no_duplicates()
    &&& rows_valid(games)
    &&& bookings_disjoint(games)
    &&& plies_in_order(moves)
}

impl Engine {
    /// Game `g` has not ended and `user` sits in it.
    #[verifier::inline]
    pub open spec fn is_open_for(self, g: int, user: i64) -> bool {
        open_for(self.games@, g, user)
    }

    /// The game that `user` is playing or waiting in.
    pub open spec fn open_game(self, user: i64) -> Option<int> {
        open_game_in(self.games@, user)
    }

    /// Game `g` is the pending game with the lowest identifier.
    #[verifier::inline]
    pub open spec fn is_first_pending(self, g: int) -> bool {
        first_pending_at(self.games@, g)
    }

    /// The pending game that the next joiner is paired into.
    pub open spec fn first_pending(self) -> Option<int> {
        first_pending_in(self.games@)
    }

    /// No two games that have not ended have a player in common.
    pub open spec fn no_double_booking(self) -> bool {
        bookings_disjoint(self.games@)
    }

    /// Each game's moves carry its identifier and the plies 0, 1, 2, ...
    pub open spec fn plies_consecutive(self) -> bool {
        plies_in_order(self.moves@)
    }

    /// Each row carries its index as identifier and is well formed.
    pub open spec fn rows_well_formed(self) -> bool {
        rows_valid(self.games@)
    }

    /// Every cached board belongs to a game that has not ended and equals
    /// that game's stored encoding.
    pub open spec fn cache_coherent(self) -> bool {
        forall|k: usize| #[trigger]
            self.cache.contains(k) ==> {
                &&& k < self.games@.len()
                &&& !self.games@[k as int].ended
                &&& self.cache.encoding(k) == self.games@[k as int].fen@
            }
    }

    /// No user is recorded twice.
    pub open spec fn users_distinct(self) -> bool {
        self.users@.no_duplicates()
    }

    /// The records are sound, whatever the cache holds.
    pub open spec fn sound(self) -> bool {
        records_sound(self.users@, self.games@, self.moves@)
    }

    /// The engine's invariant: sound records and a coherent cache.
    pub open spec fn wf(self) -> bool {
        &&& self.moves@.len() == self.games@.len()
        &&& self.users_distinct()
        &&& self.rows_well_formed()
        &&& self.no_double_booking()
        &&& self.plies_consecutive()
        &&& self.cache_coherent()
    }

    /// In every game white is to move after an even number of moves and
    /// black after an odd number.
    pub open spec fn turns_alternate(self) -> bool {
        forall|g: int|
            0 <= g < self.games@.len() && g < self.moves@.len() ==> fen_turn(
                (#[trigger] self.games@[g]).fen@,
            ) == Some(self.moves@[g]@.len() % 2 == 0)
    }

    /// The rows and the moves are those of `other`.
    pub open spec fn same_records(self, other: Engine) -> bool {
        self.games@ == other.games@ && self.moves@ == other.moves@
    }

    /// Under the invariant a user has at most one open game.
    pub proof fn lemma_open_game_unique(self, g: int, user: i64)
        requires
            self.no_double_booking(),
            self.is_open_for(g, user),
        ensures
            self.open_game(user) == Some(g),
    {
        let h = choose|h: int| open_for(self.games@, h, user);
        if h < g {
            assert(self.games@[h].shares_player(self.games@[g]));
        } else if g < h {
            assert(self.games@[g].shares_player(self.games@[h]));
        }
    }

    /// The first pending game is the only one that is first.
    pub proof fn lemma_first_pending_unique(self, g: int)
        requires
            self.is_first_pending(g),
        ensures
            self.first_pending() == Some(g),
    {
        let h = choose|h: int| first_pending_at(self.games@, h);
        if h < g {
            assert(!self.games@[h].is_pending());
        } else if g < h {
            assert(!self.games@[g].is_pending());
        }
    }

    /// An engine without games.
    pub fn new() -> (r: Engine)
        ensures
            r.wf(),
            r.turns_alternate(),
            r.users@.len() == 0,
            r.games@.len() == 0,
            r.moves@.len() == 0,
            forall|k: usize| !r.cache.contains(k),
    {
        Engine { users: Vec::new(), games: Vec::new(), moves: Vec::new(), cache: BoardCache::new() }
    }

    /// The game that `user` is playing or waiting in.
    pub fn find_open_game(&self, user: i64) -> (r: Option<usize>)
        requires
            self.no_double_booking(),
        ensures
            match r {
                Some(g) => self.open_game(user) == Some(g as int) && self.is_open_for(
                    g as int,
                    user,
                ),
                None => self.open_game(user) is None && forall|g: int| !self.is_open_for(g, user),
            },
    {
        let mut i: usize = 0;
        while i < self.games.len()
            invariant
                i <= self.games@.len(),
                self.no_double_booking(),
                forall|g: int| 0 <= g < i ==> !self.is_open_for(g, user),
            decreases self.games@.len() - i,
        {
            if !self.games[i].ended && self.games[i].plays(user) {
                proof {
                    self.lemma_open_game_unique(i as int, user);
                }
                return Some(i);
            }
            i += 1;
        }
        None
    }

    /// The pending game with the lowest identifier.
    pub fn find_pending(&self) -> (r: Option<usize>)
        ensures
            match r {
                Some(g) => self.first_pending() == Some(g as int) && self.is_first_pending(
                    g as int,
                ),
                None => self.first_pending() is None && forall|g: int|
                    0 <= g < self.games@.len() ==> !(#[trigger] self.games@[g]).is_pending(),
            },
    {
        let mut i: usize = 0;
        while i < self.games.len()
            invariant
                i <= self.games@.len(),
                forall|g: int| 0 <= g < i ==> !(#[trigger] self.games@[g]).is_pending(),
            decreases self.games@.len() - i,
        {
            if self.games[i].pending() {
                proof {
                    self.lemma_first_pending_unique(i as int);
                }
                return Some(i);
            }
            i += 1;
        }
        None
    }

    /// The step that matchmaking takes for `user` who has lost `lost_races`
    /// races for a seat so far. A user with an open game is refused. The
    /// first pending game is tried on the first attempt and once more after
    /// a lost race; after a second lost race, and where no game is pending, a
    /// new game is opened.
    pub open spec fn join_step(self, user: i64, lost_races: int) -> Result<JoinStep, EngineError> {
        if self.open_game(user) is Some {
            Err(EngineError::AlreadyPlaying)
        } else if lost_races < 2 && self.first_pending() is Some {
            let g = self.first_pending()->0;
            let row = self.games@[g];
            Ok(
                JoinStep::Seat {
                    game_id: g as usize,
                    color: Color::of_white(row.white is None),
                    opponent: row.seat_holder()->0,
                },
            )
        } else {
            Ok(JoinStep::Open)
        }
    }

    /// The step `step` can be taken for `user`: they have no open game, and
    /// a seat is offered in a pending game, on its free side, opposite the
    /// player who waits there.
    pub open spec fn step_fits(self, user: i64, step: JoinStep) -> bool {
        &&& self.open_game(user) is None
        &&& match step {
            JoinStep::Seat { game_id, color, opponent } => {
                &&& game_id < self.games@.len()
                &&& self.games@[game_id as int].is_pending()
                &&& color == Color::of_white(self.games@[game_id as int].white is None)
                &&& self.games@[game_id as int].seat_holder() == Some(opponent)
            },
            JoinStep::Open => true,
        }
    }

    /// What taking `step` for `user` does, from the state `self` to the state
    /// `next`: the user sits down on the free seat, or a new pending game is
    /// opened with the user as white, on the starting position. The cache is
    /// not touched.
    pub open spec fn applies(
        self,
        next: Engine,
        user: i64,
        step: JoinStep,
        r: Result<JoinOutcome, EngineError>,
    ) -> bool {
        &&& next.cache == self.cache
        &&& match step {
            JoinStep::Seat { game_id, color, opponent } => {
                &&& next.moves@ == self.moves@
                &&& next.games@ == self.games@.update(
                    game_id as int,
                    seated(self.games@[game_id as int], user),
                )
                &&& r == Ok::<JoinOutcome, EngineError>(
                    JoinOutcome::Paired { game_id, color, opponent },
                )
            },
            JoinStep::Open => if fen_turn(start_encoding()) != Some(true) {
                r == Err::<JoinOutcome, EngineError>(EngineError::InvariantViolation)
                    && next.same_records(self)
            } else {
                let id = self.games@.len();
                &&& r == Ok::<JoinOutcome, EngineError>(
                    JoinOutcome::WaitingForOpponent { game_id: id as usize },
                )
                &&& next.games@.len() == id + 1
                &&& next.games@.take(id as int) == self.games@
                &&& next.games@[id as int].id == id
                &&& next.games@[id as int].white == Some(user)
                &&& next.games@[id as int].black is None
                &&& !next.games@[id as int].ended
                &&& next.games@[id as int].winner is None
                &&& next.games@[id as int].termination is None
                &&& next.games@[id as int].fen@ == start_encoding()
                &&& next.moves@.len() == id + 1
                &&& next.moves@.take(id as int) == self.moves@
                &&& next.moves@[id as int]@.len() == 0
            },
        }
    }

    /// What `join` does for `user`, from the state `self` to the state
    /// `next`: the step of a first attempt, taken.
    pub open spec fn joins(self, next: Engine, user: i64, r: Result<JoinOutcome, EngineError>) -> bool {
        match self.join_step(user, 0) {
            Err(e) => {
                &&& r == Err::<JoinOutcome, EngineError>(e)
                &&& next.same_records(self)
                &&& next.cache == self.cache
            },
            Ok(step) => self.applies(next, user, step, r),
        }
    }

    /// Decides the matchmaking step for `user` after `lost_races` lost races.
    pub fn plan_join(&self, user: i64, lost_races: u8) -> (r: Result<JoinStep, EngineError>)
        requires
            self.wf(),
        ensures
            r == self.join_step(user, lost_races as int),
            r matches Ok(step) ==> self.step_fits(user, step),
    {
        if self.find_open_game(user).is_some() {
            return Err(EngineError::AlreadyPlaying);
        }
        if lost_races < 2 {
            match self.find_pending() {
                Some(g) => {
                    let white_free: bool = self.games[g].white.is_none();
                    let holder: Option<i64> = if white_free {
                        self.games[g].black
                    } else {
                        self.games[g].white
                    };
                    match holder {
                        Some(opponent) => {
                            return Ok(
                                JoinStep::Seat {
                                    game_id: g,
                                    color: Color::from_white(white_free),
                                    opponent,
                                },
                            );
                        },
                        None => {
                            return Err(EngineError::InvariantViolation);
                        },
                    }
                },
                None => {},
            }
        }
        Ok(JoinStep::Open)
    }

    /// Whether `step` can be taken for `user`.
    pub fn step_is_fit(&self, user: i64, step: JoinStep) -> (r: bool)
        requires
            self.wf(),
        ensures
            r == self.step_fits(user, step),
    {
        if self.find_open_game(user).is_some() {
            return false;
        }
        match step {
            JoinStep::Seat { game_id, color, opponent } => {
                if game_id >= self.games.len() {
                    return false;
                }
                let row = &self.games[game_id];
                let white_free: bool = row.white.is_none();
                let holder: Option<i64> = if white_free {
                    row.black
                } else {
                    row.white
                };
                let opposite: bool = match holder {
                    Some(h) => h == opponent,
                    None => false,
                };
                row.pending() && color.is_white() == white_free && opposite
            },
            JoinStep::Open => true,
        }
    }

    /// Takes the matchmaking step `step` for `user`.
    pub fn apply_join(&mut self, user: i64, step: JoinStep) -> (r: Result<JoinOutcome, EngineError>)
        requires
            old(self).wf(),
            old(self).step_fits(user, step),
        ensures
            final(self).wf(),
            final(self).users@ == old(self).users@,
            old(self).turns_alternate() ==> final(self).turns_alternate(),
            old(self).applies(*final(self), user, step, r),
    {
        let ghost before = *self;
        assert(forall|g: int| !before.is_open_for(g, user));
        match step {
            JoinStep::Seat { game_id, color, opponent } => {
                if color.is_white() {
                    self.games[game_id].white = Some(user);
                } else {
                    self.games[game_id].black = Some(user);
                }
                proof {
                    assert(self.games@ =~= before.games@.update(
                        game_id as int,
                        seated(before.games@[game_id as int], user),
                    ));
                    assert forall|a: int, b: int|
                        0 <= a < b < self.games@.len() && !self.games@[a].ended
                            && !self.games@[b].ended implies !#[trigger] self.games@[a].shares_player(
                        self.games@[b],
                    ) by {
                        assert(!before.is_open_for(a, user));
                        assert(!before.is_open_for(b, user));
                        assert(!before.games@[a].shares_player(before.games@[b]));
                    }
                    assert(!before.is_open_for(game_id as int, user));
                }
                Ok(JoinOutcome::Paired { game_id, color, opponent })
            },
            JoinStep::Open => {
                let fen = starting_fen();
                match oracle_turn(fen.as_str()) {
                    Some(true) => {},
                    _ => {
                        return Err(EngineError::InvariantViolation);
                    },
                }
                let id: usize = self.games.len();
                self.games.push(
                    Game {
                        id,
                        white: Some(user),
                        black: None,
                        ended: false,
                        winner: None,
                        termination: None,
                        fen,
                    },
                );
                self.moves.push(Vec::new());
                proof {
                    assert(self.games@.take(id as int) =~= before.games@);
                    assert(self.moves@.take(id as int) =~= before.moves@);
                    assert forall|a: int, b: int|
                        0 <= a < b < self.games@.len() && !self.games@[a].ended
                            && !self.games@[b].ended implies !#[trigger] self.games@[a].shares_player(
                        self.games@[b],
                    ) by {
                        assert(!before.is_open_for(a, user));
                        if b < id {
                            assert(!before.games@[a].shares_player(before.games@[b]));
                        }
                    }
                }
                Ok(JoinOutcome::WaitingForOpponent { game_id: id })
            },
        }
    }

    /// Matchmaking: pairs `user` into the first pending game, or opens a new
    /// pending game for them.
    pub fn join(&mut self, user: i64) -> (r: Result<JoinOutcome, EngineError>)
        requires
            old(self).wf(),
        ensures
            final(self).wf(),
            final(self).users@ == old(self).users@,
            old(self).turns_alternate() ==> final(self).turns_alternate(),
            old(self).joins(*final(self), user, r),
    {
        match self.plan_join(user, 0) {
            Ok(step) => self.apply_join(user, step),
            Err(e) => Err(e),
        }
    }

    /// What the move pipeline decides on `text` from `user` in game `g`: the
    /// rules engine's answers on the stored encoding, assessed for the side
    /// that the user holds and the number of moves persisted so far.
    pub open spec fn plan_for(self, g: int, user: i64, text: Seq<char>) -> Result<
        PlanModel,
        EngineError,
    > {
        assessed(
            g,
            self.moves@[g]@.len() as int,
            self.games@[g].white == Some(user),
            answers_for(self.games@[g].fen@, text),
        )
    }

    /// What the move pipeline decides on `text` from `user`. It reads the
    /// rows and the moves, never the cache.
    pub open spec fn planned(self, user: i64, text: Seq<char>) -> Result<PlanModel, EngineError> {
        match self.open_game(user) {
            None => Err(EngineError::NotPlaying),
            Some(g) => self.plan_for(g, user, text),
        }
    }

    /// The cache of `next` is that of `self` with the board of the open game
    /// of `user`, where they have one, as its row encodes it.
    pub open spec fn warms(self, next: Engine, user: i64) -> bool {
        match self.open_game(user) {
            None => next.cache == self.cache,
            Some(g) => {
                &&& next.cache.lookup(g as usize) == Some(self.games@[g].fen@)
                &&& forall|k: usize| k != g ==> next.cache.lookup(k) == self.cache.lookup(k)
            },
        }
    }

    /// The plan `p` is for a game that has not ended, at its next ply.
    pub open spec fn accepts(self, p: PlanModel) -> bool {
        &&& 0 <= p.game_id < self.games@.len()
        &&& !self.games@[p.game_id].ended
        &&& p.ply == self.moves@[p.game_id]@.len()
        &&& p.verdict.consistent()
    }

    /// The state `next` is `self` with the plan `p` persisted: the move
    /// appended at its ply, the row advanced, the cache entry replaced by the
    /// new board or dropped where the game has ended, all else untouched.
    pub open spec fn commits(self, next: Engine, p: PlanModel) -> bool {
        let g = p.game_id;
        &&& next.games@.len() == self.games@.len()
        &&& next.moves@.len() == self.moves@.len()
        &&& forall|i: int|
            0 <= i < self.games@.len() && i != g ==> #[trigger] next.games@[i] == self.games@[i]
        &&& forall|i: int|
            0 <= i < self.moves@.len() && i != g ==> #[trigger] next.moves@[i] == self.moves@[i]
        &&& advanced(self.games@[g], next.games@[g], p)
        &&& next.moves@[g]@.len() == p.ply + 1
        &&& next.moves@[g]@.take(p.ply) == self.moves@[g]@
        &&& next.moves@[g]@[p.ply].game_id == g
        &&& next.moves@[g]@[p.ply].ply == p.ply
        &&& next.moves@[g]@[p.ply].notation@ == p.notation
        &&& next.cache.lookup(g as usize) == if p.verdict.ended {
            None
        } else {
            Some(p.fen)
        }
        &&& forall|k: usize| k != g ==> next.cache.lookup(k) == self.cache.lookup(k)
    }

    /// The live board of game `g`: from the cache, or rebuilt from the row
    /// and cached where the cache has none.
    pub fn board_for(&mut self, g: usize) -> (fen: String)
        requires
            old(self).wf(),
            g < old(self).games@.len(),
            !old(self).games@[g as int].ended,
        ensures
            final(self).wf(),
            final(self).users@ == old(self).users@,
            final(self).same_records(*old(self)),
            fen@ == old(self).games@[g as int].fen@,
            final(self).cache.lookup(g) == Some(fen@),
            forall|k: usize| k != g ==> final(self).cache.lookup(k) == old(self).cache.lookup(k),
    {
        let ghost before = *self;
        match self.cache.get(g) {
            Some(f) => f,
            None => {
                let f = self.games[g].fen.clone();
                self.cache.put(g, f.clone());
                proof {
                    assert forall|k: usize| #[trigger] self.cache.contains(k) implies k
                        < self.games@.len() && !self.games@[k as int].ended
                        && self.cache.encoding(k) == self.games@[k as int].fen@ by {
                        if k != g {
                            assert(before.cache.contains(k));
                        }
                    }
                }
                f
            },
        }
    }

    /// Steps one to six of the move pipeline: decides whether `text` from
    /// `user` is a move to persist. The rows and moves stay as they are; the
    /// board of the user's game enters the cache where it was missing.
    pub fn plan_move(&mut self, user: i64, text: &str) -> (r: Result<MovePlan, EngineError>)
        requires
            old(self).wf(),
        ensures
            final(self).wf(),
            final(self).users@ == old(self).users@,
            final(self).same_records(*old(self)),
            plan_view(r) == old(self).planned(user, text@),
            r matches Ok(p) ==> old(self).accepts(p@),
            old(self).warms(*final(self), user),
    {
        let g: usize = match self.find_open_game(user) {
            Some(g) => g,
            None => {
                return Err(EngineError::NotPlaying);
            },
        };
        let fen = self.board_for(g);
        let answers = consult(fen.as_str(), text);
        let ply: usize = self.moves[g].len();
        let plays_white: bool = self.games[g].plays_white(user);
        assess(g, ply, plays_white, answers)
    }

    /// Steps seven and eight of the move pipeline: persists `plan`.
    pub fn commit_move(&mut self, plan: &MovePlan)
        requires
            old(self).wf(),
            old(self).accepts(plan@),
        ensures
            final(self).wf(),
            final(self).users@ == old(self).users@,
            old(self).commits(*final(self), plan@),
            old(self).turns_alternate() && fen_turn(plan@.fen) == Some((plan@.ply + 1) % 2 == 0)
                ==> final(self).turns_alternate(),
    {
        let ghost before = *self;
        let g: usize = plan.game_id;
        self.moves[g].push(MoveRecord { game_id: g, ply: plan.ply, notation: plan.notation.clone() });
        self.games[g].fen = plan.fen.clone();
        self.games[g].ended = plan.verdict.ended;
        self.games[g].winner = plan.verdict.winner;
        self.games[g].termination = plan.verdict.termination;
        if plan.verdict.ended {
            self.cache.evict(g);
        } else {
            self.cache.put(g, plan.fen.clone());
        }
        proof {
            assert(self.moves@[g as int]@.take(plan@.ply) =~= before.moves@[g as int]@);
            assert forall|a: int, b: int|
                0 <= a < b < self.games@.len() && !self.games@[a].ended
                    && !self.games@[b].ended implies !#[trigger] self.games@[a].shares_player(
                self.games@[b],
            ) by {
                assert(!before.games@[a].shares_player(before.games@[b]));
            }
            assert forall|k: usize| #[trigger] self.cache.contains(k) implies k
                < self.games@.len() && !self.games@[k as int].ended && self.cache.encoding(k)
                == self.games@[k as int].fen@ by {
                if k != g {
                    assert(before.cache.contains(k));
                }
            }
        }
    }

    /// Step nine of the move pipeline, for a plan that could not be
    /// persisted: drops the board of `game_id` from the cache, so that it is
    /// rebuilt from the row, and names the failure.
    pub fn abort_move(&mut self, game_id: usize) -> (r: EngineError)
        requires
            old(self).wf(),
        ensures
            final(self).wf(),
            final(self).users@ == old(self).users@,
            final(self).same_records(*old(self)),
            r == EngineError::StoreUnavailable,
            final(self).cache.lookup(game_id) is None,
            forall|k: usize|
                k != game_id ==> final(self).cache.lookup(k) == old(self).cache.lookup(k),
    {
        let ghost before = *self;
        self.cache.evict(game_id);
        proof {
            assert forall|k: usize| #[trigger] self.cache.contains(k) implies k
                < self.games@.len() && !self.games@[k as int].ended && self.cache.encoding(k)
                == self.games@[k as int].fen@ by {
                assert(before.cache.contains(k));
            }
        }
        EngineError::StoreUnavailable
    }

    /// The move pipeline: decides on `text` from `user` and, where it is a
    /// legal move in turn, persists it. A refusal changes no row and no move.
    pub fn attempt_move(&mut self, user: i64, text: &str) -> (r: Result<MovePlan, EngineError>)
        requires
            old(self).wf(),
        ensures
            final(self).wf(),
            final(self).users@ == old(self).users@,
            old(self).turns_alternate() ==> final(self).turns_alternate(),
            plan_view(r) == old(self).planned(user, text@),
            match r {
                Ok(p) => old(self).commits(*final(self), p@),
                Err(_) => final(self).same_records(*old(self)) && old(self).warms(
                    *final(self),
                    user,
                ),
            },
    {
        let ghost before = *self;
        match self.plan_move(user, text) {
            Ok(plan) => {
                let ghost mid = *self;
                self.commit_move(&plan);
                proof {
                    let g = plan@.game_id;
                    assert(before.open_game(user) == Some(g));
                    assert(mid.games@[g] == before.games@[g]);
                    assert(mid.moves@[g] == before.moves@[g]);
                    assert forall|i: int| 0 <= i < before.games@.len() && i != g implies (
                    #[trigger] self.games@[i]) == before.games@[i] by {
                        assert(self.games@[i] == mid.games@[i]);
                    }
                    assert forall|i: int| 0 <= i < before.moves@.len() && i != g implies (
                    #[trigger] self.moves@[i]) == before.moves@[i] by {
                        assert(self.moves@[i] == mid.moves@[i]);
                    }
                    if before.turns_alternate() {
                        assert(mid.turns_alternate());
                        assert(fen_turn(before.games@[g].fen@) == Some(
                            before.moves@[g]@.len() % 2 == 0,
                        ));
                    }
                }
                Ok(plan)
            },
            Err(e) => Err(e),
        }
    }

    /// What `resign` does for `user`, from the state `self` to the state
    /// `next`: the user's open game ends by resignation, won by the opponent
    /// where there is one, and its board leaves the cache.
    pub open spec fn resigns(self, next: Engine, user: i64, r: Result<ResignReport, EngineError>) -> bool {
        match self.open_game(user) {
            None => {
                &&& r == Err::<ResignReport, EngineError>(EngineError::NotPlaying)
                &&& next.same_records(self)
                &&& next.cache == self.cache
            },
            Some(g) => {
                let row = self.games@[g];
                let winner = if row.opponent_of(user) is Some {
                    Some(row.side_of(user).opposite())
                } else {
                    None
                };
                &&& r == Ok::<ResignReport, EngineError>(
                    ResignReport { game_id: g as usize, winner, opponent: row.opponent_of(user) },
                )
                &&& next.moves@ == self.moves@
                &&& next.games@ == self.games@.update(
                    g,
                    (Game {
                        ended: true,
                        winner,
                        termination: Some(Termination::Resign),
                        ..row
                    }),
                )
                &&& next.cache.lookup(g as usize) is None
                &&& forall|k: usize| k != g ==> next.cache.lookup(k) == self.cache.lookup(k)
            },
        }
    }

    /// Resignation: ends the open game of `user` in the opponent's favour.
    pub fn resign(&mut self, user: i64) -> (r: Result<ResignReport, EngineError>)
        requires
            old(self).wf(),
        ensures
            final(self).wf(),
            final(self).users@ == old(self).users@,
            old(self).turns_alternate() ==> final(self).turns_alternate(),
            old(self).resigns(*final(self), user, r),
    {
        let ghost before = *self;
        let g: usize = match self.find_open_game(user) {
            Some(g) => g,
            None => {
                return Err(EngineError::NotPlaying);
            },
        };
        let opponent: Option<i64> = self.games[g].opponent(user);
        let side: Color = Color::from_white(self.games[g].plays_white(user));
        let winner: Option<Color> = if opponent.is_some() {
            Some(side.other())
        } else {
            None
        };
        self.games[g].ended = true;
        self.games[g].winner = winner;
        self.games[g].termination = Some(Termination::Resign);
        self.cache.evict(g);
        proof {
            assert(self.games@ =~= before.games@.update(
                g as int,
                (Game {
                    ended: true,
                    winner,
                    termination: Some(Termination::Resign),
                    ..before.games@[g as int]
                }),
            ));
            assert forall|a: int, b: int|
                0 <= a < b < self.games@.len() && !self.games@[a].ended
                    && !self.games@[b].ended implies !#[trigger] self.games@[a].shares_player(
                self.games@[b],
            ) by {
                assert(!before.games@[a].shares_player(before.games@[b]));
            }
            assert forall|k: usize| #[trigger] self.cache.contains(k) implies k
                < self.games@.len() && !self.games@[k as int].ended && self.cache.encoding(k)
                == self.games@[k as int].fen@ by {
                assert(before.cache.contains(k));
            }
        }
        Ok(ResignReport { game_id: g, winner, opponent })
    }

    /// Whether each row carries its index and is well formed.
    pub fn rows_sound(&self) -> (r: bool)
        ensures
            r == self.rows_well_formed(),
    {
        let mut i: usize = 0;
        while i < self.games.len()
            invariant
                i <= self.games@.len(),
                forall|g: int|
                    0 <= g < i ==> (#[trigger] self.games@[g]).id == g
                        && self.games@[g].well_formed(),
            decreases self.games@.len() - i,
        {
            if self.games[i].id != i || !self.games[i].sound() {
                assert(!((#[trigger] self.games@[i as int]).id == i
                    && self.games@[i as int].well_formed()));
                return false;
            }
            i += 1;
        }
        true
    }

    /// Whether no two games that have not ended have a player in common.
    pub fn booking_sound(&self) -> (r: bool)
        ensures
            r == self.no_double_booking(),
    {
        let n: usize = self.games.len();
        let mut b: usize = 0;
        while b < n
            invariant
                n == self.games@.len(),
                b <= n,
                forall|x: int, y: int|
                    0 <= x < y < b && !self.games@[x].ended && !self.games@[y].ended
                        ==> !#[trigger] self.games@[x].shares_player(self.games@[y]),
            decreases n - b,
        {
            let mut a: usize = 0;
            while a < b
                invariant
                    n == self.games@.len(),
                    a <= b < n,
                    forall|x: int|
                        0 <= x < a && !self.games@[x].ended && !self.games@[b as int].ended
                            ==> !#[trigger] self.games@[x].shares_player(self.games@[b as int]),
                decreases b - a,
            {
                if !self.games[a].ended && !self.games[b].ended && self.games[a].shares(
                    &self.games[b],
                ) {
                    assert(self.games@[a as int].shares_player(self.games@[b as int]));
                    return false;
                }
                a += 1;
            }
            b += 1;
        }
        true
    }

    /// Whether each game's moves carry its identifier and the plies 0, 1, 2, ...
    pub fn plies_sound(&self) -> (r: bool)
        ensures
            r == self.plies_consecutive(),
    {
        let n: usize = self.moves.len();
        let mut g: usize = 0;
        while g < n
            invariant
                n == self.moves@.len(),
                g <= n,
                forall|h: int, i: int|
                    0 <= h < g && 0 <= i < self.moves@[h]@.len() ==> (
                    #[trigger] self.moves@[h]@[i]).ply == i && self.moves@[h]@[i].game_id == h,
            decreases n - g,
        {
            let m: usize = self.moves[g].len();
            let mut i: usize = 0;
            while i < m
                invariant
                    n == self.moves@.len(),
                    g < n,
                    m == self.moves@[g as int]@.len(),
                    i <= m,
                    forall|j: int|
                        0 <= j < i ==> (#[trigger] self.moves@[g as int]@[j]).ply == j
                            && self.moves@[g as int]@[j].game_id == g,
                decreases m - i,
            {
                if self.moves[g][i].ply != i || self.moves[g][i].game_id != g {
                    assert(!((#[trigger] self.moves@[g as int]@[i as int]).ply == i
                        && self.moves@[g as int]@[i as int].game_id == g));
                    return false;
                }
                i += 1;
            }
            g += 1;
        }
        true
    }

    /// Whether no user is recorded twice.
    pub fn users_sound(&self) -> (r: bool)
        ensures
            r == self.users_distinct(),
    {
        let n: usize = self.users.len();
        let mut j: usize = 0;
        while j < n
            invariant
                n == self.users@.len(),
                j <= n,
                forall|x: int, y: int| 0 <= x < y < j ==> self.users@[x] != self.users@[y],
            decreases n - j,
        {
            let mut i: usize = 0;
            while i < j
                invariant
                    n == self.users@.len(),
                    i <= j < n,
                    forall|x: int| 0 <= x < i ==> self.users@[x] != self.users@[j as int],
                decreases j - i,
            {
                if self.users[i] == self.users[j] {
                    return false;
                }
                i += 1;
            }
            j += 1;
        }
        true
    }

    /// Whether in every game white is to move after an even number of moves
    /// and black after an odd number, as the rules engine reads the rows.
    pub fn turns_sound(&self) -> (r: bool)
        requires
            self.moves@.len() == self.games@.len(),
        ensures
            r == self.turns_alternate(),
    {
        let mut g: usize = 0;
        while g < self.games.len()
            invariant
                g <= self.games@.len(),
                self.moves@.len() == self.games@.len(),
                forall|h: int|
                    0 <= h < g ==> fen_turn((#[trigger] self.games@[h]).fen@) == Some(
                        self.moves@[h]@.len() % 2 == 0,
                    ),
            decreases self.games@.len() - g,
        {
            let expected: bool = self.moves[g].len() % 2 == 0;
            let same: bool = match oracle_turn(self.games[g].fen.as_str()) {
                Some(w) => w == expected,
                None => false,
            };
            if !same {
                assert(fen_turn((#[trigger] self.games@[g as int]).fen@) != Some(
                    self.moves@[g as int]@.len() % 2 == 0,
                ));
                return false;
            }
            g += 1;
        }
        true
    }

    /// An engine over records read back from durable storage, with an empty
    /// cache. Records that break the invariant are refused.
    pub fn restore(users: Vec<i64>, games: Vec<Game>, moves: Vec<Vec<MoveRecord>>) -> (r: Result<
        Engine,
        EngineError,
    >)
        ensures
            match r {
                Ok(e) => {
                    &&& e.wf()
                    &&& e.users@ == users@
                    &&& e.games@ == games@
                    &&& e.moves@ == moves@
                    &&& forall|k: usize| !e.cache.contains(k)
                },
                Err(err) => err == EngineError::InvariantViolation,
            },
            r is Ok <==> records_sound(users@, games@, moves@),
    {
        let e = Engine { users, games, moves, cache: BoardCache::new() };
        if e.moves.len() == e.games.len() && e.users_sound() && e.rows_sound()
            && e.booking_sound() && e.plies_sound() {
            Ok(e)
        } else {
            Err(EngineError::InvariantViolation)
        }
    }

    /// Records `user` where they were not seen before, and says whether
    /// they are new.
    pub fn observe(&mut self, user: i64) -> (fresh: bool)
        requires
            old(self).wf(),
        ensures
            final(self).wf(),
            final(self).same_records(*old(self)),
            final(self).cache == old(self).cache,
            fresh == !old(self).users@.contains(user),
            final(self).users@ == old(self).observed(user),
    {
        let mut i: usize = 0;
        while i < self.users.len()
            invariant
                i <= self.users@.len(),
                *self == *old(self),
                self.wf(),
                forall|j: int| 0 <= j < i ==> self.users@[j] != user,
            decreases self.users@.len() - i,
        {
            if self.users[i] == user {
                return false;
            }
            i += 1;
        }
        self.users.push(user);
        true
    }

    /// The users on record once `user` has been seen.
    pub open spec fn observed(self, user: i64) -> Seq<i64> {
        if self.users@.contains(user) {
            self.users@
        } else {
            self.users@.push(user)
        }
    }

    /// The two seats of game `game_id`: those to notify of what happens in it.
    pub fn participants(&self, game_id: usize) -> (r: (Option<i64>, Option<i64>))
        requires
            game_id < self.games@.len(),
        ensures
            r.0 == self.games@[game_id as int].white,
            r.1 == self.games@[game_id as int].black,
    {
        (self.games[game_id].white, self.games[game_id].black)
    }

    /// What `dispatch` does with `text` from `user`, from the state `self`
    /// to the state `next`: the operation that the text asks for, and its
    /// result as the reply.
    pub open spec fn dispatches(self, next: Engine, user: i64, text: Seq<char>, reply: Reply) -> bool {
        match command_of(text) {
            Command::Join => match reply {
                Reply::Joined(o) => self.joins(next, user, Ok(o)),
                Reply::Refused(e) => self.joins(next, user, Err(e)),
                _ => false,
            },
            Command::Resign => match reply {
                Reply::Resigned(o) => self.resigns(next, user, Ok(o)),
                Reply::Refused(e) => self.resigns(next, user, Err(e)),
                _ => false,
            },
            Command::Move => match reply {
                Reply::Moved(p) => self.planned(user, text) == Ok::<PlanModel, EngineError>(p@)
                    && self.commits(next, p@),
                Reply::Refused(e) => self.planned(user, text) == Err::<PlanModel, EngineError>(e)
                    && next.same_records(self) && self.warms(next, user),
                _ => false,
            },
        }
    }

    /// Handles one inbound text from `user`: records the user, tells a join
    /// from a resignation from a move, and runs the operation.
    pub fn dispatch(&mut self, user: i64, text: &str) -> (reply: Reply)
        requires
            old(self).wf(),
        ensures
            final(self).wf(),
            final(self).users@ == old(self).observed(user),
            old(self).turns_alternate() ==> final(self).turns_alternate(),
            old(self).dispatches(*final(self), user, text@, reply),
    {
        let ghost before = *self;
        self.observe(user);
        match classify(text) {
            Command::Join => match self.join(user) {
                Ok(o) => Reply::Joined(o),
                Err(e) => Reply::Refused(e),
            },
            Command::Resign => match self.resign(user) {
                Ok(o) => Reply::Resigned(o),
                Err(e) => Reply::Refused(e),
            },
            Command::Move => match self.attempt_move(user, text) {
                Ok(p) => Reply::Moved(p),
                Err(e) => Reply::Refused(e),
            },
        }
    }
}

/// What the engine answers to one inbound text.
#[derive(Debug)]
pub enum Reply {
    Joined(JoinOutcome),
    Moved(MovePlan),
    Resigned(ResignReport),
    Refused(EngineError),
}

/// What a text asks for: `start` is a join, `resign` a resignation, and any
/// other text an attempt at a move.
pub open spec fn command_of(text: Seq<char>) -> Command {
    if text == "start"@ {
        Command::Join
    } else if text == "resign"@ {
        Command::Resign
    } else {
        Command::Move
    }
}

/// Tells a join from a resignation from a move.
pub fn classify(text: &str) -> (r: Command)
    ensures
        r == command_of(text@),
{
    let given: String = text.to_owned();
    let join: String = "start".to_owned();
    let resign: String = "resign".to_owned();
    if given == join {
        Command::Join
    } else if given == resign {
        Command::Resign
    } else {
        Command::Move
    }
}

} // verus!
