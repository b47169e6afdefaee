//! What holds of the engine across its operations, stated over the
//! relations that the operations' contracts use.

use vstd::prelude::*;
use crate::engine::Engine;
use crate::model::{EngineError, JoinOutcome, JoinStep, PlanModel, ResignReport};
use crate::oracle::{fen_turn, position_after};

verus! {

/// A user sits in at most one game that has not ended.
pub proof fn law_one_open_game_per_user(e: Engine, a: int, b: int, user: i64)
    requires
        e.no_double_booking(),
        e.is_open_for(a, user),
        e.is_open_for(b, user),
    ensures
        a == b,
{
    if a < b {
        assert(e.games@[a].shares_player(e.games@[b]));
    } else if b < a {
        assert(e.games@[b].shares_player(e.games@[a]));
    }
}

/// The step that matchmaking decides on can be taken, on the first attempt
/// and after any number of lost races.
pub proof fn law_decided_step_fits(e: Engine, user: i64, lost_races: int)
    requires
        e.sound(),
    ensures
        e.join_step(user, lost_races) matches Ok(step) ==> e.step_fits(user, step),
{
    if e.open_game(user) is None && lost_races < 2 && e.first_pending() is Some {
        let g = e.first_pending()->0;
        assert(e.is_first_pending(g));
    }
}

/// Whatever matchmaking step is taken, no user comes to sit in two games
/// that have not ended.
pub proof fn law_step_never_double_books(
    before: Engine,
    after: Engine,
    user: i64,
    step: JoinStep,
    r: Result<JoinOutcome, EngineError>,
)
    requires
        before.sound(),
        before.step_fits(user, step),
        before.applies(after, user, step, r),
    ensures
        after.no_double_booking(),
{
    assert(forall|g: int| !before.is_open_for(g, user));
    match step {
        JoinStep::Seat { game_id, color, opponent } => {
            assert forall|a: int, b: int|
                0 <= a < b < after.games@.len() && !after.games@[a].ended
                    && !after.games@[b].ended implies !#[trigger] after.games@[a].shares_player(
                after.games@[b],
            ) by {
                assert(!before.is_open_for(a, user));
                assert(!before.is_open_for(b, user));
                assert(!before.games@[a].shares_player(before.games@[b]));
            }
        },
        JoinStep::Open => {
            if fen_turn(crate::oracle::start_encoding()) == Some(true) {
                let id = before.games@.len() as int;
                assert forall|a: int, b: int|
                    0 <= a < b < after.games@.len() && !after.games@[a].ended
                        && !after.games@[b].ended implies !#[trigger] after.games@[a].shares_player(
                    after.games@[b],
                ) by {
                    assert(after.games@.take(id)[a] == after.games@[a]);
                    assert(!before.is_open_for(a, user));
                    if b < id {
                        assert(after.games@.take(id)[b] == after.games@[b]);
                        assert(!before.games@[a].shares_player(before.games@[b]));
                    }
                }
            }
        },
    }
}

/// Whatever `join` does, no user comes to sit in two games that have not
/// ended.
pub proof fn law_join_never_double_books(
    before: Engine,
    after: Engine,
    user: i64,
    r: Result<JoinOutcome, EngineError>,
)
    requires
        before.sound(),
        before.joins(after, user, r),
    ensures
        after.no_double_booking(),
{
    law_decided_step_fits(before, user, 0);
    match before.join_step(user, 0) {
        Ok(step) => {
            law_step_never_double_books(before, after, user, step, r);
        },
        Err(_) => {},
    }
}

/// A persisted move takes the next ply of its game: the plies of every game
/// stay 0, 1, 2, ... without a gap.
pub proof fn law_plies_have_no_gaps(before: Engine, after: Engine, p: PlanModel)
    requires
        before.sound(),
        before.accepts(p),
        before.commits(after, p),
    ensures
        after.plies_consecutive(),
        after.moves@[p.game_id]@.len() == before.moves@[p.game_id]@.len() + 1,
        after.moves@[p.game_id]@.last().ply == before.moves@[p.game_id]@.len(),
{
    let g = p.game_id;
    assert forall|h: int, i: int|
        0 <= h < after.moves@.len() && 0 <= i < after.moves@[h]@.len() implies (
    #[trigger] after.moves@[h]@[i]).ply == i && after.moves@[h]@[i].game_id == h by {
        if h != g {
            assert(after.moves@[h] == before.moves@[h]);
            assert(before.moves@[h]@[i].ply == i);
        } else if i < p.ply {
            assert(after.moves@[g]@.take(p.ply)[i] == after.moves@[g]@[i]);
            assert(before.moves@[g]@[i].ply == i);
        }
    }
}

/// The encoding stored after a move is the encoding stored before it,
/// decoded, moved by the persisted move and encoded again. A cached board,
/// where there is one, carries the same encoding.
pub proof fn law_move_round_trip(before: Engine, after: Engine, user: i64, text: Seq<char>, p: PlanModel)
    requires
        before.sound(),
        before.planned(user, text) == Ok::<PlanModel, EngineError>(p),
        before.commits(after, p),
    ensures
        position_after(
            before.games@[p.game_id].fen@,
            after.moves@[p.game_id]@.last().notation@,
        ) == Some(after.games@[p.game_id].fen@),
        after.cache.contains(p.game_id as usize) ==> after.cache.encoding(p.game_id as usize)
            == after.games@[p.game_id].fen@,
{
}

/// A move hands the turn over: where white moves after an even number of
/// moves and black after an odd number before it, the same holds after it.
pub proof fn law_moves_alternate_turns(before: Engine, after: Engine, user: i64, text: Seq<char>, p: PlanModel)
    requires
        before.sound(),
        before.turns_alternate(),
        before.planned(user, text) == Ok::<PlanModel, EngineError>(p),
        before.commits(after, p),
    ensures
        after.turns_alternate(),
        fen_turn(after.games@[p.game_id].fen@) != fen_turn(before.games@[p.game_id].fen@),
{
    let g = p.game_id;
    assert(fen_turn(before.games@[g].fen@) == Some(before.moves@[g]@.len() % 2 == 0));
    assert forall|h: int| 0 <= h < after.games@.len() && h < after.moves@.len() implies fen_turn(
        (#[trigger] after.games@[h]).fen@,
    ) == Some(after.moves@[h]@.len() % 2 == 0) by {
        if h != g {
            assert(after.games@[h] == before.games@[h]);
            assert(after.moves@[h] == before.moves@[h]);
            assert(fen_turn(before.games@[h].fen@) == Some(before.moves@[h]@.len() % 2 == 0));
        }
    }
}

/// A game that `join` opens starts with white to move, and pairing leaves
/// every turn as it was.
pub proof fn law_join_keeps_turns(
    before: Engine,
    after: Engine,
    user: i64,
    r: Result<JoinOutcome, EngineError>,
)
    requires
        before.sound(),
        before.turns_alternate(),
        before.joins(after, user, r),
    ensures
        after.turns_alternate(),
{
    let id = before.games@.len() as int;
    assert forall|h: int| 0 <= h < after.games@.len() && h < after.moves@.len() implies fen_turn(
        (#[trigger] after.games@[h]).fen@,
    ) == Some(after.moves@[h]@.len() % 2 == 0) by {
        if h < id {
            assert(fen_turn(before.games@[h].fen@) == Some(before.moves@[h]@.len() % 2 == 0));
            if after.games@.len() > id {
                assert(after.games@.take(id)[h] == after.games@[h]);
                assert(after.moves@.take(id)[h] == after.moves@[h]);
            }
        }
    }
}

/// A resignation leaves every turn as it was.
pub proof fn law_resign_keeps_turns(
    before: Engine,
    after: Engine,
    user: i64,
    r: Result<ResignReport, EngineError>,
)
    requires
        before.sound(),
        before.turns_alternate(),
        before.resigns(after, user, r),
    ensures
        after.turns_alternate(),
{
    assert forall|h: int| 0 <= h < after.games@.len() && h < after.moves@.len() implies fen_turn(
        (#[trigger] after.games@[h]).fen@,
    ) == Some(after.moves@[h]@.len() % 2 == 0) by {
        assert(fen_turn(before.games@[h].fen@) == Some(before.moves@[h]@.len() % 2 == 0));
    }
}

/// The move pipeline decides from the rows and the moves alone: on two
/// states with the same records, such as the state before a transaction
/// that failed and the state after it, the same request gets the same plan
/// at the same ply.
pub proof fn law_retry_decides_alike(first: Engine, retry: Engine, user: i64, text: Seq<char>)
    requires
        retry.same_records(first),
    ensures
        retry.planned(user, text) == first.planned(user, text),
{
}

/// A game is pending, active or terminal, and never two of these.
pub proof fn law_lifecycle_states_partition(e: Engine, g: int)
    requires
        e.rows_well_formed(),
        0 <= g < e.games@.len(),
    ensures
        e.games@[g].is_pending() || e.games@[g].is_active() || e.games@[g].is_terminal(),
        !(e.games@[g].is_pending() && e.games@[g].is_active()),
        !(e.games@[g].is_pending() && e.games@[g].is_terminal()),
        !(e.games@[g].is_active() && e.games@[g].is_terminal()),
{
}

/// A cached board belongs to a game that has not ended and carries the
/// encoding stored in that game's row.
pub proof fn law_cache_mirrors_open_games(e: Engine, k: usize)
    requires
        e.wf(),
        e.cache.contains(k),
    ensures
        k < e.games@.len(),
        !e.games@[k as int].ended,
        e.cache.encoding(k) == e.games@[k as int].fen@,
{
}

/// A game that has ended is frozen under `join`: its row and its moves stay
/// as they were.
pub proof fn law_join_leaves_ended_games(
    before: Engine,
    after: Engine,
    user: i64,
    r: Result<JoinOutcome, EngineError>,
    g: int,
)
    requires
        before.sound(),
        before.joins(after, user, r),
        0 <= g < before.games@.len(),
        before.games@[g].ended,
    ensures
        after.games@[g] == before.games@[g],
        after.moves@[g] == before.moves@[g],
{
    let id = before.games@.len() as int;
    if after.games@.len() > id {
        assert(after.games@.take(id)[g] == after.games@[g]);
        assert(after.moves@.take(id)[g] == after.moves@[g]);
    }
}

/// A game that has ended is frozen under `resign`: its row and its moves
/// stay as they were.
pub proof fn law_resign_leaves_ended_games(
    before: Engine,
    after: Engine,
    user: i64,
    r: Result<ResignReport, EngineError>,
    g: int,
)
    requires
        before.sound(),
        before.resigns(after, user, r),
        0 <= g < before.games@.len(),
        before.games@[g].ended,
    ensures
        after.games@[g] == before.games@[g],
        after.moves@[g] == before.moves@[g],
{
}

/// A game that has ended is frozen: a persisted move leaves its row and its
/// moves as they were.
pub proof fn law_ended_games_are_frozen(before: Engine, after: Engine, p: PlanModel, g: int)
    requires
        before.sound(),
        before.accepts(p),
        before.commits(after, p),
        0 <= g < before.games@.len(),
        before.games@[g].ended,
    ensures
        after.games@[g] == before.games@[g],
        after.moves@[g] == before.moves@[g],
{
}

/// A plan that the move pipeline decides on is for a game that has not
/// ended, at its next ply, with a consistent verdict.
pub proof fn law_planned_move_is_accepted(e: Engine, user: i64, text: Seq<char>, p: PlanModel)
    requires
        e.sound(),
        e.planned(user, text) == Ok::<PlanModel, EngineError>(p),
    ensures
        e.accepts(p),
        e.is_open_for(p.game_id, user),
{
}

/// One thing that happens to an engine: a user is seen, joins, attempts a
/// move or resigns.
pub ghost enum Event {
    Seen { user: i64 },
    Join { user: i64, joined: Result<JoinOutcome, EngineError> },
    Move { user: i64, text: Seq<char> },
    Resign { user: i64, resigned: Result<ResignReport, EngineError> },
}

/// The state `after` is what `event` makes of the state `before`.
pub open spec fn follows(before: Engine, after: Engine, event: Event) -> bool {
    match event {
        Event::Seen { user } => after.same_records(before) && after.users@ == before.observed(user),
        Event::Join { user, joined } => after.users@ == before.users@ && before.joins(
            after,
            user,
            joined,
        ),
        Event::Move { user, text } => after.users@ == before.users@ && match before.planned(
            user,
            text,
        ) {
            Ok(p) => before.commits(after, p),
            Err(_) => after.same_records(before),
        },
        Event::Resign { user, resigned } => after.users@ == before.users@ && before.resigns(
            after,
            user,
            resigned,
        ),
    }
}

/// A run: each state is what the event before it makes of the state before it.
pub open spec fn is_run(states: Seq<Engine>, events: Seq<Event>) -> bool {
    &&& states.len() == events.len() + 1
    &&& forall|i: int| 0 <= i < events.len() ==> follows(states[i], states[i + 1], #[trigger] events[i])
}

/// One event keeps the records sound and the turns alternating.
pub proof fn law_event_keeps_records_sound(before: Engine, after: Engine, event: Event)
    requires
        before.sound(),
        follows(before, after, event),
    ensures
        after.sound(),
        before.turns_alternate() ==> after.turns_alternate(),
{
    match event {
        Event::Seen { user } => {
            assert(after.users@.no_duplicates());
        },
        Event::Join { user, joined } => {
            law_join_never_double_books(before, after, user, joined);
            if before.turns_alternate() {
                law_join_keeps_turns(before, after, user, joined);
            }
            let id = before.games@.len() as int;
            assert forall|g: int| 0 <= g < after.games@.len() implies (#[trigger] after.games@[g]).id
                == g && after.games@[g].well_formed() by {
                if g < id {
                    assert(before.games@[g].well_formed());
                    assert(!before.is_open_for(g, user) || before.open_game(user) is Some);
                    if after.games@.len() > id {
                        assert(after.games@.take(id)[g] == after.games@[g]);
                    }
                }
            }
            assert forall|h: int, i: int|
                0 <= h < after.moves@.len() && 0 <= i < after.moves@[h]@.len() implies (
            #[trigger] after.moves@[h]@[i]).ply == i && after.moves@[h]@[i].game_id == h by {
                if h < id {
                    if after.moves@.len() > id {
                        assert(after.moves@.take(id)[h] == after.moves@[h]);
                    }
                    assert(before.moves@[h]@[i].ply == i);
                }
            }
        },
        Event::Move { user, text } => {
            match before.planned(user, text) {
                Ok(p) => {
                    law_planned_move_is_accepted(before, user, text, p);
                    law_plies_have_no_gaps(before, after, p);
                    if before.turns_alternate() {
                        law_moves_alternate_turns(before, after, user, text, p);
                    }
                    assert forall|g: int| 0 <= g < after.games@.len() implies (
                    #[trigger] after.games@[g]).id == g && after.games@[g].well_formed() by {
                        assert(before.games@[g].well_formed());
                        if g != p.game_id {
                            assert(after.games@[g] == before.games@[g]);
                        }
                    }
                    assert forall|a: int, b: int|
                        0 <= a < b < after.games@.len() && !after.games@[a].ended
                            && !after.games@[b].ended implies !#[trigger] after.games@[a].shares_player(
                        after.games@[b],
                    ) by {
                        assert(!before.games@[a].shares_player(before.games@[b]));
                        if a != p.game_id {
                            assert(after.games@[a] == before.games@[a]);
                        }
                        if b != p.game_id {
                            assert(after.games@[b] == before.games@[b]);
                        }
                    }
                },
                Err(_) => {},
            }
        },
        Event::Resign { user, resigned } => {
            if before.turns_alternate() {
                law_resign_keeps_turns(before, after, user, resigned);
            }
            assert forall|g: int| 0 <= g < after.games@.len() implies (#[trigger] after.games@[g]).id
                == g && after.games@[g].well_formed() by {
                assert(before.games@[g].well_formed());
            }
            assert forall|a: int, b: int|
                0 <= a < b < after.games@.len() && !after.games@[a].ended
                    && !after.games@[b].ended implies !#[trigger] after.games@[a].shares_player(
                after.games@[b],
            ) by {
                assert(!before.games@[a].shares_player(before.games@[b]));
            }
        },
    }
}

/// In every state of every run from sound records, no user sits in two
/// games that have not ended and the plies of every game are 0, 1, 2, ...;
/// where the turns alternate from white at the start, they do in every
/// state.
pub proof fn law_every_state_is_sound(states: Seq<Engine>, events: Seq<Event>, k: int)
    requires
        is_run(states, events),
        states[0].sound(),
        0 <= k < states.len(),
    ensures
        states[k].sound(),
        states[k].no_double_booking(),
        states[k].plies_consecutive(),
        states[0].turns_alternate() ==> states[k].turns_alternate(),
    decreases k,
{
    if k > 0 {
        law_every_state_is_sound(states, events, k - 1);
        assert(follows(states[k - 1], states[k - 1 + 1], events[k - 1]));
        law_event_keeps_records_sound(states[k - 1], states[k], events[k - 1]);
    }
}

} // verus!
