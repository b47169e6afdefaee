use game_session::engine::Engine;
use game_session::model::{Color, EngineError, Game, JoinOutcome, JoinStep};
use game_session::oracle::starting_fen;

fn open_games_of(e: &Engine, user: i64) -> usize {
    e.games.iter().filter(|g| !g.ended && (g.white == Some(user) || g.black == Some(user))).count()
}

fn pending_row(id: usize, white: Option<i64>, black: Option<i64>) -> Game {
    Game { id, white, black, ended: false, winner: None, termination: None, fen: starting_fen() }
}

#[test]
fn first_join_waits_for_an_opponent() {
    let mut e = Engine::new();
    assert_eq!(e.join(10), Ok(JoinOutcome::WaitingForOpponent { game_id: 0 }));
    assert_eq!(e.games.len(), 1);
    assert_eq!(e.moves.len(), 1);
    assert_eq!(e.games[0].white, Some(10));
    assert_eq!(e.games[0].black, None);
    assert!(!e.games[0].ended);
    assert_eq!(e.games[0].fen, "rnbqkbnr/pppppppp/8/8/8/8/PPPPPPPP/RNBQKBNR w KQkq - 0 1");
    assert!(e.games[0].pending());
    assert!(!e.games[0].active());
}

#[test]
fn second_join_is_paired_as_black() {
    let mut e = Engine::new();
    e.join(10).unwrap();
    assert_eq!(e.join(20), Ok(JoinOutcome::Paired { game_id: 0, color: Color::Black, opponent: 10 }));
    assert_eq!(e.games.len(), 1);
    assert_eq!(e.games[0].white, Some(10));
    assert_eq!(e.games[0].black, Some(20));
    assert!(e.games[0].active());
    assert!(!e.games[0].pending());
    assert_eq!(e.participants(0), (Some(10), Some(20)));
}

#[test]
fn join_fills_a_free_white_seat() {
    let mut e = Engine::new();
    e.games.push(pending_row(0, None, Some(7)));
    e.moves.push(Vec::new());
    assert_eq!(e.join(8), Ok(JoinOutcome::Paired { game_id: 0, color: Color::White, opponent: 7 }));
    assert_eq!(e.games[0].white, Some(8));
    assert_eq!(e.games[0].black, Some(7));
}

#[test]
fn join_while_playing_is_refused() {
    let mut e = Engine::new();
    e.join(10).unwrap();
    assert_eq!(e.join(10), Err(EngineError::AlreadyPlaying));
    e.join(20).unwrap();
    assert_eq!(e.join(10), Err(EngineError::AlreadyPlaying));
    assert_eq!(e.join(20), Err(EngineError::AlreadyPlaying));
    assert_eq!(e.games.len(), 1);
}

#[test]
fn third_join_opens_a_second_game() {
    let mut e = Engine::new();
    e.join(1).unwrap();
    e.join(2).unwrap();
    assert_eq!(e.join(3), Ok(JoinOutcome::WaitingForOpponent { game_id: 1 }));
    assert_eq!(e.join(4), Ok(JoinOutcome::Paired { game_id: 1, color: Color::Black, opponent: 3 }));
    assert_eq!(e.games.len(), 2);
    assert_eq!(e.games[1].id, 1);
}

#[test]
fn pairing_takes_the_pending_game_with_the_lowest_id() {
    let mut e = Engine::new();
    e.games.push(pending_row(0, Some(1), None));
    e.moves.push(Vec::new());
    e.games.push(pending_row(1, Some(2), None));
    e.moves.push(Vec::new());
    assert_eq!(e.find_pending(), Some(0));
    assert_eq!(e.join(3), Ok(JoinOutcome::Paired { game_id: 0, color: Color::Black, opponent: 1 }));
    assert_eq!(e.find_pending(), Some(1));
    assert_eq!(e.join(4), Ok(JoinOutcome::Paired { game_id: 1, color: Color::Black, opponent: 2 }));
    assert_eq!(e.find_pending(), None);
}

#[test]
fn two_joiners_with_no_pending_game_share_one_game() {
    let mut e = Engine::new();
    let a = e.join(1).unwrap();
    let b = e.join(2).unwrap();
    assert_eq!(a, JoinOutcome::WaitingForOpponent { game_id: 0 });
    assert_eq!(b, JoinOutcome::Paired { game_id: 0, color: Color::Black, opponent: 1 });
    assert_eq!(e.games.len(), 1);
}

#[test]
fn two_joiners_racing_for_one_pending_game() {
    let mut e = Engine::new();
    e.join(1).unwrap();
    let b = e.join(2).unwrap();
    let c = e.join(3).unwrap();
    assert_eq!(b, JoinOutcome::Paired { game_id: 0, color: Color::Black, opponent: 1 });
    assert_eq!(c, JoinOutcome::WaitingForOpponent { game_id: 1 });
    for user in [1, 2, 3] {
        assert_eq!(open_games_of(&e, user), 1);
    }
}

#[test]
fn nobody_is_double_booked_after_many_joins() {
    let mut e = Engine::new();
    let order: [i64; 12] = [5, 3, 5, 9, 3, 1, 1, 7, 9, 2, 5, 7];
    for user in order {
        let _ = e.join(user);
        for u in order {
            assert!(open_games_of(&e, u) <= 1);
        }
    }
    assert_eq!(e.games.len(), 3);
    assert_eq!(e.find_open_game(5), Some(0));
    assert_eq!(e.find_open_game(2), Some(2));
    assert_eq!(e.find_open_game(42), None);
}

#[test]
fn joining_again_after_a_game_has_ended() {
    let mut e = Engine::new();
    e.join(1).unwrap();
    e.join(2).unwrap();
    e.resign(1).unwrap();
    assert_eq!(e.join(1), Ok(JoinOutcome::WaitingForOpponent { game_id: 1 }));
    assert_eq!(e.join(2), Ok(JoinOutcome::Paired { game_id: 1, color: Color::Black, opponent: 1 }));
    assert!(e.games[0].ended);
}

#[test]
fn a_lost_race_is_retried_once_and_then_a_game_is_opened() {
    let mut e = Engine::new();
    e.join(1).unwrap();
    let seat = JoinStep::Seat { game_id: 0, color: Color::Black, opponent: 1 };
    assert_eq!(e.plan_join(2, 0), Ok(seat));
    assert_eq!(e.plan_join(2, 1), Ok(seat));
    assert_eq!(e.plan_join(2, 2), Ok(JoinStep::Open));
    assert_eq!(e.plan_join(2, 200), Ok(JoinStep::Open));
    assert_eq!(e.plan_join(1, 0), Err(EngineError::AlreadyPlaying));
    assert_eq!(e.plan_join(1, 2), Err(EngineError::AlreadyPlaying));

    assert!(e.step_is_fit(2, JoinStep::Open));
    assert_eq!(e.apply_join(2, JoinStep::Open), Ok(JoinOutcome::WaitingForOpponent { game_id: 1 }));
    assert_eq!(e.games.len(), 2);
    assert_eq!(e.find_pending(), Some(0));
    assert_eq!(e.join(3), Ok(JoinOutcome::Paired { game_id: 0, color: Color::Black, opponent: 1 }));
    assert_eq!(e.join(4), Ok(JoinOutcome::Paired { game_id: 1, color: Color::Black, opponent: 2 }));
}

#[test]
fn steps_that_do_not_fit_are_told_apart() {
    let mut e = Engine::new();
    e.join(1).unwrap();
    assert!(e.step_is_fit(2, JoinStep::Seat { game_id: 0, color: Color::Black, opponent: 1 }));
    assert!(!e.step_is_fit(2, JoinStep::Seat { game_id: 0, color: Color::White, opponent: 1 }));
    assert!(!e.step_is_fit(2, JoinStep::Seat { game_id: 0, color: Color::Black, opponent: 9 }));
    assert!(!e.step_is_fit(2, JoinStep::Seat { game_id: 1, color: Color::Black, opponent: 1 }));
    assert!(!e.step_is_fit(1, JoinStep::Open));
    e.join(2).unwrap();
    assert!(!e.step_is_fit(3, JoinStep::Seat { game_id: 0, color: Color::Black, opponent: 1 }));
    assert!(e.step_is_fit(3, JoinStep::Open));
}
