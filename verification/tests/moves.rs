use game_session::engine::Engine;
use game_session::model::{Color, EngineError, Game, Termination};
use game_session::pipeline::consult;

const AFTER_NF3: &str = "rnbqkbnr/pppppppp/8/8/8/5N2/PPPPPPPP/RNBQKB1R b KQkq - 1 1";

fn paired() -> Engine {
    let mut e = Engine::new();
    e.join(100).unwrap();
    e.join(200).unwrap();
    e
}

fn lone_game(fen: &str) -> Engine {
    let mut e = Engine::new();
    e.games.push(Game {
        id: 0,
        white: Some(100),
        black: Some(200),
        ended: false,
        winner: None,
        termination: None,
        fen: fen.to_string(),
    });
    e.moves.push(Vec::new());
    e
}

#[test]
fn opening_scenario() {
    let mut e = paired();
    let plan = e.attempt_move(100, "Nf3").unwrap();
    assert_eq!(plan.game_id, 0);
    assert_eq!(plan.ply, 0);
    assert_eq!(plan.notation, "g1f3");
    assert_eq!(plan.fen, AFTER_NF3);
    assert!(!plan.verdict.ended);
    assert_eq!(e.games[0].fen, AFTER_NF3);
    assert_eq!(e.moves[0].len(), 1);
    assert_eq!(e.moves[0][0].game_id, 0);
    assert_eq!(e.moves[0][0].ply, 0);
    assert_eq!(e.moves[0][0].notation, "g1f3");
    assert_eq!(e.participants(0), (Some(100), Some(200)));
    assert_eq!(e.cache.get(0), Some(AFTER_NF3.to_string()));

    let refused = e.attempt_move(100, "e4");
    assert_eq!(refused.err(), Some(EngineError::NotYourTurn));
    assert_eq!(e.moves[0].len(), 1);
    assert_eq!(e.games[0].fen, AFTER_NF3);
}

#[test]
fn black_cannot_move_first() {
    let mut e = paired();
    assert_eq!(e.attempt_move(200, "e5").err(), Some(EngineError::NotYourTurn));
    assert_eq!(e.moves[0].len(), 0);
    assert_eq!(e.games[0].fen, "rnbqkbnr/pppppppp/8/8/8/8/PPPPPPPP/RNBQKBNR w KQkq - 0 1");
}

#[test]
fn a_stranger_is_not_playing() {
    let mut e = paired();
    assert_eq!(e.attempt_move(999, "e4").err(), Some(EngineError::NotPlaying));
    assert_eq!(e.moves[0].len(), 0);
}

#[test]
fn text_that_names_no_move_is_invalid_notation() {
    let mut e = paired();
    assert_eq!(e.attempt_move(100, "hello").err(), Some(EngineError::InvalidNotation));
    assert_eq!(e.attempt_move(100, "e2e5").err(), Some(EngineError::InvalidNotation));
    assert_eq!(e.attempt_move(100, "Ke2").err(), Some(EngineError::InvalidNotation));
    assert_eq!(e.moves[0].len(), 0);
}

#[test]
fn coordinate_notation_is_the_fallback() {
    let mut e = paired();
    let plan = e.attempt_move(100, "e2e4").unwrap();
    assert_eq!(plan.notation, "e2e4");
    assert_eq!(plan.fen, "rnbqkbnr/pppppppp/8/8/4P3/8/PPPP1PPP/RNBQKBNR b KQkq e3 0 1");
}

#[test]
fn fools_mate_ends_the_game() {
    let mut e = paired();
    assert!(!e.attempt_move(100, "f3").unwrap().verdict.ended);
    assert!(!e.attempt_move(200, "e5").unwrap().verdict.ended);
    assert!(!e.attempt_move(100, "g4").unwrap().verdict.ended);
    assert!(e.cache.holds(0));
    let last = e.attempt_move(200, "Qh4").unwrap();
    assert_eq!(last.ply, 3);
    assert_eq!(last.notation, "d8h4");
    assert!(last.verdict.ended);
    assert_eq!(last.verdict.winner, Some(Color::Black));
    assert_eq!(last.verdict.termination, Some(Termination::Checkmate));
    assert!(e.games[0].ended);
    assert_eq!(e.games[0].winner, Some(Color::Black));
    assert_eq!(e.games[0].termination, Some(Termination::Checkmate));
    assert_eq!(e.games[0].fen, "rnb1kbnr/pppp1ppp/8/4p3/6Pq/5P2/PPPPP2P/RNBQKBNR w KQkq - 1 3");
    assert!(!e.cache.holds(0));
    assert_eq!(e.cache.len(), 0);

    assert_eq!(e.attempt_move(100, "a3").err(), Some(EngineError::NotPlaying));
    assert_eq!(e.moves[0].len(), 4);
}

#[test]
fn white_mates_and_wins() {
    let mut e = lone_game("6k1/5ppp/8/8/8/8/8/R6K w - - 0 1");
    let plan = e.attempt_move(100, "Ra8").unwrap();
    assert!(plan.verdict.ended);
    assert_eq!(plan.verdict.winner, Some(Color::White));
    assert_eq!(plan.verdict.termination, Some(Termination::Checkmate));
    assert!(!e.cache.holds(0));
}

#[test]
fn stalemate_is_a_draw() {
    let mut e = lone_game("7k/8/6K1/8/8/8/5Q2/8 w - - 0 1");
    let plan = e.attempt_move(100, "Qf7").unwrap();
    assert!(plan.verdict.ended);
    assert_eq!(plan.verdict.winner, None);
    assert_eq!(plan.verdict.termination, Some(Termination::Draw));
    assert!(e.games[0].ended);
    assert_eq!(e.games[0].winner, None);
    assert_eq!(e.games[0].termination, Some(Termination::Draw));
    assert!(!e.cache.holds(0));
}

#[test]
fn bare_kings_are_a_draw() {
    let mut e = lone_game("8/8/8/8/8/8/1q6/K2k4 w - - 0 1");
    let plan = e.attempt_move(100, "a1b2").unwrap();
    assert!(plan.verdict.ended);
    assert_eq!(plan.verdict.winner, None);
    assert_eq!(plan.verdict.termination, Some(Termination::Draw));
}

#[test]
fn plies_count_up_from_zero() {
    let mut e = paired();
    e.join(300).unwrap();
    e.join(400).unwrap();
    let script: [(i64, &str); 8] = [
        (100, "e4"),
        (300, "d4"),
        (200, "e5"),
        (100, "Nf3"),
        (400, "d5"),
        (200, "Nc6"),
        (300, "c4"),
        (100, "Bb5"),
    ];
    for (user, text) in script {
        e.attempt_move(user, text).unwrap();
    }
    assert_eq!(e.moves[0].len(), 5);
    assert_eq!(e.moves[1].len(), 3);
    for g in 0..2 {
        for (i, m) in e.moves[g].iter().enumerate() {
            assert_eq!(m.ply, i);
            assert_eq!(m.game_id, g);
        }
    }
}

#[test]
fn the_side_to_move_alternates_from_white() {
    let mut e = paired();
    let script: [(i64, &str); 6] =
        [(100, "e4"), (200, "e5"), (100, "Nf3"), (200, "Nc6"), (100, "Bb5"), (200, "a6")];
    assert_eq!(e.games[0].fen.split(' ').nth(1), Some("w"));
    for (n, (user, text)) in script.into_iter().enumerate() {
        e.attempt_move(user, text).unwrap();
        let expected = if (n + 1) % 2 == 0 { "w" } else { "b" };
        assert_eq!(e.games[0].fen.split(' ').nth(1), Some(expected));
    }
}

#[test]
fn stored_encoding_is_the_old_one_moved_and_encoded_again() {
    let mut e = paired();
    let script: [(i64, &str); 4] = [(100, "d4"), (200, "Nf6"), (100, "c4"), (200, "e6")];
    for (user, text) in script {
        let before = e.games[0].fen.clone();
        e.attempt_move(user, text).unwrap();
        let recorded = e.moves[0].last().unwrap().notation.clone();
        let answers = consult(&before, &recorded);
        assert_eq!(answers.next, Some(e.games[0].fen.clone()));
        assert_eq!(e.cache.get(0), Some(e.games[0].fen.clone()));
    }
}

#[test]
fn a_failed_transaction_consumes_no_ply() {
    let mut e = paired();
    e.attempt_move(100, "e4").unwrap();
    let rows_before = e.games[0].fen.clone();

    let first = e.plan_move(200, "c5").unwrap();
    assert_eq!(first.ply, 1);
    assert_eq!(e.abort_move(first.game_id), EngineError::StoreUnavailable);
    assert!(!e.cache.holds(0));
    assert_eq!(e.games[0].fen, rows_before);
    assert_eq!(e.moves[0].len(), 1);

    let retry = e.plan_move(200, "c5").unwrap();
    assert_eq!(retry.game_id, first.game_id);
    assert_eq!(retry.ply, first.ply);
    assert_eq!(retry.notation, first.notation);
    assert_eq!(retry.fen, first.fen);
    assert_eq!(retry.verdict, first.verdict);
    e.commit_move(&retry);
    assert_eq!(e.moves[0].len(), 2);
    assert_eq!(e.moves[0][1].ply, 1);
    assert_eq!(e.moves[0][1].notation, "c7c5");
    assert_eq!(e.games[0].fen, "rnbqkbnr/pp1ppppp/8/2p5/4P3/8/PPPP1PPP/RNBQKBNR w KQkq c6 0 2");
    assert_eq!(e.cache.get(0), Some(e.games[0].fen.clone()));
}

#[test]
fn planning_leaves_the_records_alone() {
    let mut e = paired();
    let plan = e.plan_move(100, "e4").unwrap();
    assert_eq!(plan.ply, 0);
    assert_eq!(e.moves[0].len(), 0);
    assert_eq!(e.games[0].fen, "rnbqkbnr/pppppppp/8/8/8/8/PPPPPPPP/RNBQKBNR w KQkq - 0 1");
    assert_eq!(e.cache.get(0), Some(e.games[0].fen.clone()));
}

#[test]
fn the_board_is_rebuilt_on_a_cache_miss() {
    let mut e = paired();
    assert!(!e.cache.holds(0));
    let fen = e.board_for(0);
    assert_eq!(fen, e.games[0].fen);
    assert!(e.cache.holds(0));
    e.cache.evict(0);
    e.attempt_move(100, "e4").unwrap();
    assert_eq!(e.cache.get(0), Some(e.games[0].fen.clone()));
}

#[test]
fn a_row_that_does_not_decode_is_an_invariant_violation() {
    let mut e = lone_game("not a position");
    assert_eq!(e.attempt_move(100, "e4").err(), Some(EngineError::InvariantViolation));
    assert_eq!(e.moves[0].len(), 0);
}
