use game_session::cache::BoardCache;
use game_session::engine::Engine;
use game_session::model::{Color, EngineError, ResignReport, Termination};

#[test]
fn resigning_without_a_game_is_refused() {
    let mut e = Engine::new();
    assert_eq!(e.resign(1), Err(EngineError::NotPlaying));
}

#[test]
fn white_resigns_and_black_wins() {
    let mut e = Engine::new();
    e.join(1).unwrap();
    e.join(2).unwrap();
    e.attempt_move(1, "e4").unwrap();
    assert!(e.cache.holds(0));
    let fen = e.games[0].fen.clone();
    assert_eq!(
        e.resign(1),
        Ok(ResignReport { game_id: 0, winner: Some(Color::Black), opponent: Some(2) })
    );
    assert!(e.games[0].ended);
    assert_eq!(e.games[0].winner, Some(Color::Black));
    assert_eq!(e.games[0].termination, Some(Termination::Resign));
    assert_eq!(e.games[0].fen, fen);
    assert_eq!(e.moves[0].len(), 1);
    assert!(!e.cache.holds(0));
    assert_eq!(e.resign(1), Err(EngineError::NotPlaying));
    assert_eq!(e.attempt_move(2, "e5").err(), Some(EngineError::NotPlaying));
}

#[test]
fn black_resigns_and_white_wins() {
    let mut e = Engine::new();
    e.join(1).unwrap();
    e.join(2).unwrap();
    assert_eq!(
        e.resign(2),
        Ok(ResignReport { game_id: 0, winner: Some(Color::White), opponent: Some(1) })
    );
    assert_eq!(e.games[0].winner, Some(Color::White));
}

#[test]
fn leaving_a_pending_game_has_no_winner() {
    let mut e = Engine::new();
    e.join(1).unwrap();
    assert_eq!(e.resign(1), Ok(ResignReport { game_id: 0, winner: None, opponent: None }));
    assert!(e.games[0].ended);
    assert_eq!(e.games[0].termination, Some(Termination::Resign));
    assert_eq!(e.find_pending(), None);
}

#[test]
fn cache_keeps_one_board_per_game() {
    let mut c = BoardCache::new();
    assert_eq!(c.len(), 0);
    assert_eq!(c.get(3), None);
    c.put(3, "a".to_string());
    c.put(3, "b".to_string());
    c.put(4, "c".to_string());
    assert_eq!(c.len(), 2);
    assert_eq!(c.get(3), Some("b".to_string()));
    assert!(c.holds(4));
    c.evict(3);
    assert!(!c.holds(3));
    assert_eq!(c.get(4), Some("c".to_string()));
    c.evict(3);
    assert_eq!(c.len(), 1);
}
