use flo_core::node::error::Error;
use flo_core::node::session::games::GameRegistry;
use flo_core::node::session::pending::PendingPlayerRegistry;
use flo_core::node::session::types::{
    collect_bound_players, Game, GamePlayer, GameSession, GameSlot, GameStatus, PendingPlayer,
    PlayerToken,
};

fn slot(player: Option<i32>) -> GameSlot {
    GameSlot {
        player: player.map(|player_id| GamePlayer { player_id }),
    }
}

fn game(id: i32, players: &[Option<i32>]) -> Game {
    Game {
        id,
        slots: players.iter().map(|p| slot(*p)).collect(),
    }
}

fn token(value: u128) -> PlayerToken {
    PlayerToken::from_value(value)
}

fn pending(player_id: i32, game_id: i32) -> PendingPlayer {
    PendingPlayer { player_id, game_id }
}

#[test]
fn bound_players_come_in_slot_order() {
    assert_eq!(collect_bound_players(&vec![]), Vec::<i32>::new());
    assert_eq!(
        collect_bound_players(&vec![slot(None), slot(None)]),
        Vec::<i32>::new()
    );
    assert_eq!(
        collect_bound_players(&vec![slot(Some(5)), slot(None), slot(Some(2)), slot(Some(5))]),
        vec![5, 2, 5]
    );
}

#[test]
fn new_session_is_created_with_the_games_slots() {
    let mut session = GameSession::new(game(8, &[Some(1), None, Some(3)]));
    assert_eq!(session.game_id(), 8);
    assert_eq!(session.status(), GameStatus::Created);
    assert_eq!(session.player_ids(), vec![1, 3]);
    session.set_status(GameStatus::Waiting);
    assert_eq!(session.status(), GameStatus::Waiting);
    assert_eq!(session.game_id(), 8);
    assert_eq!(session.player_ids(), vec![1, 3]);
}

#[test]
fn pre_check_refuses_only_a_game_that_left_created() {
    let mut games = GameRegistry::new();
    assert!(games.pre_check(1).is_ok());
    assert!(games.register(game(1, &[Some(1)])));
    assert!(games.pre_check(1).is_ok());
    assert_eq!(games.status_of(1), Some(GameStatus::Created));
    for status in [GameStatus::Waiting, GameStatus::Running, GameStatus::Ended] {
        assert!(games.set_status(1, status));
        assert_eq!(games.pre_check(1), Err(Error::GameExists));
        assert_eq!(games.status_of(1), Some(status));
    }
    assert!(games.pre_check(2).is_ok());
    assert!(games.set_status(1, GameStatus::Created));
    assert!(games.pre_check(1).is_ok());
}

#[test]
fn registering_a_game_again_overwrites_it() {
    let mut games = GameRegistry::new();
    assert!(games.register(game(1, &[Some(1)])));
    assert!(games.set_status(1, GameStatus::Ended));
    assert!(!games.register(game(1, &[Some(2)])));
    assert_eq!(games.status_of(1), Some(GameStatus::Created));
    assert!(games.register(game(2, &[Some(2)])));
    assert!(!games.set_status(3, GameStatus::Ended));
    assert_eq!(games.status_of(3), None);
}

#[test]
fn registering_tokens_installs_both_directions() {
    let mut registry = PendingPlayerRegistry::new();
    assert!(!registry.contains_token(&token(1)));
    let stale = registry.register(vec![(token(1), pending(10, 100)), (token(2), pending(20, 100))]);
    assert!(stale.is_empty());
    assert!(registry.contains_token(&token(1)));
    assert_eq!(registry.get(&token(1)), Some(pending(10, 100)));
    assert_eq!(registry.get(&token(2)), Some(pending(20, 100)));
    assert_eq!(registry.get(&token(3)), None);
    assert_eq!(registry.token_of(10), Some(token(1)));
    assert_eq!(registry.token_of(20), Some(token(2)));
    assert_eq!(registry.token_of(30), None);
}

#[test]
fn registering_a_new_token_reports_the_old_record() {
    let mut registry = PendingPlayerRegistry::new();
    registry.register(vec![(token(1), pending(10, 100)), (token(2), pending(20, 100))]);
    let stale = registry.register(vec![(token(3), pending(20, 200)), (token(4), pending(30, 200))]);
    assert_eq!(stale, vec![pending(20, 100)]);
    assert_eq!(registry.get(&token(2)), None);
    assert!(!registry.contains_token(&token(2)));
    assert_eq!(registry.get(&token(3)), Some(pending(20, 200)));
    assert_eq!(registry.token_of(20), Some(token(3)));
    assert_eq!(registry.get(&token(1)), Some(pending(10, 100)));
    assert_eq!(registry.token_of(30), Some(token(4)));
    assert!(registry.register(vec![]).is_empty());
}

#[test]
fn fresh_tokens_are_distinct_and_not_outstanding() {
    let mut registry = PendingPlayerRegistry::new();
    assert!(registry.is_fresh(&vec![]));
    assert!(registry.is_fresh(&vec![token(1), token(2), token(3)]));
    assert!(!registry.is_fresh(&vec![token(1), token(2), token(1)]));
    assert!(!registry.is_fresh(&vec![token(2), token(2)]));
    registry.register(vec![(token(1), pending(10, 100))]);
    assert!(!registry.is_fresh(&vec![token(1)]));
    assert!(!registry.is_fresh(&vec![token(5), token(1)]));
    assert!(registry.is_fresh(&vec![token(5), token(6)]));
    // A token that was pushed out may be issued again.
    registry.register(vec![(token(2), pending(10, 100))]);
    assert!(registry.is_fresh(&vec![token(1)]));
}
