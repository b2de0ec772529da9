use std::collections::HashMap;
use vstd::prelude::*;
use crate::node::error::{Error, Result};
use crate::node::session::types::{Game, GameSession, GameSessionView, GameStatus};

verus! {

broadcast use vstd::std_specs::hash::group_hash_axioms;

/// Whether a create-game request for `game_id` must be turned down: a session
/// with that identifier exists and has left the status `Created`.
pub open spec fn game_exists(games: Map<i32, GameSessionView>, game_id: i32) -> bool {
    games.contains_key(game_id) && games[game_id].status != GameStatus::Created
}

/// The game sessions by identifier.
#[derive(Debug)]
pub struct GameRegistry {
    map: HashMap<i32, GameSession>,
}

impl View for GameRegistry {
    type V = Map<i32, GameSessionView>;

    closed spec fn view(&self) -> Map<i32, GameSessionView> {
        self.map@.map_values(|session: GameSession| session@)
    }
}

impl GameRegistry {
    pub fn new() -> (registry: Self)
        ensures
            registry@ == Map::<i32, GameSessionView>::empty(),
    {
        let registry = GameRegistry { map: HashMap::new() };
        assert(registry@ =~= Map::<i32, GameSessionView>::empty());
        registry
    }

    /// Refuses a game whose session has left the status `Created`.
    pub fn pre_check(&self, game_id: i32) -> (result: Result<()>)
        ensures
            game_exists(self@, game_id) ==> result == Err::<(), Error>(Error::GameExists),
            !game_exists(self@, game_id) ==> result is Ok,
    {
        if let Some(game) = self.map.get(&game_id) {
            if game.status() != GameStatus::Created {
                return Err(Error::GameExists);
            }
        }
        Ok(())
    }

    /// Installs the session that `game` starts, over whatever stood under its
    /// identifier, and tells whether the identifier is new.
    pub fn register(&mut self, game: Game) -> (new_session: bool)
        ensures
            final(self)@ == old(self)@.insert(game.id, GameSession::created(game.id, game.slots@)),
            new_session == !old(self)@.contains_key(game.id),
    {
        let game_id = game.id;
        let session = GameSession::new(game);
        let new_session = self.map.insert(game_id, session).is_none();
        assert(self@ =~= old(self)@.insert(game.id, GameSession::created(game.id, game.slots@)));
        new_session
    }

    /// The status of the session `game_id`, if there is one.
    pub fn status_of(&self, game_id: i32) -> (status: Option<GameStatus>)
        ensures
            status == if self@.contains_key(game_id) {
                Some(self@[game_id].status)
            } else {
                None
            },
    {
        match self.map.get(&game_id) {
            Some(game) => Some(game.status()),
            None => None,
        }
    }

    /// Moves the session `game_id` to `status` and tells whether there is such a session.
    pub fn set_status(&mut self, game_id: i32, status: GameStatus) -> (found: bool)
        ensures
            found == old(self)@.contains_key(game_id),
            found ==> final(self)@ == old(self)@.insert(
                game_id,
                (GameSessionView { status, ..old(self)@[game_id] }),
            ),
            !found ==> final(self)@ == old(self)@,
    {
        match self.map.remove(&game_id) {
            Some(mut session) => {
                session.set_status(status);
                self.map.insert(game_id, session);
                assert(self@ =~= old(self)@.insert(
                    game_id,
                    (GameSessionView { status, ..old(self)@[game_id] }),
                ));
                true
            },
            None => {
                assert(self@ =~= old(self)@);
                false
            },
        }
    }
}

} // verus!
