pub mod games;
pub mod laws;
pub mod pending;
pub mod types;

use std::collections::HashMap;
use vstd::prelude::*;
use crate::node::error::{ControllerCreateGameRejectReason, Error, Result};
use crate::node::session::games::{game_exists, GameRegistry};
use crate::node::session::pending::{lemma_register_all_wf, tokens_of, PendingPlayerRegistry, PendingView};
use crate::node::session::types::{
    bound_players, collect_bound_players, ConnectedPlayer, Game, GameSession, GameSessionView,
    GameSlot, GameStatus, PacketControllerCreateGame, PendingPlayer, PlayerToken,
};

verus! {

broadcast use vstd::std_specs::hash::group_hash_axioms;

/// One line of an accept response: a player and the token minted for it.
#[derive(Clone, Copy, Debug, PartialEq, Eq, Structural)]
pub struct PlayerTokenEntry {
    pub player_id: i32,
    pub token: PlayerToken,
}

/// The game was registered; every bound player has a token.
#[derive(Clone, Debug)]
pub struct PacketControllerCreateGameAccept {
    pub game_id: i32,
    pub player_tokens: Vec<PlayerTokenEntry>,
}

/// The request was turned down for a reason the controller can act on.
#[derive(Clone, Copy, Debug, PartialEq, Eq, Structural)]
pub struct PacketControllerCreateGameReject {
    pub game_id: i32,
    pub reason: ControllerCreateGameRejectReason,
}

/// The answer to a create-game request.
#[derive(Clone, Debug)]
pub enum CreateGameResponse {
    Accept(PacketControllerCreateGameAccept),
    Reject(PacketControllerCreateGameReject),
}

/// An answer together with what the caller reports: the pending records that
/// the new tokens pushed out, and whether the game's identifier was new.
#[derive(Clone, Debug)]
pub struct CreateGameOutcome {
    pub response: CreateGameResponse,
    pub stale_pending_players: Vec<PendingPlayer>,
    pub new_session: bool,
}

/// An answer as a mathematical value.
pub enum CreateGameResponseView {
    Accept { game_id: i32, player_tokens: Seq<PlayerTokenEntry> },
    Reject { game_id: i32, reason: ControllerCreateGameRejectReason },
}

/// An outcome as a mathematical value.
pub struct CreateGameOutcomeView {
    pub response: CreateGameResponseView,
    pub stale_pending_players: Seq<PendingPlayer>,
    pub new_session: bool,
}

impl View for CreateGameResponse {
    type V = CreateGameResponseView;

    open spec fn view(&self) -> CreateGameResponseView {
        match *self {
            CreateGameResponse::Accept(accept) => CreateGameResponseView::Accept {
                game_id: accept.game_id,
                player_tokens: accept.player_tokens@,
            },
            CreateGameResponse::Reject(reject) => CreateGameResponseView::Reject {
                game_id: reject.game_id,
                reason: reject.reason,
            },
        }
    }
}

impl View for CreateGameOutcome {
    type V = CreateGameOutcomeView;

    open spec fn view(&self) -> CreateGameOutcomeView {
        CreateGameOutcomeView {
            response: self.response@,
            stale_pending_players: self.stale_pending_players@,
            new_session: self.new_session,
        }
    }
}

/// A result of the create-game handler as a mathematical value.
pub open spec fn result_view(result: Result<CreateGameOutcome>) -> Result<CreateGameOutcomeView> {
    match result {
        Ok(outcome) => Ok(outcome@),
        Err(e) => Err(e),
    }
}

/// The token and pending record of each bound player, in slot order.
pub open spec fn token_pairs(players: Seq<i32>, game_id: i32, tokens: Seq<PlayerToken>) -> Seq<
    (PlayerToken, PendingPlayer),
> {
    Seq::new(
        players.len(),
        |i: int| (tokens[i], PendingPlayer { player_id: players[i], game_id }),
    )
}

/// The lines of an accept response, in slot order.
pub open spec fn token_entries(players: Seq<i32>, tokens: Seq<PlayerToken>) -> Seq<
    PlayerTokenEntry,
> {
    Seq::new(players.len(), |i: int| PlayerTokenEntry { player_id: players[i], token: tokens[i] })
}

/// The session store as a mathematical value.
pub struct SessionStoreView {
    pub pending: PendingView,
    pub connected: Map<i32, ConnectedPlayer>,
    pub games: Map<i32, GameSessionView>,
}

/// A store after a create-game request, with the request's result.
pub struct CreateGameStep {
    pub result: Result<CreateGameOutcomeView>,
    pub store: SessionStoreView,
}

impl SessionStoreView {
    pub open spec fn empty() -> SessionStoreView {
        SessionStoreView {
            pending: PendingView::empty(),
            connected: Map::empty(),
            games: Map::empty(),
        }
    }

    /// Tokens and players correspond one to one, and every record stands
    /// under its own identifier.
    pub open spec fn wf(self) -> bool {
        &&& self.pending.wf()
        &&& forall|p: i32| #[trigger]
            self.connected.contains_key(p) ==> self.connected[p].player_id == p
        &&& forall|g: i32| #[trigger] self.games.contains_key(g) ==> self.games[g].game_id == g
    }

    /// The first of `players` that is connected, if any is.
    pub open spec fn first_busy(self, players: Seq<i32>) -> Option<i32>
        decreases players.len(),
    {
        if players.len() == 0 {
            None
        } else if self.connected.contains_key(players.first()) {
            Some(players.first())
        } else {
            self.first_busy(players.drop_first())
        }
    }

    /// Whether `tokens` can be issued to `players`: one for each, all fresh.
    pub open spec fn tokens_acceptable(self, players: Seq<i32>, tokens: Seq<PlayerToken>) -> bool {
        tokens.len() == players.len() && self.pending.fresh(tokens)
    }

    /// The store after the game is registered and `tokens` are issued to its players.
    pub open spec fn accepted(
        self,
        game_id: i32,
        slots: Seq<GameSlot>,
        tokens: Seq<PlayerToken>,
    ) -> SessionStoreView {
        SessionStoreView {
            pending: self.pending.register_all(
                token_pairs(bound_players(slots), game_id, tokens),
            ),
            connected: self.connected,
            games: self.games.insert(game_id, GameSession::created(game_id, slots)),
        }
    }

    /// What an accepted request hands back.
    pub open spec fn accept_outcome(
        self,
        game_id: i32,
        slots: Seq<GameSlot>,
        tokens: Seq<PlayerToken>,
    ) -> CreateGameOutcomeView {
        let players = bound_players(slots);
        CreateGameOutcomeView {
            response: CreateGameResponseView::Accept {
                game_id,
                player_tokens: token_entries(players, tokens),
            },
            stale_pending_players: self.pending.stale_all(token_pairs(players, game_id, tokens)),
            new_session: !self.games.contains_key(game_id),
        }
    }

    /// What a request rejected for an existing game hands back.
    pub open spec fn reject_outcome(game_id: i32) -> CreateGameOutcomeView {
        CreateGameOutcomeView {
            response: CreateGameResponseView::Reject {
                game_id,
                reason: ControllerCreateGameRejectReason::GameExists,
            },
            stale_pending_players: Seq::empty(),
            new_session: false,
        }
    }

    /// The create-game protocol: the checks in their order, each leaving the
    /// store as it was, and the registration where all of them pass.
    pub open spec fn create_game(
        self,
        game_id: i32,
        slots: Seq<GameSlot>,
        tokens: Seq<PlayerToken>,
    ) -> CreateGameStep {
        let players = bound_players(slots);
        if players.len() == 0 {
            CreateGameStep { result: Err(Error::NoPlayer), store: self }
        } else if let Some(id) = self.first_busy(players) {
            CreateGameStep { result: Err(Error::PlayerBusy(id)), store: self }
        } else if game_exists(self.games, game_id) {
            CreateGameStep { result: Ok(Self::reject_outcome(game_id)), store: self }
        } else if !self.tokens_acceptable(players, tokens) {
            CreateGameStep { result: Err(Error::TokenRejected), store: self }
        } else {
            CreateGameStep {
                result: Ok(self.accept_outcome(game_id, slots, tokens)),
                store: self.accepted(game_id, slots, tokens),
            }
        }
    }
}

/// The registry of pending players, connected players and game sessions.
#[derive(Debug)]
pub struct SessionStore {
    pending_players: PendingPlayerRegistry,
    connected_players: HashMap<i32, ConnectedPlayer>,
    games: GameRegistry,
}

impl View for SessionStore {
    type V = SessionStoreView;

    closed spec fn view(&self) -> SessionStoreView {
        SessionStoreView {
            pending: self.pending_players@,
            connected: self.connected_players@,
            games: self.games@,
        }
    }
}

/// Mints one token for each of `count` players.
fn mint_tokens(count: usize) -> (tokens: Vec<PlayerToken>)
    ensures
        tokens@.len() == count,
{
    let mut tokens: Vec<PlayerToken> = Vec::new();
    let mut i: usize = 0;
    while i < count
        invariant
            i <= count,
            tokens@.len() == i,
        decreases count - i,
    {
        tokens.push(PlayerToken::new());
        i += 1;
    }
    tokens
}

impl SessionStore {
    /// A store with no player and no game.
    pub fn new() -> (store: Self)
        ensures
            store@ == SessionStoreView::empty(),
            store@.wf(),
    {
        SessionStore {
            pending_players: PendingPlayerRegistry::new(),
            connected_players: HashMap::new(),
            games: GameRegistry::new(),
        }
    }

    /// The first of `player_ids` that is connected, if any is.
    fn find_busy(&self, player_ids: &Vec<i32>) -> (busy: Option<i32>)
        ensures
            busy == self@.first_busy(player_ids@),
    {
        let mut i: usize = 0;
        proof {
            assert(player_ids@.skip(0) =~= player_ids@);
        }
        while i < player_ids.len()
            invariant
                i <= player_ids.len(),
                self@.first_busy(player_ids@) == self@.first_busy(player_ids@.skip(i as int)),
            decreases player_ids.len() - i,
        {
            proof {
                assert(player_ids@.skip(i as int).drop_first() =~= player_ids@.skip(i + 1));
            }
            if self.connected_players.contains_key(&player_ids[i]) {
                return Some(player_ids[i]);
            }
            i += 1;
        }
        None
    }

    /// Handles a create-game request with the tokens to issue given by the
    /// caller, one for each bound player in slot order.
    ///
    /// The checks run in the protocol's order and each leaves the store as it
    /// was: no bound player, a bound player that is connected, a game that has
    /// left `Created`, tokens that are not one fresh token per player. Where
    /// all pass, the tokens are issued, the session is installed, and the
    /// accept response lists each bound player with its token.
    pub fn create_game_with_tokens(&mut self, game: Game, tokens: Vec<PlayerToken>) -> (result:
        Result<CreateGameOutcome>)
        ensures
            result_view(result) == old(self)@.create_game(game.id, game.slots@, tokens@).result,
            final(self)@ == old(self)@.create_game(game.id, game.slots@, tokens@).store,
            old(self)@.wf() ==> final(self)@.wf(),
    {
        let game_id = game.id;
        let player_ids = collect_bound_players(&game.slots);
        if player_ids.len() == 0 {
            return Err(Error::NoPlayer);
        }
        if let Some(id) = self.find_busy(&player_ids) {
            return Err(Error::PlayerBusy(id));
        }
        if let Err(err) = self.games.pre_check(game_id) {
            return match err.reject_reason() {
                Some(reason) => Ok(
                    CreateGameOutcome {
                        response: CreateGameResponse::Reject(
                            PacketControllerCreateGameReject { game_id, reason },
                        ),
                        stale_pending_players: Vec::new(),
                        new_session: false,
                    },
                ),
                None => Err(err),
            };
        }
        if tokens.len() != player_ids.len() || !self.pending_players.is_fresh(&tokens) {
            return Err(Error::TokenRejected);
        }
        let mut pending: Vec<(PlayerToken, PendingPlayer)> = Vec::new();
        let mut player_tokens: Vec<PlayerTokenEntry> = Vec::new();
        let mut i: usize = 0;
        while i < player_ids.len()
            invariant
                i <= player_ids.len(),
                tokens@.len() == player_ids@.len(),
                pending@.len() == i,
                player_tokens@.len() == i,
                forall|k: int|
                    0 <= k < i ==> pending@[k] == token_pairs(player_ids@, game_id, tokens@)[k],
                forall|k: int|
                    0 <= k < i ==> player_tokens@[k] == token_entries(player_ids@, tokens@)[k],
            decreases player_ids.len() - i,
        {
            let player_id = player_ids[i];
            let token = tokens[i];
            pending.push((token, PendingPlayer { player_id, game_id }));
            player_tokens.push(PlayerTokenEntry { player_id, token });
            i += 1;
        }
        proof {
            let pairs = token_pairs(player_ids@, game_id, tokens@);
            assert(pending@ =~= pairs);
            assert(player_tokens@ =~= token_entries(player_ids@, tokens@));
            assert(tokens_of(pairs) =~= tokens@);
            if old(self)@.wf() {
                lemma_register_all_wf(old(self)@.pending, pairs);
            }
        }
        let stale_pending_players = self.pending_players.register(pending);
        let new_session = self.games.register(game);
        Ok(
            CreateGameOutcome {
                response: CreateGameResponse::Accept(
                    PacketControllerCreateGameAccept { game_id, player_tokens },
                ),
                stale_pending_players,
                new_session,
            },
        )
    }

    /// Handles a create-game request: mints one token for each bound player
    /// and runs the protocol with them.
    ///
    /// Which tokens are minted is left to the random generator, so the
    /// contract names them only by `exists`. The three rejections of the
    /// protocol do not depend on them and are stated outright.
    pub fn handle_controller_create_game(&mut self, packet: PacketControllerCreateGame) -> (result:
        Result<CreateGameOutcome>)
        ensures
            packet.game is None ==> result_view(result) == Err::<CreateGameOutcomeView, Error>(
                Error::PacketFieldNotPresent,
            ) && final(self)@ == old(self)@,
            packet.game matches Some(game) ==> exists|tokens: Seq<PlayerToken>|
                {
                    &&& tokens.len() == bound_players(game.slots@).len()
                    &&& result_view(result) == (#[trigger] old(self)@.create_game(
                        game.id,
                        game.slots@,
                        tokens,
                    )).result
                    &&& final(self)@ == old(self)@.create_game(game.id, game.slots@, tokens).store
                },
            packet.game matches Some(game) ==> {
                let players = bound_players(game.slots@);
                &&& players.len() == 0 ==> result_view(result) == Err::<
                    CreateGameOutcomeView,
                    Error,
                >(Error::NoPlayer) && final(self)@ == old(self)@
                &&& players.len() > 0 ==> match old(self)@.first_busy(players) {
                    Some(id) => result_view(result) == Err::<CreateGameOutcomeView, Error>(
                        Error::PlayerBusy(id),
                    ) && final(self)@ == old(self)@,
                    None => game_exists(old(self)@.games, game.id) ==> result_view(result) == Ok::<
                        CreateGameOutcomeView,
                        Error,
                    >(SessionStoreView::reject_outcome(game.id)) && final(self)@ == old(self)@,
                }
            },
            old(self)@.wf() ==> final(self)@.wf(),
    {
        let game = match packet.game {
            Some(game) => game,
            None => {
                return Err(Error::PacketFieldNotPresent);
            },
        };
        let count = collect_bound_players(&game.slots).len();
        let tokens = mint_tokens(count);
        self.create_game_with_tokens(game, tokens)
    }

    /// The extension point for a connecting client; it does nothing yet.
    pub fn handle_client_connect() {
    }

    /// The pending record that `token` authorises, if the token is outstanding.
    pub fn pending_player(&self, token: &PlayerToken) -> (player: Option<PendingPlayer>)
        ensures
            player == if self@.pending.tokens.contains_key(token@) {
                Some(self@.pending.tokens[token@])
            } else {
                None
            },
    {
        self.pending_players.get(token)
    }

    /// The token that `player_id` holds, if any.
    pub fn player_token(&self, player_id: i32) -> (token: Option<PlayerToken>)
        ensures
            token == if self@.pending.by_player.contains_key(player_id) {
                Some(PlayerToken { value: self@.pending.by_player[player_id] })
            } else {
                None
            },
    {
        self.pending_players.token_of(player_id)
    }

    /// The status of the session `game_id`, if there is one.
    pub fn game_status(&self, game_id: i32) -> (status: Option<GameStatus>)
        ensures
            status == if self@.games.contains_key(game_id) {
                Some(self@.games[game_id].status)
            } else {
                None
            },
    {
        self.games.status_of(game_id)
    }

    /// Moves the session `game_id` to `status` and tells whether there is such a session.
    pub fn set_game_status(&mut self, game_id: i32, status: GameStatus) -> (found: bool)
        ensures
            found == old(self)@.games.contains_key(game_id),
            found ==> final(self)@ == (SessionStoreView {
                games: old(self)@.games.insert(
                    game_id,
                    (GameSessionView { status, ..old(self)@.games[game_id] }),
                ),
                ..old(self)@
            }),
            !found ==> final(self)@ == old(self)@,
            old(self)@.wf() ==> final(self)@.wf(),
    {
        self.games.set_status(game_id, status)
    }

    /// Tells whether `player_id` has a live connection.
    pub fn is_connected(&self, player_id: i32) -> (connected: bool)
        ensures
            connected == self@.connected.contains_key(player_id),
    {
        self.connected_players.contains_key(&player_id)
    }

    /// Enters `player` among the connected players, under its identifier, and
    /// hands back the connection it replaces.
    pub fn insert_connected_player(&mut self, player: ConnectedPlayer) -> (previous: Option<
        ConnectedPlayer,
    >)
        ensures
            final(self)@ == (SessionStoreView {
                connected: old(self)@.connected.insert(player.player_id, player),
                ..old(self)@
            }),
            previous == if old(self)@.connected.contains_key(player.player_id) {
                Some(old(self)@.connected[player.player_id])
            } else {
                None
            },
            old(self)@.wf() ==> final(self)@.wf(),
    {
        self.connected_players.insert(player.player_id, player)
    }

    /// Takes `player_id` out of the connected players and hands back its connection.
    pub fn remove_connected_player(&mut self, player_id: i32) -> (removed: Option<ConnectedPlayer>)
        ensures
            final(self)@ == (SessionStoreView {
                connected: old(self)@.connected.remove(player_id),
                ..old(self)@
            }),
            removed == if old(self)@.connected.contains_key(player_id) {
                Some(old(self)@.connected[player_id])
            } else {
                None
            },
            old(self)@.wf() ==> final(self)@.wf(),
    {
        self.connected_players.remove(&player_id)
    }
}

} // verus!
