use vstd::prelude::*;

verus! {

/// The sixteen bytes of a token value, most significant first.
pub open spec fn token_bytes(value: u128) -> Seq<u8> {
    Seq::new(16, |i: int| ((value >> ((8 * (15 - i)) as u128)) & 0xff) as u8)
}

/// Draws sixteen random bytes from `rand::random`, the thread-local generator
/// of the `rand` crate. Nothing is claimed of the value: every `u128` may come
/// back. The call panics where the operating system has no entropy to seed
/// the generator with.
#[verifier::external_body]
fn random_u128() -> u128 {
    rand::random::<u128>()
}

/// An opaque credential that lets one player complete a connection to one game.
#[derive(Clone, Copy, Debug, PartialEq, Eq, Structural, Hash)]
pub struct PlayerToken {
    pub value: u128,
}

impl View for PlayerToken {
    type V = u128;

    open spec fn view(&self) -> u128 {
        self.value
    }
}

impl PlayerToken {
    /// Mints a token from the random generator.
    pub fn new() -> (token: Self) {
        PlayerToken { value: random_u128() }
    }

    /// The token that holds exactly `value`.
    pub fn from_value(value: u128) -> (token: Self)
        ensures
            token@ == value,
    {
        PlayerToken { value }
    }

    /// The token on the wire: sixteen bytes, most significant first.
    pub fn to_vec(&self) -> (bytes: Vec<u8>)
        ensures
            bytes@ == token_bytes(self@),
    {
        let mut bytes: Vec<u8> = Vec::new();
        let mut i: u32 = 0;
        while i < 16
            invariant
                i <= 16,
                bytes@.len() == i,
                forall|k: int| 0 <= k < i ==> bytes@[k] == token_bytes(self@)[k],
            decreases 16 - i,
        {
            let shift: u32 = 8 * (15 - i);
            let byte: u8 = ((self.value >> (shift as u128)) & 0xff) as u8;
            bytes.push(byte);
            i += 1;
        }
        assert(bytes@ =~= token_bytes(self@));
        bytes
    }
}

/// A player that holds a token and has not connected yet.
#[derive(Clone, Copy, Debug, PartialEq, Eq, Structural)]
pub struct PendingPlayer {
    pub player_id: i32,
    pub game_id: i32,
}

/// A player with a live connection, named by the connection's handle.
#[derive(Clone, Copy, Debug, PartialEq, Eq, Structural)]
pub struct ConnectedPlayer {
    pub player_id: i32,
    pub connection: u64,
}

/// Where a game session stands in its life.
#[derive(Clone, Copy, Debug, PartialEq, Eq, Structural)]
pub enum GameStatus {
    Created,
    Waiting,
    Running,
    Ended,
}

/// The player bound to a slot.
#[derive(Clone, Copy, Debug, PartialEq, Eq, Structural)]
pub struct GamePlayer {
    pub player_id: i32,
}

/// One slot of a game; it may or may not have a player bound to it.
#[derive(Clone, Copy, Debug, PartialEq, Eq, Structural)]
pub struct GameSlot {
    pub player: Option<GamePlayer>,
}

/// A game descriptor as a controller sends it.
#[derive(Clone, Debug)]
pub struct Game {
    pub id: i32,
    pub slots: Vec<GameSlot>,
}

/// The create-game request of a controller.
#[derive(Clone, Debug)]
pub struct PacketControllerCreateGame {
    pub game: Option<Game>,
}

/// The players bound to the slots, in slot order.
pub open spec fn bound_players(slots: Seq<GameSlot>) -> Seq<i32>
    decreases slots.len(),
{
    if slots.len() == 0 {
        Seq::empty()
    } else {
        let before = bound_players(slots.drop_last());
        match slots.last().player {
            Some(p) => before.push(p.player_id),
            None => before,
        }
    }
}

/// What a game session is, as a mathematical value.
pub struct GameSessionView {
    pub game_id: i32,
    pub status: GameStatus,
    pub slots: Seq<GameSlot>,
}

/// The authoritative state of one game.
#[derive(Debug)]
pub struct GameSession {
    game_id: i32,
    status: GameStatus,
    slots: Vec<GameSlot>,
}

impl View for GameSession {
    type V = GameSessionView;

    closed spec fn view(&self) -> GameSessionView {
        GameSessionView { game_id: self.game_id, status: self.status, slots: self.slots@ }
    }
}

impl GameSession {
    /// The session that a descriptor starts: same identifier and slots, status `Created`.
    pub open spec fn created(id: i32, slots: Seq<GameSlot>) -> GameSessionView {
        GameSessionView { game_id: id, status: GameStatus::Created, slots }
    }

    pub fn new(game: Game) -> (session: Self)
        ensures
            session@ == Self::created(game.id, game.slots@),
    {
        GameSession { game_id: game.id, status: GameStatus::Created, slots: game.slots }
    }

    pub fn game_id(&self) -> (id: i32)
        ensures
            id == self@.game_id,
    {
        self.game_id
    }

    pub fn status(&self) -> (status: GameStatus)
        ensures
            status == self@.status,
    {
        self.status
    }

    /// The players bound to this session's slots, in slot order.
    pub fn player_ids(&self) -> (ids: Vec<i32>)
        ensures
            ids@ == bound_players(self@.slots),
    {
        collect_bound_players(&self.slots)
    }

    /// Moves the session to `status`; everything else stays.
    pub fn set_status(&mut self, status: GameStatus)
        ensures
            final(self)@ == (GameSessionView { status, ..old(self)@ }),
    {
        self.status = status;
    }
}

/// Collects the players bound to `slots`, in slot order.
pub fn collect_bound_players(slots: &Vec<GameSlot>) -> (ids: Vec<i32>)
    ensures
        ids@ == bound_players(slots@),
{
    let mut ids: Vec<i32> = Vec::new();
    let mut i: usize = 0;
    while i < slots.len()
        invariant
            i <= slots.len(),
            ids@ == bound_players(slots@.take(i as int)),
        decreases slots.len() - i,
    {
        proof {
            assert(slots@.take(i + 1).drop_last() =~= slots@.take(i as int));
        }
        if let Some(p) = slots[i].player {
            ids.push(p.player_id);
        }
        i += 1;
    }
    proof {
        assert(slots@.take(i as int) =~= slots@);
    }
    ids
}

} // verus!
