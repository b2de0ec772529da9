use vstd::prelude::*;

verus! {

/// Seconds of silence on the timer before a ping is sent.
pub const PING_INTERVAL_SECS: u64 = 30;

/// Seconds that the peer has to send anything after a ping.
pub const PING_TIMEOUT_SECS: u64 = 5;

/// One frame of the control protocol, carried through as it is.
#[derive(Clone, Debug)]
pub struct Frame {
    pub type_id: u8,
    pub payload: Vec<u8>,
}

/// What other parts of the system hand to a player's connection.
#[derive(Clone, Debug)]
pub enum PlayerSenderMessage {
    Frame(Frame),
    Frames(Vec<Frame>),
    /// The player's sender was invalidated elsewhere: the connection must close.
    Broken,
}

/// What the connection needs to know of a frame that came in.
#[derive(Clone, Copy, Debug, PartialEq, Eq, Structural)]
pub enum InboundFrame {
    /// A pong with the timestamp it echoes, in milliseconds.
    Pong { ms: u32 },
    /// Any other frame; it is handled elsewhere.
    Other,
}

/// Whether a player sits in a game.
#[derive(Clone, Copy, Debug, PartialEq, Eq, Structural)]
pub enum PlayerStatus {
    Idle,
    InGame,
}

/// Who a player is.
#[derive(Clone, Debug)]
pub struct PlayerInfo {
    pub id: i32,
    pub name: String,
    pub source: i32,
}

/// The session snapshot sent to a player that has just connected.
#[derive(Clone, Debug)]
pub struct Session {
    pub player: PlayerInfo,
    pub status: PlayerStatus,
    pub game_id: Option<i32>,
}

/// The change of a player's session that is pushed to the player.
#[derive(Clone, Copy, Debug, PartialEq, Eq, Structural)]
pub struct PacketPlayerSessionUpdate {
    pub status: PlayerStatus,
    pub game_id: Option<i32>,
}

/// The status that goes with a joined game, or with none.
pub open spec fn status_of(game_id: Option<i32>) -> PlayerStatus {
    if game_id is Some {
        PlayerStatus::InGame
    } else {
        PlayerStatus::Idle
    }
}

/// A player's state in the lobby, as its holder sees it.
#[derive(Clone, Copy, Debug, PartialEq, Eq, Structural)]
pub struct LockedPlayerState {
    pub player_id: i32,
    pub joined_game_id: Option<i32>,
}

impl LockedPlayerState {
    pub fn joined_game_id(&self) -> (game_id: Option<i32>)
        ensures
            game_id == self.joined_game_id,
    {
        self.joined_game_id
    }

    /// The session update for the player: `InGame` with the game's identifier
    /// where the player has joined one, `Idle` without one otherwise.
    pub fn get_session_update(&self) -> (update: PacketPlayerSessionUpdate)
        ensures
            update == (PacketPlayerSessionUpdate {
                status: status_of(self.joined_game_id),
                game_id: self.joined_game_id,
            }),
    {
        let game_id = self.joined_game_id();
        PacketPlayerSessionUpdate {
            status: if game_id.is_some() {
                PlayerStatus::InGame
            } else {
                PlayerStatus::Idle
            },
            game_id,
        }
    }
}

/// The round trip that a pong shows: the clock's reading less the echoed
/// timestamp, and zero where the echo is ahead of the clock.
pub open spec fn latency(elapsed_ms: u32, echoed_ms: u32) -> u32 {
    if elapsed_ms >= echoed_ms {
        (elapsed_ms - echoed_ms) as u32
    } else {
        0
    }
}

/// Where a connection stands.
#[derive(Clone, Copy, Debug, PartialEq, Eq, Structural)]
pub enum Phase {
    /// Accepted; the initial state has not been sent yet.
    Connected,
    /// Waiting for the ping timer.
    AwaitingPingInterval,
    /// A ping is out and its timeout is armed.
    PingSent,
    /// Nothing came in after a ping. Terminal.
    TimedOut,
    /// A send on the wire failed. Terminal.
    SendFailed,
    /// The inbound stream failed or the peer closed it. Terminal.
    PeerClosed,
    /// The player's sender is broken or gone. Terminal.
    SenderBroken,
}

impl Phase {
    pub open spec fn is_terminal(self) -> bool {
        self == Phase::TimedOut || self == Phase::SendFailed || self == Phase::PeerClosed || self
            == Phase::SenderBroken
    }
}

/// What happened on one of the connection's sources.
#[derive(Clone, Debug)]
pub enum Event {
    /// The player's record and joined game were read; the loop may start.
    Started { player: PlayerInfo, joined_game_id: Option<i32> },
    /// The ping timer fired; the connection's clock reads `elapsed_ms`.
    TimerFired { elapsed_ms: u32 },
    /// The ping timeout ran out.
    TimeoutSignaled,
    /// A message was taken from the outbound queue.
    OutboundReady(PlayerSenderMessage),
    /// The outbound queue has no producer left.
    OutboundClosed,
    /// A frame came in; the connection's clock reads `elapsed_ms`.
    InboundReady { frame: InboundFrame, elapsed_ms: u32 },
    /// The inbound stream failed or ended.
    InboundFailed,
    /// A send asked for by an earlier step failed.
    SendFailed,
}

/// What the runtime is asked to do, in the order given.
#[derive(Clone, Debug)]
pub enum Action {
    /// Send the session snapshot.
    SendSession(Session),
    /// Send the full snapshot of the game `game_id`.
    SendGameInfo { game_id: i32 },
    /// Send a ping stamped `ms`.
    SendPing { ms: u32 },
    /// Arm the ping timeout.
    ArmPingTimeout,
    /// Cancel the armed ping timeout.
    CancelPingTimeout,
    SendFrame(Frame),
    SendFrames(Vec<Frame>),
    /// Report the round trip of a pong, in milliseconds.
    ReportLatency { ms: u32 },
}

impl Action {
    /// Whether the action puts anything on the wire.
    pub open spec fn is_send(self) -> bool {
        self is SendSession || self is SendGameInfo || self is SendPing || self is SendFrame
            || self is SendFrames
    }
}

/// The session snapshot of a player.
pub open spec fn session_of(player: PlayerInfo, joined_game_id: Option<i32>) -> Session {
    Session { player, status: status_of(joined_game_id), game_id: joined_game_id }
}

/// What is sent before the loop starts: the session snapshot and, for a
/// player in a game, the game's snapshot after it.
pub open spec fn initial_actions(player: PlayerInfo, joined_game_id: Option<i32>) -> Seq<Action> {
    let session = seq![Action::SendSession(session_of(player, joined_game_id))];
    match joined_game_id {
        Some(game_id) => session.push(Action::SendGameInfo { game_id }),
        None => session,
    }
}

/// The armed timeout is cancelled on the way out of `PingSent`.
pub open spec fn cancel_actions(phase: Phase) -> Seq<Action> {
    if phase == Phase::PingSent {
        seq![Action::CancelPingTimeout]
    } else {
        Seq::empty()
    }
}

/// The phase after `event` in `phase`.
pub open spec fn next_phase(phase: Phase, event: Event) -> Phase {
    if phase.is_terminal() {
        phase
    } else {
        match event {
            Event::SendFailed => Phase::SendFailed,
            Event::InboundFailed => Phase::PeerClosed,
            Event::OutboundClosed => Phase::SenderBroken,
            Event::OutboundReady(PlayerSenderMessage::Broken) => Phase::SenderBroken,
            Event::Started { .. } => if phase == Phase::Connected {
                Phase::AwaitingPingInterval
            } else {
                phase
            },
            Event::TimerFired { .. } => if phase == Phase::Connected {
                phase
            } else {
                Phase::PingSent
            },
            Event::TimeoutSignaled => if phase == Phase::PingSent {
                Phase::TimedOut
            } else {
                phase
            },
            Event::OutboundReady(_) => phase,
            Event::InboundReady { .. } => if phase == Phase::Connected {
                phase
            } else {
                Phase::AwaitingPingInterval
            },
        }
    }
}

/// What the runtime is asked to do after `event` in `phase`.
pub open spec fn next_actions(phase: Phase, event: Event) -> Seq<Action> {
    if phase.is_terminal() {
        Seq::empty()
    } else {
        match event {
            Event::SendFailed | Event::InboundFailed | Event::OutboundClosed => cancel_actions(
                phase,
            ),
            Event::OutboundReady(PlayerSenderMessage::Broken) => cancel_actions(phase),
            Event::Started { player, joined_game_id } => if phase == Phase::Connected {
                initial_actions(player, joined_game_id)
            } else {
                Seq::empty()
            },
            Event::TimerFired { elapsed_ms } => if phase == Phase::Connected {
                Seq::empty()
            } else {
                seq![Action::SendPing { ms: elapsed_ms }, Action::ArmPingTimeout]
            },
            Event::TimeoutSignaled => Seq::empty(),
            Event::OutboundReady(PlayerSenderMessage::Frame(frame)) => if phase
                == Phase::Connected {
                Seq::empty()
            } else {
                seq![Action::SendFrame(frame)]
            },
            Event::OutboundReady(PlayerSenderMessage::Frames(frames)) => if phase
                == Phase::Connected {
                Seq::empty()
            } else {
                seq![Action::SendFrames(frames)]
            },
            Event::InboundReady { frame, elapsed_ms } => if phase == Phase::Connected {
                Seq::empty()
            } else {
                match frame {
                    InboundFrame::Pong { ms } => cancel_actions(phase).push(
                        Action::ReportLatency { ms: latency(elapsed_ms, ms) },
                    ),
                    InboundFrame::Other => cancel_actions(phase),
                }
            },
        }
    }
}

/// The state machine of one player's control connection. The runtime feeds
/// it the events of its four sources in the order in which they arrive and
/// carries out the actions it answers with.
#[derive(Clone, Copy, Debug)]
pub struct ConnectionLoop {
    phase: Phase,
}

impl ConnectionLoop {
    pub closed spec fn spec_phase(&self) -> Phase {
        self.phase
    }

    /// A connection that was just accepted.
    pub fn new() -> (conn: Self)
        ensures
            conn.phase() == Phase::Connected,
    {
        ConnectionLoop { phase: Phase::Connected }
    }

    #[verifier::when_used_as_spec(spec_phase)]
    pub fn phase(&self) -> (phase: Phase)
        ensures
            phase == self.spec_phase(),
    {
        self.phase
    }

    /// Whether the loop has ended and the connection is to be torn down.
    pub fn is_terminated(&self) -> (terminated: bool)
        ensures
            terminated == self.phase().is_terminal(),
    {
        match self.phase {
            Phase::TimedOut | Phase::SendFailed | Phase::PeerClosed | Phase::SenderBroken => true,
            _ => false,
        }
    }

    /// The round trip that a pong shows, saturating at zero.
    pub fn latency_ms(elapsed_ms: u32, echoed_ms: u32) -> (ms: u32)
        ensures
            ms == latency(elapsed_ms, echoed_ms),
    {
        if elapsed_ms >= echoed_ms {
            elapsed_ms - echoed_ms
        } else {
            0
        }
    }

    /// What is sent to a player that has just connected.
    pub fn send_initial_state(player: PlayerInfo, joined_game_id: Option<i32>) -> (actions: Vec<
        Action,
    >)
        ensures
            actions@ == initial_actions(player, joined_game_id),
    {
        let mut actions: Vec<Action> = Vec::new();
        let status = if joined_game_id.is_some() {
            PlayerStatus::InGame
        } else {
            PlayerStatus::Idle
        };
        actions.push(Action::SendSession(Session { player, status, game_id: joined_game_id }));
        if let Some(game_id) = joined_game_id {
            actions.push(Action::SendGameInfo { game_id });
        }
        assert(actions@ =~= initial_actions(player, joined_game_id));
        actions
    }

    /// The actions that cancel what is armed in the current phase.
    fn cancel_pending(&self) -> (actions: Vec<Action>)
        ensures
            actions@ == cancel_actions(self.phase()),
    {
        let mut actions: Vec<Action> = Vec::new();
        if self.phase == Phase::PingSent {
            actions.push(Action::CancelPingTimeout);
        }
        assert(actions@ =~= cancel_actions(self.phase()));
        actions
    }

    /// Takes one event and answers with the actions to carry out, in order.
    ///
    /// A terminal phase stays and asks for nothing. Before the loop has
    /// started only `Started` and the failures count. A timer event sends a
    /// ping and arms the timeout; any inbound frame cancels an armed timeout,
    /// and a pong also has its round trip reported; the timeout ends the
    /// loop only while a ping is out.
    pub fn handle_stream(&mut self, event: Event) -> (actions: Vec<Action>)
        ensures
            final(self).phase() == next_phase(old(self).phase(), event),
            actions@ == next_actions(old(self).phase(), event),
    {
        if self.is_terminated() {
            return Vec::new();
        }
        let started = self.phase != Phase::Connected;
        match event {
            Event::SendFailed => {
                let actions = self.cancel_pending();
                self.phase = Phase::SendFailed;
                actions
            },
            Event::InboundFailed => {
                let actions = self.cancel_pending();
                self.phase = Phase::PeerClosed;
                actions
            },
            Event::OutboundClosed => {
                let actions = self.cancel_pending();
                self.phase = Phase::SenderBroken;
                actions
            },
            Event::OutboundReady(PlayerSenderMessage::Broken) => {
                let actions = self.cancel_pending();
                self.phase = Phase::SenderBroken;
                actions
            },
            Event::Started { player, joined_game_id } => {
                if started {
                    Vec::new()
                } else {
                    self.phase = Phase::AwaitingPingInterval;
                    Self::send_initial_state(player, joined_game_id)
                }
            },
            Event::TimerFired { elapsed_ms } => {
                let mut actions: Vec<Action> = Vec::new();
                if started {
                    actions.push(Action::SendPing { ms: elapsed_ms });
                    actions.push(Action::ArmPingTimeout);
                    self.phase = Phase::PingSent;
                }
                assert(actions@ =~= next_actions(old(self).phase(), event));
                actions
            },
            Event::TimeoutSignaled => {
                if self.phase == Phase::PingSent {
                    self.phase = Phase::TimedOut;
                }
                Vec::new()
            },
            Event::OutboundReady(PlayerSenderMessage::Frame(frame)) => {
                let mut actions: Vec<Action> = Vec::new();
                if started {
                    actions.push(Action::SendFrame(frame));
                }
                assert(actions@ =~= next_actions(old(self).phase(), event));
                actions
            },
            Event::OutboundReady(PlayerSenderMessage::Frames(frames)) => {
                let mut actions: Vec<Action> = Vec::new();
                if started {
                    actions.push(Action::SendFrames(frames));
                }
                assert(actions@ =~= next_actions(old(self).phase(), event));
                actions
            },
            Event::InboundReady { frame, elapsed_ms } => {
                if started {
                    let mut actions = self.cancel_pending();
                    if let InboundFrame::Pong { ms } = frame {
                        actions.push(Action::ReportLatency { ms: Self::latency_ms(elapsed_ms, ms) });
                    }
                    self.phase = Phase::AwaitingPingInterval;
                    actions
                } else {
                    Vec::new()
                }
            },
        }
    }
}

} // verus!
