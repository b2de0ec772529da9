use flo_core::lobby::connect::{
    Action, ConnectionLoop, Event, Frame, InboundFrame, LockedPlayerState,
    PacketPlayerSessionUpdate, Phase, PlayerInfo, PlayerSenderMessage, PlayerStatus,
    PING_INTERVAL_SECS, PING_TIMEOUT_SECS,
};

fn player() -> PlayerInfo {
    PlayerInfo {
        id: 7,
        name: "tester".to_string(),
        source: 1,
    }
}

fn started(joined_game_id: Option<i32>) -> ConnectionLoop {
    let mut conn = ConnectionLoop::new();
    conn.handle_stream(Event::Started {
        player: player(),
        joined_game_id,
    });
    conn
}

fn ping_sent(elapsed_ms: u32) -> ConnectionLoop {
    let mut conn = started(None);
    conn.handle_stream(Event::TimerFired { elapsed_ms });
    conn
}

fn frame(type_id: u8) -> Frame {
    Frame {
        type_id,
        payload: vec![type_id, 1, 2],
    }
}

fn is_send(action: &Action) -> bool {
    matches!(
        action,
        Action::SendSession(_)
            | Action::SendGameInfo { .. }
            | Action::SendPing { .. }
            | Action::SendFrame(_)
            | Action::SendFrames(_)
    )
}

#[test]
fn intervals_are_thirty_and_five_seconds() {
    assert_eq!(PING_INTERVAL_SECS, 30);
    assert_eq!(PING_TIMEOUT_SECS, 5);
}

#[test]
fn idle_player_gets_the_session_snapshot_only() {
    let mut conn = ConnectionLoop::new();
    assert_eq!(conn.phase(), Phase::Connected);
    let actions = conn.handle_stream(Event::Started {
        player: player(),
        joined_game_id: None,
    });
    assert_eq!(conn.phase(), Phase::AwaitingPingInterval);
    assert_eq!(actions.len(), 1);
    match &actions[0] {
        Action::SendSession(session) => {
            assert_eq!(session.player.id, 7);
            assert_eq!(session.player.name, "tester");
            assert_eq!(session.player.source, 1);
            assert_eq!(session.status, PlayerStatus::Idle);
            assert_eq!(session.game_id, None);
        }
        other => panic!("unexpected action: {:?}", other),
    }
}

#[test]
fn player_in_game_gets_session_then_game_info() {
    let mut conn = ConnectionLoop::new();
    let actions = conn.handle_stream(Event::Started {
        player: player(),
        joined_game_id: Some(42),
    });
    assert_eq!(actions.len(), 2);
    match &actions[0] {
        Action::SendSession(session) => {
            assert_eq!(session.status, PlayerStatus::InGame);
            assert_eq!(session.game_id, Some(42));
        }
        other => panic!("unexpected action: {:?}", other),
    }
    assert!(matches!(actions[1], Action::SendGameInfo { game_id: 42 }));
}

#[test]
fn timer_sends_a_stamped_ping_and_arms_the_timeout() {
    let mut conn = started(None);
    let actions = conn.handle_stream(Event::TimerFired { elapsed_ms: 30_000 });
    assert_eq!(conn.phase(), Phase::PingSent);
    assert_eq!(actions.len(), 2);
    assert!(matches!(actions[0], Action::SendPing { ms: 30_000 }));
    assert!(matches!(actions[1], Action::ArmPingTimeout));
}

#[test]
fn pong_in_time_reports_the_round_trip() {
    let mut conn = ping_sent(30_000);
    let actions = conn.handle_stream(Event::InboundReady {
        frame: InboundFrame::Pong { ms: 30_000 },
        elapsed_ms: 30_120,
    });
    assert_eq!(conn.phase(), Phase::AwaitingPingInterval);
    assert_eq!(actions.len(), 2);
    assert!(matches!(actions[0], Action::CancelPingTimeout));
    assert!(matches!(actions[1], Action::ReportLatency { ms: 120 }));
}

#[test]
fn pong_with_timestamp_ahead_of_the_clock_reports_zero() {
    // The echo is three milliseconds ahead of the clock's reading.
    let mut conn = ping_sent(30_000);
    let actions = conn.handle_stream(Event::InboundReady {
        frame: InboundFrame::Pong { ms: 30_000 },
        elapsed_ms: 29_997,
    });
    assert_eq!(conn.phase(), Phase::AwaitingPingInterval);
    assert!(matches!(actions[0], Action::CancelPingTimeout));
    assert!(matches!(actions[1], Action::ReportLatency { ms: 0 }));
    assert_eq!(ConnectionLoop::latency_ms(29_997, 30_000), 0);
    assert_eq!(ConnectionLoop::latency_ms(0, u32::MAX), 0);
    assert_eq!(ConnectionLoop::latency_ms(30_000, 29_997), 3);
    assert_eq!(ConnectionLoop::latency_ms(u32::MAX, 0), u32::MAX);
    assert_eq!(ConnectionLoop::latency_ms(5, 5), 0);
}

#[test]
fn unanswered_ping_times_out() {
    let mut conn = ping_sent(30_000);
    let actions = conn.handle_stream(Event::TimeoutSignaled);
    assert!(actions.is_empty());
    assert_eq!(conn.phase(), Phase::TimedOut);
    assert!(conn.is_terminated());
}

#[test]
fn timeout_after_an_inbound_frame_is_ignored() {
    let mut conn = ping_sent(30_000);
    let actions = conn.handle_stream(Event::InboundReady {
        frame: InboundFrame::Other,
        elapsed_ms: 30_001,
    });
    assert_eq!(actions.len(), 1);
    assert!(matches!(actions[0], Action::CancelPingTimeout));
    let actions = conn.handle_stream(Event::TimeoutSignaled);
    assert!(actions.is_empty());
    assert_eq!(conn.phase(), Phase::AwaitingPingInterval);
    assert!(!conn.is_terminated());
}

#[test]
fn broken_sender_while_idle_ends_the_loop_without_sending() {
    let mut conn = started(None);
    let actions = conn.handle_stream(Event::OutboundReady(PlayerSenderMessage::Broken));
    assert!(actions.is_empty());
    assert_eq!(conn.phase(), Phase::SenderBroken);
    assert!(conn.is_terminated());
    // Nothing is sent afterwards either.
    let actions = conn.handle_stream(Event::OutboundReady(PlayerSenderMessage::Frame(frame(3))));
    assert!(actions.is_empty());
    let actions = conn.handle_stream(Event::TimerFired { elapsed_ms: 1 });
    assert!(actions.is_empty());
    assert_eq!(conn.phase(), Phase::SenderBroken);
}

#[test]
fn broken_sender_while_a_ping_is_out_cancels_the_timeout() {
    let mut conn = ping_sent(10);
    let actions = conn.handle_stream(Event::OutboundReady(PlayerSenderMessage::Broken));
    assert_eq!(actions.len(), 1);
    assert!(matches!(actions[0], Action::CancelPingTimeout));
    assert!(!actions.iter().any(is_send));
    assert_eq!(conn.phase(), Phase::SenderBroken);
}

#[test]
fn outbound_frames_are_passed_on() {
    let mut conn = started(None);
    let actions = conn.handle_stream(Event::OutboundReady(PlayerSenderMessage::Frame(frame(9))));
    assert_eq!(conn.phase(), Phase::AwaitingPingInterval);
    assert_eq!(actions.len(), 1);
    match &actions[0] {
        Action::SendFrame(f) => {
            assert_eq!(f.type_id, 9);
            assert_eq!(f.payload, vec![9, 1, 2]);
        }
        other => panic!("unexpected action: {:?}", other),
    }
    let actions = conn.handle_stream(Event::OutboundReady(PlayerSenderMessage::Frames(vec![
        frame(1),
        frame(2),
    ])));
    assert_eq!(actions.len(), 1);
    match &actions[0] {
        Action::SendFrames(frames) => {
            assert_eq!(frames.len(), 2);
            assert_eq!(frames[0].type_id, 1);
            assert_eq!(frames[1].type_id, 2);
        }
        other => panic!("unexpected action: {:?}", other),
    }
}

#[test]
fn failures_end_the_loop() {
    let mut conn = started(None);
    assert!(conn.handle_stream(Event::SendFailed).is_empty());
    assert_eq!(conn.phase(), Phase::SendFailed);

    let mut conn = started(None);
    assert!(conn.handle_stream(Event::InboundFailed).is_empty());
    assert_eq!(conn.phase(), Phase::PeerClosed);

    let mut conn = started(None);
    assert!(conn.handle_stream(Event::OutboundClosed).is_empty());
    assert_eq!(conn.phase(), Phase::SenderBroken);

    let mut conn = ConnectionLoop::new();
    assert!(conn.handle_stream(Event::SendFailed).is_empty());
    assert_eq!(conn.phase(), Phase::SendFailed);
}

#[test]
fn nothing_but_start_moves_a_fresh_connection() {
    let mut conn = ConnectionLoop::new();
    assert!(conn.handle_stream(Event::TimerFired { elapsed_ms: 5 }).is_empty());
    assert!(conn.handle_stream(Event::TimeoutSignaled).is_empty());
    assert!(conn
        .handle_stream(Event::InboundReady {
            frame: InboundFrame::Pong { ms: 1 },
            elapsed_ms: 2,
        })
        .is_empty());
    assert_eq!(conn.phase(), Phase::Connected);
}

#[test]
fn session_update_follows_the_joined_game() {
    let idle = LockedPlayerState {
        player_id: 1,
        joined_game_id: None,
    };
    assert_eq!(idle.joined_game_id(), None);
    assert_eq!(
        idle.get_session_update(),
        PacketPlayerSessionUpdate {
            status: PlayerStatus::Idle,
            game_id: None,
        }
    );
    let in_game = LockedPlayerState {
        player_id: 1,
        joined_game_id: Some(12),
    };
    assert_eq!(
        in_game.get_session_update(),
        PacketPlayerSessionUpdate {
            status: PlayerStatus::InGame,
            game_id: Some(12),
        }
    );
}
