use vstd::prelude::*;
use crate::lobby::connect::{
    latency, next_actions, next_phase, Action, Event, Phase, PlayerSenderMessage,
};

verus! {

/// A terminal phase is final: every event leaves it as it is and asks for nothing.
pub proof fn lemma_terminal_is_final(phase: Phase, event: Event)
    requires
        phase.is_terminal(),
    ensures
        next_phase(phase, event) == phase,
        next_actions(phase, event) == Seq::<Action>::empty(),
{
}

/// Only the ping timer arms a timeout, and it does so together with a ping
/// stamped with the clock's reading; the connection is then in `PingSent`.
pub proof fn lemma_only_timer_arms_timeout(phase: Phase, event: Event, i: int)
    requires
        0 <= i < next_actions(phase, event).len(),
        next_actions(phase, event)[i] == Action::ArmPingTimeout,
    ensures
        event is TimerFired,
        next_phase(phase, event) == Phase::PingSent,
        next_actions(phase, event) == seq![
            Action::SendPing { ms: event->TimerFired_elapsed_ms },
            Action::ArmPingTimeout,
        ],
{
}

/// The loop ends in `TimedOut` exactly when the timeout runs out while a ping is out.
pub proof fn lemma_timed_out_iff_unanswered_ping(phase: Phase, event: Event)
    requires
        phase != Phase::TimedOut,
    ensures
        next_phase(phase, event) == Phase::TimedOut <==> phase == Phase::PingSent
            && event is TimeoutSignaled,
        phase == Phase::PingSent && event is TimeoutSignaled ==> next_actions(phase, event)
            == Seq::<Action>::empty(),
{
}

/// A timeout that runs out while no ping is out changes nothing.
pub proof fn lemma_stray_timeout_is_ignored(phase: Phase)
    requires
        phase != Phase::PingSent,
    ensures
        next_phase(phase, Event::TimeoutSignaled) == phase,
        next_actions(phase, Event::TimeoutSignaled) == Seq::<Action>::empty(),
{
}

/// Any frame that comes in while a ping is out cancels the timeout first and
/// brings the connection back to waiting for the timer, whatever the frame is.
pub proof fn lemma_inbound_frame_cancels_timeout(event: Event)
    requires
        event is InboundReady,
    ensures
        next_phase(Phase::PingSent, event) == Phase::AwaitingPingInterval,
        next_actions(Phase::PingSent, event).len() > 0,
        next_actions(Phase::PingSent, event)[0] == Action::CancelPingTimeout,
{
}

/// A broken sender ends the loop at once: the connection is in `SenderBroken`
/// and nothing more is put on the wire.
pub proof fn lemma_broken_sender_sends_nothing(phase: Phase)
    requires
        !phase.is_terminal(),
    ensures
        next_phase(phase, Event::OutboundReady(PlayerSenderMessage::Broken))
            == Phase::SenderBroken,
        forall|i: int|
            0 <= i < next_actions(
                phase,
                Event::OutboundReady(PlayerSenderMessage::Broken),
            ).len() ==> !(#[trigger] next_actions(
                phase,
                Event::OutboundReady(PlayerSenderMessage::Broken),
            )[i]).is_send(),
{
}

/// Every failure of a collaborator ends a running loop.
pub proof fn lemma_failures_end_the_loop(phase: Phase, event: Event)
    requires
        !phase.is_terminal(),
        event is SendFailed || event is InboundFailed || event is OutboundClosed,
    ensures
        next_phase(phase, event).is_terminal(),
        event is SendFailed ==> next_phase(phase, event) == Phase::SendFailed,
        event is InboundFailed ==> next_phase(phase, event) == Phase::PeerClosed,
        event is OutboundClosed ==> next_phase(phase, event) == Phase::SenderBroken,
{
}

/// The reported round trip is the difference of clock and echo where the
/// echo is not ahead of the clock, and zero where it is: it never wraps.
pub proof fn lemma_latency_saturates(elapsed_ms: u32, echoed_ms: u32)
    ensures
        latency(elapsed_ms, echoed_ms) <= elapsed_ms,
        echoed_ms >= elapsed_ms ==> latency(elapsed_ms, echoed_ms) == 0,
        echoed_ms <= elapsed_ms ==> latency(elapsed_ms, echoed_ms) + echoed_ms == elapsed_ms,
{
}

} // verus!
