//! The life of one connection on the server, as a state machine: admission,
//! two pumps while active, and a teardown that runs exactly once.
//!
//! The caller performs each action (network writes, the use cases) and feeds
//! back what happened as the next event.

use vstd::prelude::*;

verus! {

#[derive(Debug, Clone, Copy, PartialEq, Eq, Structural)]
pub enum SessionPhase {
    /// Duplicate and capacity checks are running.
    Admitting,
    /// Admission was refused; nothing was registered.
    Rejected,
    /// Both pumps run.
    Active,
    /// One pump stopped; the other is cancelled and the departure is running.
    Draining,
    /// The departure ran and the leave notice went out.
    Closed,
}

#[derive(Debug, Clone, Copy, PartialEq, Eq, Structural)]
pub enum SessionEvent {
    /// The Connect use case succeeded.
    Admitted,
    /// The Connect use case failed.
    Refused,
    /// A text frame arrived.
    InboundText,
    /// A ping or another control frame arrived.
    InboundControl,
    /// The inbound side ended: a close frame, the end of the stream or a
    /// transport error.
    InboundClosed,
    /// A write to the connection failed, or the outbound channel ended.
    OutboundFailed,
    /// The Disconnect use case finished.
    DisconnectDone,
}

#[derive(Debug, Clone, Copy, PartialEq, Eq, Structural)]
pub enum SessionAction {
    /// Send the participant snapshot to the new client, then broadcast its
    /// join notice to the others, then start both pumps.
    SendSnapshotThenAnnounce,
    /// Reject the connection; there is nothing to undo.
    CloseConnection,
    /// Decode the text leniently and run the SendMessage use case.
    HandleChat,
    /// Nothing to do.
    Ignore,
    /// Cancel the outbound pump, then run the Disconnect use case.
    CancelOutboundThenDisconnect,
    /// Cancel the inbound pump, then run the Disconnect use case.
    CancelInboundThenDisconnect,
    /// Broadcast the leave notice and release the session's resources.
    AnnounceLeaveAndRelease,
}

impl SessionAction {
    /// Whether the action runs the Disconnect use case.
    pub open spec fn disconnects(self) -> bool {
        self == SessionAction::CancelOutboundThenDisconnect || self
            == SessionAction::CancelInboundThenDisconnect
    }
}

/// The next phase and the action for `event` in `phase`.
pub open spec fn transition(phase: SessionPhase, event: SessionEvent) -> (SessionPhase, SessionAction) {
    match (phase, event) {
        (SessionPhase::Admitting, SessionEvent::Admitted) => (
            SessionPhase::Active,
            SessionAction::SendSnapshotThenAnnounce,
        ),
        (SessionPhase::Admitting, SessionEvent::Refused) => (
            SessionPhase::Rejected,
            SessionAction::CloseConnection,
        ),
        (SessionPhase::Active, SessionEvent::InboundText) => (
            SessionPhase::Active,
            SessionAction::HandleChat,
        ),
        (SessionPhase::Active, SessionEvent::InboundClosed) => (
            SessionPhase::Draining,
            SessionAction::CancelOutboundThenDisconnect,
        ),
        (SessionPhase::Active, SessionEvent::OutboundFailed) => (
            SessionPhase::Draining,
            SessionAction::CancelInboundThenDisconnect,
        ),
        (SessionPhase::Draining, SessionEvent::DisconnectDone) => (
            SessionPhase::Closed,
            SessionAction::AnnounceLeaveAndRelease,
        ),
        _ => (phase, SessionAction::Ignore),
    }
}

/// The phase after `events`, starting from `phase`.
pub open spec fn run_phase(phase: SessionPhase, events: Seq<SessionEvent>) -> SessionPhase
    decreases events.len(),
{
    if events.len() == 0 {
        phase
    } else {
        transition(run_phase(phase, events.drop_last()), events.last()).0
    }
}

/// How many of the actions along `events`, starting from `phase`, run the
/// Disconnect use case.
pub open spec fn disconnect_count(phase: SessionPhase, events: Seq<SessionEvent>) -> nat
    decreases events.len(),
{
    if events.len() == 0 {
        0
    } else {
        disconnect_count(phase, events.drop_last()) + if transition(
            run_phase(phase, events.drop_last()),
            events.last(),
        ).1.disconnects() {
            1nat
        } else {
            0nat
        }
    }
}

/// Whatever events a connection sees, its teardown runs at most once, and it
/// has run exactly once when the connection is draining or closed.
pub proof fn law_teardown_runs_once(events: Seq<SessionEvent>)
    ensures
        disconnect_count(SessionPhase::Admitting, events) <= 1,
        disconnect_count(SessionPhase::Admitting, events) == 1 <==> (run_phase(
            SessionPhase::Admitting,
            events,
        ) == SessionPhase::Draining || run_phase(SessionPhase::Admitting, events)
            == SessionPhase::Closed),
    decreases events.len(),
{
    if events.len() > 0 {
        law_teardown_runs_once(events.drop_last());
    }
}

/// One connection's session.
pub struct ConnectionSession {
    phase: SessionPhase,
}

impl ConnectionSession {
    pub closed spec fn phase_spec(&self) -> SessionPhase {
        self.phase
    }

    /// A session that is being admitted.
    pub fn new() -> (r: ConnectionSession)
        ensures
            r.phase_spec() == SessionPhase::Admitting,
    {
        ConnectionSession { phase: SessionPhase::Admitting }
    }

    pub fn phase(&self) -> (r: SessionPhase)
        ensures
            r == self.phase_spec(),
    {
        self.phase
    }

    /// Takes `event` and gives the action to perform.
    pub fn step(&mut self, event: SessionEvent) -> (r: SessionAction)
        ensures
            (final(self).phase_spec(), r) == transition(old(self).phase_spec(), event),
    {
        let (next, action) = match (self.phase, event) {
            (SessionPhase::Admitting, SessionEvent::Admitted) => (
                SessionPhase::Active,
                SessionAction::SendSnapshotThenAnnounce,
            ),
            (SessionPhase::Admitting, SessionEvent::Refused) => (
                SessionPhase::Rejected,
                SessionAction::CloseConnection,
            ),
            (SessionPhase::Active, SessionEvent::InboundText) => (
                SessionPhase::Active,
                SessionAction::HandleChat,
            ),
            (SessionPhase::Active, SessionEvent::InboundClosed) => (
                SessionPhase::Draining,
                SessionAction::CancelOutboundThenDisconnect,
            ),
            (SessionPhase::Active, SessionEvent::OutboundFailed) => (
                SessionPhase::Draining,
                SessionAction::CancelInboundThenDisconnect,
            ),
            (SessionPhase::Draining, SessionEvent::DisconnectDone) => (
                SessionPhase::Closed,
                SessionAction::AnnounceLeaveAndRelease,
            ),
            _ => (self.phase, SessionAction::Ignore),
        };
        self.phase = next;
        action
    }
}

} // verus!
