use chat_app_rs::session::{ConnectionSession, SessionAction, SessionEvent, SessionPhase};

#[test]
fn admitted_session_sends_snapshot_first() {
    let mut s = ConnectionSession::new();
    assert_eq!(s.phase(), SessionPhase::Admitting);
    assert_eq!(s.step(SessionEvent::Admitted), SessionAction::SendSnapshotThenAnnounce);
    assert_eq!(s.phase(), SessionPhase::Active);
    assert_eq!(s.step(SessionEvent::InboundText), SessionAction::HandleChat);
    assert_eq!(s.step(SessionEvent::InboundControl), SessionAction::Ignore);
    assert_eq!(s.phase(), SessionPhase::Active);
}

#[test]
fn refused_session_closes_without_teardown() {
    let mut s = ConnectionSession::new();
    assert_eq!(s.step(SessionEvent::Refused), SessionAction::CloseConnection);
    assert_eq!(s.phase(), SessionPhase::Rejected);
    assert_eq!(s.step(SessionEvent::InboundClosed), SessionAction::Ignore);
    assert_eq!(s.step(SessionEvent::DisconnectDone), SessionAction::Ignore);
}

#[test]
fn first_pump_to_stop_wins_and_teardown_runs_once() {
    let mut s = ConnectionSession::new();
    s.step(SessionEvent::Admitted);
    assert_eq!(s.step(SessionEvent::InboundClosed), SessionAction::CancelOutboundThenDisconnect);
    assert_eq!(s.phase(), SessionPhase::Draining);
    assert_eq!(s.step(SessionEvent::OutboundFailed), SessionAction::Ignore);
    assert_eq!(s.step(SessionEvent::InboundClosed), SessionAction::Ignore);
    assert_eq!(s.step(SessionEvent::DisconnectDone), SessionAction::AnnounceLeaveAndRelease);
    assert_eq!(s.phase(), SessionPhase::Closed);
    assert_eq!(s.step(SessionEvent::OutboundFailed), SessionAction::Ignore);
}

#[test]
fn outbound_failure_cancels_the_inbound_pump() {
    let mut s = ConnectionSession::new();
    s.step(SessionEvent::Admitted);
    assert_eq!(s.step(SessionEvent::OutboundFailed), SessionAction::CancelInboundThenDisconnect);
    assert_eq!(s.step(SessionEvent::InboundText), SessionAction::Ignore);
}
