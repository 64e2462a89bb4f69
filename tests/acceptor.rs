use executor::acceptor::{Acceptor, AcceptorAction, AcceptorEvent, AcceptorPhase, StopReason};

fn step(a: &mut Acceptor, e: AcceptorEvent) -> AcceptorAction {
    assert!(a.expects(e));
    a.step(e)
}

#[test]
fn startup_binds_announces_and_accepts() {
    let mut a = Acceptor::new();
    assert_eq!(a.phase(), AcceptorPhase::Starting);
    assert_eq!(step(&mut a, AcceptorEvent::ContextReady), AcceptorAction::Bind);
    assert_eq!(step(&mut a, AcceptorEvent::Bound), AcceptorAction::EmitConnected);
    assert_eq!(step(&mut a, AcceptorEvent::Announced), AcceptorAction::Accept);
    assert_eq!(step(&mut a, AcceptorEvent::Accepted), AcceptorAction::Upgrade);
    assert_eq!(step(&mut a, AcceptorEvent::Upgraded), AcceptorAction::SpawnSession);
    assert_eq!(step(&mut a, AcceptorEvent::Spawned), AcceptorAction::Accept);
    assert_eq!(a.phase(), AcceptorPhase::Listening);
}

#[test]
fn handshake_failure_keeps_accepting() {
    let mut a = Acceptor::new();
    step(&mut a, AcceptorEvent::ContextReady);
    step(&mut a, AcceptorEvent::Bound);
    step(&mut a, AcceptorEvent::Announced);
    assert_eq!(step(&mut a, AcceptorEvent::Accepted), AcceptorAction::Upgrade);
    assert_eq!(step(&mut a, AcceptorEvent::HandshakeFailed), AcceptorAction::Accept);
    assert_eq!(step(&mut a, AcceptorEvent::Accepted), AcceptorAction::Upgrade);
    assert_eq!(step(&mut a, AcceptorEvent::Upgraded), AcceptorAction::SpawnSession);
}

#[test]
fn undelivered_readiness_is_not_fatal() {
    let mut a = Acceptor::new();
    step(&mut a, AcceptorEvent::ContextReady);
    step(&mut a, AcceptorEvent::Bound);
    assert_eq!(step(&mut a, AcceptorEvent::AnnounceFailed), AcceptorAction::Accept);
    assert_eq!(a.phase(), AcceptorPhase::Listening);
}

#[test]
fn context_failure_never_binds() {
    let mut a = Acceptor::new();
    assert_eq!(step(&mut a, AcceptorEvent::ContextFailed), AcceptorAction::Stop(StopReason::Context));
    assert_eq!(a.phase(), AcceptorPhase::Stopped);
    assert!(!a.expects(AcceptorEvent::ContextReady));
    assert!(!a.expects(AcceptorEvent::Bound));
}

#[test]
fn bind_failure_is_fatal() {
    let mut a = Acceptor::new();
    step(&mut a, AcceptorEvent::ContextReady);
    assert_eq!(step(&mut a, AcceptorEvent::BindFailed), AcceptorAction::Stop(StopReason::Bind));
    assert!(!a.expects(AcceptorEvent::BindFailed));
}

#[test]
fn accept_failure_is_fatal() {
    let mut a = Acceptor::new();
    step(&mut a, AcceptorEvent::ContextReady);
    step(&mut a, AcceptorEvent::Bound);
    step(&mut a, AcceptorEvent::Announced);
    assert_eq!(step(&mut a, AcceptorEvent::AcceptFailed), AcceptorAction::Stop(StopReason::Accept));
    assert_eq!(a.phase(), AcceptorPhase::Stopped);
}

#[test]
fn events_out_of_phase_are_refused() {
    let a = Acceptor::new();
    assert!(!a.expects(AcceptorEvent::Bound));
    assert!(!a.expects(AcceptorEvent::Spawned));
    assert!(a.expects(AcceptorEvent::ContextFailed));
}
