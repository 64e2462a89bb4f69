use executor::session::{CloseReason, Phase, Session, SessionAction, SessionEvent};
use executor::transport::{channel_send, TransportError};

type Ev = SessionEvent<u32, String>;

fn step(s: &mut Session<u32, String>, e: Ev) -> SessionAction<u32, String> {
    assert!(s.expects(&e));
    s.step(e)
}

#[test]
fn responses_follow_request_order() {
    let mut s: Session<u32, String> = Session::new();
    assert_eq!(s.phase(), Phase::Idle);
    assert!(matches!(step(&mut s, SessionEvent::Received(1)), SessionAction::Dispatch(1)));
    assert_eq!(s.phase(), Phase::Handling);
    let a = step(&mut s, SessionEvent::Dispatched(vec!["a1".to_string(), "a2".to_string()]));
    assert!(matches!(a, SessionAction::Send(ref x) if x == "a1"));
    let a = step(&mut s, SessionEvent::Sent);
    assert!(matches!(a, SessionAction::Send(ref x) if x == "a2"));
    assert!(matches!(step(&mut s, SessionEvent::Sent), SessionAction::Receive));
    assert!(matches!(step(&mut s, SessionEvent::Received(2)), SessionAction::Dispatch(2)));
    let a = step(&mut s, SessionEvent::Dispatched(vec!["b1".to_string()]));
    assert!(matches!(a, SessionAction::Send(ref x) if x == "b1"));
    assert!(matches!(step(&mut s, SessionEvent::Sent), SessionAction::Receive));
    assert_eq!(s.phase(), Phase::Idle);
}

#[test]
fn empty_dispatch_goes_back_to_receiving() {
    let mut s: Session<u32, String> = Session::new();
    step(&mut s, SessionEvent::Received(7));
    assert!(matches!(step(&mut s, SessionEvent::Dispatched(vec![])), SessionAction::Receive));
    assert_eq!(s.phase(), Phase::Idle);
}

#[test]
fn closed_receive_ends_session() {
    let mut s: Session<u32, String> = Session::new();
    let a = step(&mut s, SessionEvent::ReceiveFailed(TransportError::Closed));
    assert!(matches!(a, SessionAction::Stop(CloseReason::Transport(TransportError::Closed))));
    assert!(s.is_closed());
    assert!(!s.expects(&SessionEvent::Received(1)));
    assert!(!s.expects(&SessionEvent::ReceiveFailed(TransportError::Io)));
}

#[test]
fn io_failure_while_sending_ends_session() {
    let mut s: Session<u32, String> = Session::new();
    step(&mut s, SessionEvent::Received(1));
    step(&mut s, SessionEvent::Dispatched(vec!["x".to_string(), "y".to_string()]));
    let a = step(&mut s, SessionEvent::SendFailed(TransportError::Io));
    assert!(matches!(a, SessionAction::Stop(CloseReason::Transport(TransportError::Io))));
    assert!(s.is_closed());
    assert!(!s.expects(&SessionEvent::Sent));
}

#[test]
fn dispatch_failure_ends_session() {
    let mut s: Session<u32, String> = Session::new();
    step(&mut s, SessionEvent::Received(3));
    assert!(matches!(step(&mut s, SessionEvent::DispatchFailed), SessionAction::Stop(CloseReason::Dispatch)));
    assert_eq!(s.phase(), Phase::Closed);
}

#[test]
fn unexpected_events_are_reported() {
    let s: Session<u32, String> = Session::new();
    assert!(!s.expects(&SessionEvent::Sent));
    assert!(!s.expects(&SessionEvent::DispatchFailed));
    assert!(!s.expects(&SessionEvent::Dispatched(vec![])));
    assert!(s.expects(&SessionEvent::Received(0)));
}

#[test]
fn dropped_receiver_ends_session_with_transport_error() {
    let (tx, rx) = tokio::sync::mpsc::unbounded_channel::<String>();
    drop(rx);
    let mut s: Session<u32, String> = Session::new();
    step(&mut s, SessionEvent::Received(1));
    let mut action = step(&mut s, SessionEvent::Dispatched(vec!["pong".to_string()]));
    let mut stopped = None;
    loop {
        action = match action {
            SessionAction::Send(p) => match channel_send(&tx, p) {
                Ok(()) => step(&mut s, SessionEvent::Sent),
                Err(e) => step(&mut s, SessionEvent::SendFailed(e)),
            },
            SessionAction::Stop(r) => {
                stopped = Some(r);
                break;
            }
            other => panic!("unexpected action {:?}", other),
        };
    }
    assert_eq!(stopped, Some(CloseReason::Transport(TransportError::Closed)));
    assert!(s.is_closed());
}

#[test]
fn exhausted_transport_closes_within_two_events() {
    let mut s: Session<u32, String> = Session::new();
    step(&mut s, SessionEvent::Received(1));
    assert!(matches!(step(&mut s, SessionEvent::Dispatched(vec![])), SessionAction::Receive));
    let a = step(&mut s, SessionEvent::ReceiveFailed(TransportError::Closed));
    assert!(matches!(a, SessionAction::Stop(CloseReason::Transport(TransportError::Closed))));
    assert!(s.is_closed());
}

#[test]
fn early_responses_go_out_before_returned_ones() {
    let mut s: Session<u32, String> = Session::new();
    step(&mut s, SessionEvent::Received(1));
    let a = step(&mut s, SessionEvent::Emitted("e1".to_string()));
    assert!(matches!(a, SessionAction::Send(ref x) if x == "e1"));
    assert_eq!(s.phase(), Phase::Emitting);
    assert!(matches!(step(&mut s, SessionEvent::Sent), SessionAction::Resume));
    assert_eq!(s.phase(), Phase::Handling);
    let a = step(&mut s, SessionEvent::Dispatched(vec!["r1".to_string()]));
    assert!(matches!(a, SessionAction::Send(ref x) if x == "r1"));
    assert!(matches!(step(&mut s, SessionEvent::Sent), SessionAction::Receive));
    assert!(matches!(step(&mut s, SessionEvent::Received(2)), SessionAction::Dispatch(2)));
}

#[test]
fn dispatch_failure_after_early_response_ends_session() {
    let mut s: Session<u32, String> = Session::new();
    step(&mut s, SessionEvent::Received(1));
    step(&mut s, SessionEvent::Emitted("partial".to_string()));
    step(&mut s, SessionEvent::Sent);
    assert!(matches!(step(&mut s, SessionEvent::DispatchFailed), SessionAction::Stop(CloseReason::Dispatch)));
    assert!(s.is_closed());
}

#[test]
fn failed_early_send_ends_session() {
    let mut s: Session<u32, String> = Session::new();
    step(&mut s, SessionEvent::Received(1));
    step(&mut s, SessionEvent::Emitted("e".to_string()));
    assert!(!s.expects(&SessionEvent::Dispatched(vec![])));
    let a = step(&mut s, SessionEvent::SendFailed(TransportError::Closed));
    assert!(matches!(a, SessionAction::Stop(CloseReason::Transport(TransportError::Closed))));
    assert!(s.is_closed());
}
