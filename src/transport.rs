use tokio::sync::mpsc::UnboundedSender;
use vstd::prelude::*;

verus! {

#[verifier::external_type_specification]
#[verifier::external_body]
#[verifier::reject_recursive_types(T)]
pub struct ExUnboundedSender<T>(UnboundedSender<T>);

/// Why a transport could not move a packet.
#[derive(Debug, Clone, Copy, PartialEq, Eq, Structural)]
pub enum TransportError {
    /// The peer or the channel closed gracefully.
    Closed,
    /// The underlying socket failed abruptly.
    Io,
}

/// One item read from a socket-backed transport, once decoded.
#[derive(Debug)]
pub enum Frame<T> {
    /// A request packet.
    Packet(T),
    /// The peer's close frame.
    Close,
    /// A control frame (ping, pong) that carries no packet.
    Control,
}

/// What a socket read amounts to for a session.
#[derive(Debug)]
pub enum FrameOutcome<T> {
    /// A request to hand to the session.
    Deliver(T),
    /// Nothing for the session; read again.
    Skip,
    /// The transport failed.
    Fail(TransportError),
}

/// The result of an in-process receive: `None` means every sender is gone.
pub open spec fn channel_outcome<T>(r: Option<T>) -> Result<T, TransportError> {
    match r {
        Some(p) => Ok(p),
        None => Err(TransportError::Closed),
    }
}

/// Classifies what a channel-backed transport received.
pub fn channel_received<T>(r: Option<T>) -> (out: Result<T, TransportError>)
    ensures
        out == channel_outcome(r),
{
    match r {
        Some(p) => Ok(p),
        None => Err(TransportError::Closed),
    }
}

/// The result of a socket read: the end of the stream or a close frame is a
/// graceful closure, a read error an abrupt one.
pub open spec fn socket_outcome<T, E>(r: Option<Result<Frame<T>, E>>) -> FrameOutcome<T> {
    match r {
        None => FrameOutcome::Fail(TransportError::Closed),
        Some(Err(_)) => FrameOutcome::Fail(TransportError::Io),
        Some(Ok(Frame::Close)) => FrameOutcome::Fail(TransportError::Closed),
        Some(Ok(Frame::Control)) => FrameOutcome::Skip,
        Some(Ok(Frame::Packet(p))) => FrameOutcome::Deliver(p),
    }
}

/// Classifies what a socket-backed transport read.
pub fn socket_received<T, E>(r: Option<Result<Frame<T>, E>>) -> (out: FrameOutcome<T>)
    ensures
        out == socket_outcome(r),
{
    match r {
        None => FrameOutcome::Fail(TransportError::Closed),
        Some(Err(_)) => FrameOutcome::Fail(TransportError::Io),
        Some(Ok(Frame::Close)) => FrameOutcome::Fail(TransportError::Closed),
        Some(Ok(Frame::Control)) => FrameOutcome::Skip,
        Some(Ok(Frame::Packet(p))) => FrameOutcome::Deliver(p),
    }
}

/// Relies on tokio's `UnboundedSender::send`: it enqueues the message, or,
/// when the receiver is gone, hands it back inside `SendError`.
#[verifier::external_body]
fn enqueue<T>(tx: &UnboundedSender<T>, packet: T) -> (r: Result<(), T>)
    ensures
        r matches Err(back) ==> back == packet,
{
    tx.send(packet).map_err(|e| e.0)
}

/// Sends one response on a channel-backed transport; a closed channel is a
/// transport failure.
pub fn channel_send<T>(tx: &UnboundedSender<T>, packet: T) -> (r: Result<(), TransportError>)
    ensures
        r matches Err(e) ==> e == TransportError::Closed,
{
    match enqueue(tx, packet) {
        Ok(()) => Ok(()),
        Err(_) => Err(TransportError::Closed),
    }
}

} // verus!
