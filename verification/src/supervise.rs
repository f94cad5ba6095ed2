//! Which endings stop the process, and which it outlives.
//!
//! The handler of a stream, the handler of a peer's connection and the
//! listener of a mapping each report their ending to their owner. The owner
//! asks here what to do about it: go on, or leave.
use vstd::prelude::*;

verus! {

/// How a unit of work ended.
#[derive(Debug, Clone, Copy, PartialEq, Eq, Structural)]
pub enum Ending {
    /// It came to its end without fault.
    Clean,
    /// It gave up on a fault.
    Failed,
}

/// A fault that the process does not outlive.
#[derive(Debug, Clone, Copy, PartialEq, Eq, Structural)]
pub enum Fatal {
    /// The connection to the remote peer is closed.
    ConnectionLost,
    /// The listener of a mapping failed to bind or to accept.
    ListenerFailed,
}

/// What an owner does about an ending.
#[derive(Debug, Clone, Copy, PartialEq, Eq, Structural)]
pub enum Reaction {
    /// Go on: whatever else runs is left alone.
    Continue,
    /// Leave, with success.
    Exit,
    /// Leave, with this fault.
    Fail(Fatal),
}

/// What the exposer hears of.
#[derive(Debug, Clone, Copy, PartialEq, Eq, Structural)]
pub enum ExposerEvent {
    /// The handler of a stream is over, its pump included.
    StreamEnded(Ending),
    /// The handler of one peer's connection is over.
    ConnectionEnded(Ending),
    /// The transport has no further connection to give.
    AcceptEnded,
}

/// What the connector hears of.
#[derive(Debug, Clone, Copy, PartialEq, Eq, Structural)]
pub enum ConnectorEvent {
    /// The handler of a stream is over, its pump included.
    StreamEnded(Ending),
    /// The connection to the remote peer is closed.
    ConnectionClosed,
    /// The listener of a mapping is over.
    ListenerEnded(Ending),
}

/// What the exposer does about `event`. It leaves when the transport gives
/// no further connection, and for nothing else.
pub open spec fn exposer_reacts(event: ExposerEvent) -> Reaction {
    match event {
        ExposerEvent::AcceptEnded => Reaction::Exit,
        ExposerEvent::ConnectionEnded(_) => Reaction::Continue,
        ExposerEvent::StreamEnded(_) => Reaction::Continue,
    }
}

/// What the connector does about `event`. It leaves, with a fault, when the
/// connection to the peer is closed; it leaves when the listener of any
/// mapping is over, with that listener's ending.
pub open spec fn connector_reacts(event: ConnectorEvent) -> Reaction {
    match event {
        ConnectorEvent::ConnectionClosed => Reaction::Fail(Fatal::ConnectionLost),
        ConnectorEvent::ListenerEnded(Ending::Clean) => Reaction::Exit,
        ConnectorEvent::ListenerEnded(Ending::Failed) => Reaction::Fail(Fatal::ListenerFailed),
        ConnectorEvent::StreamEnded(_) => Reaction::Continue,
    }
}

/// Decides what the exposer does about `event`.
pub fn exposer_reaction(event: ExposerEvent) -> (reaction: Reaction)
    ensures
        reaction == exposer_reacts(event),
{
    match event {
        ExposerEvent::AcceptEnded => Reaction::Exit,
        _ => Reaction::Continue,
    }
}

/// Decides what the connector does about `event`.
pub fn connector_reaction(event: ConnectorEvent) -> (reaction: Reaction)
    ensures
        reaction == connector_reacts(event),
{
    match event {
        ConnectorEvent::ConnectionClosed => Reaction::Fail(Fatal::ConnectionLost),
        ConnectorEvent::ListenerEnded(ending) => match ending {
            Ending::Clean => Reaction::Exit,
            Ending::Failed => Reaction::Fail(Fatal::ListenerFailed),
        },
        ConnectorEvent::StreamEnded(_) => Reaction::Continue,
    }
}

/// However a stream ends, neither role leaves on it: the peer connection
/// and the other streams are left alone.
pub proof fn stream_endings_stop_nothing(ending: Ending)
    ensures
        exposer_reacts(ExposerEvent::StreamEnded(ending)) == Reaction::Continue,
        connector_reacts(ConnectorEvent::StreamEnded(ending)) == Reaction::Continue,
{
}

/// The exposer outlives the end of a peer's connection, however it ends;
/// the connector does not outlive the loss of its one.
pub proof fn a_lost_peer_stops_the_connector_only(ending: Ending)
    ensures
        exposer_reacts(ExposerEvent::ConnectionEnded(ending)) == Reaction::Continue,
        connector_reacts(ConnectorEvent::ConnectionClosed) == Reaction::Fail(
            Fatal::ConnectionLost,
        ),
{
}

} // verus!
