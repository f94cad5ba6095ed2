//! The connector: what it does with a connection that it accepts for a
//! mapping, and what it sends ahead on the stream that it opens for it.
//!
//! Forwarding a connection is a sequence of steps, as a copy loop is: the
//! driver performs the step that the forwarding is at, reports what came of
//! it, and finds the forwarding at its next step.
use crate::parse::Mapping;
use crate::proxy::{
    copy_forwards_every_byte, driven, joined, readable, Direction, Sink, Step, BUFFER_LEN,
};
use crate::server::{route_of, Refusal, Route};
use crate::supervise::Ending;
use crate::wire::{header_of, header_round_trip, HEADER_LEN};
use vstd::prelude::*;

verus! {

/// What the driver of a forwarding reports.
#[derive(Debug, Clone, Copy, PartialEq, Eq, Structural)]
pub enum ForwardEvent {
    /// The attempt to open a stream is over: whether there is one.
    Opened(bool),
    /// The attempt to write the header is over: whether it went through.
    HeaderSent(bool),
    /// The pump is over: how it ended.
    Pumped(Ending),
    /// The stream is reset.
    WasReset,
}

/// Where the forwarding of an accepted connection is at: what its driver
/// is to do next.
#[derive(Debug, Clone, Copy, PartialEq, Eq, Structural)]
pub enum ForwardStep {
    /// Open a stream on the connection to the peer.
    Open,
    /// Write the header that asks for this port, before anything else.
    SendHeader(u16),
    /// Pump between the stream and the accepted connection.
    Pump,
    /// Reset the stream, both of its directions.
    Reset,
    /// Nothing: the forwarding is over, with this ending.
    Done(Ending),
}

impl ForwardStep {
    /// The step that follows this one once `event` is reported, for a
    /// connection accepted for `mapping`. An event that does not answer the
    /// step changes nothing.
    pub open spec fn next(self, mapping: Mapping, event: ForwardEvent) -> ForwardStep {
        match (self, event) {
            (ForwardStep::Open, ForwardEvent::Opened(true)) => ForwardStep::SendHeader(
                mapping.remote,
            ),
            (ForwardStep::Open, ForwardEvent::Opened(false)) => ForwardStep::Done(Ending::Failed),
            (ForwardStep::SendHeader(_), ForwardEvent::HeaderSent(true)) => ForwardStep::Pump,
            (ForwardStep::SendHeader(_), ForwardEvent::HeaderSent(false)) => ForwardStep::Reset,
            (ForwardStep::Pump, ForwardEvent::Pumped(ending)) => ForwardStep::Done(ending),
            (ForwardStep::Reset, ForwardEvent::WasReset) => ForwardStep::Done(Ending::Failed),
            _ => self,
        }
    }

    /// The step that a forwarding begins at.
    pub fn start() -> (step: ForwardStep)
        ensures
            step == ForwardStep::Open,
    {
        ForwardStep::Open
    }

    /// Moves the forwarding on: the step that follows this one once `event`
    /// is reported.
    pub fn after(self, mapping: &Mapping, event: ForwardEvent) -> (step: ForwardStep)
        ensures
            step == self.next(*mapping, event),
    {
        match self {
            ForwardStep::Open => match event {
                ForwardEvent::Opened(open) => if open {
                    ForwardStep::SendHeader(mapping.remote)
                } else {
                    ForwardStep::Done(Ending::Failed)
                },
                _ => self,
            },
            ForwardStep::SendHeader(_) => match event {
                ForwardEvent::HeaderSent(sent) => if sent {
                    ForwardStep::Pump
                } else {
                    ForwardStep::Reset
                },
                _ => self,
            },
            ForwardStep::Pump => match event {
                ForwardEvent::Pumped(ending) => ForwardStep::Done(ending),
                _ => self,
            },
            ForwardStep::Reset => match event {
                ForwardEvent::WasReset => ForwardStep::Done(Ending::Failed),
                _ => self,
            },
            ForwardStep::Done(_) => self,
        }
    }
}

/// The step that a forwarding is at once `events` were reported to it, in
/// that order, from its start.
pub open spec fn forward_step_after(mapping: Mapping, events: Seq<ForwardEvent>) -> ForwardStep
    decreases events.len(),
{
    if events.len() == 0 {
        ForwardStep::Open
    } else {
        forward_step_after(mapping, events.drop_last()).next(mapping, events.last())
    }
}

/// Whether the header was asked for during `events`.
pub open spec fn header_asked(mapping: Mapping, events: Seq<ForwardEvent>) -> bool {
    exists|k: int| 0 <= k <= events.len() && #[trigger] forward_step_after(
        mapping,
        events.take(k),
    ) is SendHeader
}

/// A forwarding asks for no header but that of its mapping's remote port,
/// and for the pump only after it asked for the header.
pub proof fn header_goes_first(mapping: Mapping, events: Seq<ForwardEvent>)
    ensures
        forward_step_after(mapping, events) matches ForwardStep::SendHeader(port) ==> port
            == mapping.remote,
        forward_step_after(mapping, events) is Pump ==> header_asked(mapping, events),
    decreases events.len(),
{
    if events.len() > 0 {
        let front = events.drop_last();
        header_goes_first(mapping, front);
        if forward_step_after(mapping, events) is Pump {
            if forward_step_after(mapping, front) is SendHeader {
                assert(events.take(events.len() - 1) == front);
            } else {
                let k = choose|k: int| 0 <= k <= front.len() && #[trigger] forward_step_after(
                    mapping,
                    front.take(k),
                ) is SendHeader;
                assert(events.take(k) == front.take(k));
            }
        }
    }
}

/// A stream that the connector opens for a mapping is dialled to the
/// mapping's remote port where the exposer exposes that port, and is reset
/// without a dial where it does not.
pub proof fn mapped_stream_reaches_its_port(allowed: Set<u16>, mapping: Mapping, header: [u8; 2])
    requires
        header@ == header_of(mapping.remote),
    ensures
        allowed.contains(mapping.remote) ==> route_of(allowed, Some(header)) == Route::Dial(
            mapping.remote,
        ),
        !allowed.contains(mapping.remote) ==> route_of(allowed, Some(header)) == Route::Reset(
            Refusal::NotExposed(mapping.remote),
        ),
{
    header_round_trip(mapping.remote, header@);
}

/// What the peer's socket gets of what the connector's socket gave, where
/// the transport does its part.
///
/// The connector writes the header of `mapping` on a new stream and copies
/// after it the chunks `sent` that its socket gives. Let the transport hand
/// the exposer, as `header` and then the chunks `arrived`, the bytes that
/// the connector wrote, in their order, however cut. Then the exposer dials
/// the mapping's remote port, if it exposes that port, and its copy loop
/// writes to that socket the bytes of `sent`, all of them and in their
/// order, and then closes the socket's write side.
pub proof fn tunnel_delivers_in_order(
    allowed: Set<u16>,
    mapping: Mapping,
    sent: Seq<Seq<u8>>,
    header: [u8; 2],
    arrived: Seq<Seq<u8>>,
    buffer: Seq<u8>,
)
    requires
        allowed.contains(mapping.remote),
        readable(Direction::SocketToStream, sent),
        readable(Direction::StreamToSocket, arrived),
        buffer.len() == BUFFER_LEN,
        header@ + joined(arrived) == driven(
            Direction::SocketToStream,
            Step::Read,
            sent,
            buffer,
            Sink { bytes: header_of(mapping.remote), closed: false },
        ).bytes,
    ensures
        route_of(allowed, Some(header)) == Route::Dial(mapping.remote),
        driven(
            Direction::StreamToSocket,
            Step::Read,
            arrived,
            buffer,
            Sink { bytes: Seq::empty(), closed: false },
        ) == (Sink { bytes: joined(sent), closed: true }),
{
    let opened = Sink { bytes: header_of(mapping.remote), closed: false };
    let nothing = Sink { bytes: Seq::<u8>::empty(), closed: false };
    copy_forwards_every_byte(Direction::SocketToStream, sent, buffer, opened);
    copy_forwards_every_byte(Direction::StreamToSocket, arrived, buffer, nothing);
    let carried = header_of(mapping.remote) + joined(sent);
    assert(header@ == carried.take(HEADER_LEN as int));
    assert(header_of(mapping.remote) == carried.take(HEADER_LEN as int));
    assert(joined(arrived) == carried.skip(HEADER_LEN as int));
    assert(joined(sent) == carried.skip(HEADER_LEN as int));
    mapped_stream_reaches_its_port(allowed, mapping, header);
}

} // verus!
