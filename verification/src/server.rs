//! The exposer: which ports it lets peers reach, and what it does with a
//! stream that a peer opens.
//!
//! The handler of a stream is a sequence of steps, as a copy loop is: its
//! driver performs the step that the handler is at, reports what came of
//! it, and finds the handler at its next step.
use crate::parse::{numbers, port_list_is_in_order, port_of, ports_of, Port, PortError};
use crate::supervise::Ending;
use crate::wire::{decode_header, port_in};
use std::collections::HashSet;
use vstd::prelude::*;

verus! {

broadcast use vstd::std_specs::hash::group_hash_axioms;

/// The ports that peers may reach. Made once, read ever after.
pub struct AllowList {
    ports: HashSet<u16>,
}

impl View for AllowList {
    type V = Set<u16>;

    closed spec fn view(&self) -> Set<u16> {
        self.ports@
    }
}

impl AllowList {
    #[verifier::type_invariant]
    spec fn holds_ports_only(self) -> bool {
        !self.ports@.contains(0)
    }

    /// The allow-list of the given ports.
    pub fn new(ports: &[Port]) -> (list: AllowList)
        ensures
            list@ == numbers(ports@).to_set(),
    {
        let mut set: HashSet<u16> = HashSet::with_capacity(ports.len());
        let mut i: usize = 0;
        while i < ports.len()
            invariant
                i <= ports.len(),
                set@ == numbers(ports@).take(i as int).to_set(),
                !set@.contains(0),
            decreases ports.len() - i,
        {
            let ghost seen = numbers(ports@).take(i as int);
            let ghost next = numbers(ports@).take(i as int + 1);
            assert(next == seen.push(ports@[i as int]@));
            proof {
                seen.lemma_push_to_set_commute(ports@[i as int]@);
            }
            set.insert(ports[i].get());
            i = i + 1;
        }
        assert(numbers(ports@).take(i as int) == numbers(ports@));
        AllowList { ports: set }
    }

    /// Whether peers may reach `port`. They may never reach port zero.
    pub fn allows(&self, port: u16) -> (yes: bool)
        ensures
            yes == self@.contains(port),
            port == 0 ==> !yes,
    {
        proof {
            use_type_invariant(self);
        }
        self.ports.contains(&port)
    }
}

/// The allow-list made of the ports that a list of texts names has the ports
/// that the texts name, and no other.
pub proof fn exposed_ports_are_the_named(args: Seq<Seq<char>>, port: u16)
    requires
        ports_of(args) is Ok,
    ensures
        ports_of(args)->Ok_0.to_set().contains(port) <==> exists|i: int|
            0 <= i < args.len() && port_of(#[trigger] args[i]) == Ok::<u16, PortError>(port),
{
    let ports = ports_of(args)->Ok_0;
    port_list_is_in_order(args);
    if ports.to_set().contains(port) {
        let i = choose|i: int| 0 <= i < ports.len() && ports[i] == port;
        assert(port_of(args[i]) == Ok::<u16, PortError>(port));
    }
    if exists|i: int|
        0 <= i < args.len() && port_of(#[trigger] args[i]) == Ok::<u16, PortError>(port) {
        let i = choose|i: int|
            0 <= i < args.len() && port_of(#[trigger] args[i]) == Ok::<u16, PortError>(port);
        assert(ports[i] == port);
    }
}

/// Why a stream is reset and never pumped.
#[derive(Debug, Clone, Copy, PartialEq, Eq, Structural)]
pub enum Refusal {
    /// The stream ended or failed before its header was in.
    ShortHeader,
    /// The header asks for a port that is not exposed.
    NotExposed(u16),
    /// The port is exposed, and nothing could be connected to on it.
    Unreachable(u16),
}

/// What becomes of a stream once its header is in, or is known not to come.
#[derive(Debug, Clone, Copy, PartialEq, Eq, Structural)]
pub enum Route {
    /// Connect to this port on the loopback address, then pump.
    Dial(u16),
    /// Reset the stream; connect to nothing.
    Reset(Refusal),
}

/// What becomes of a stream whose header was read as `header`, under the
/// allow-list `allowed`. `None` stands for a header that did not arrive whole.
pub open spec fn route_of(allowed: Set<u16>, header: Option<[u8; 2]>) -> Route {
    match header {
        None => Route::Reset(Refusal::ShortHeader),
        Some(bytes) => if allowed.contains(port_in(bytes@)) {
            Route::Dial(port_in(bytes@))
        } else {
            Route::Reset(Refusal::NotExposed(port_in(bytes@)))
        },
    }
}

/// Decides what becomes of a stream: a dial to the port its header asks for
/// if that port is exposed, a reset in every other case.
pub fn route(allowed: &AllowList, header: Option<[u8; 2]>) -> (r: Route)
    ensures
        r == route_of(allowed@, header),
        r matches Route::Dial(port) ==> allowed@.contains(port) && port != 0,
{
    match header {
        None => Route::Reset(Refusal::ShortHeader),
        Some(bytes) => {
            let port = decode_header(&bytes);
            if allowed.allows(port) {
                Route::Dial(port)
            } else {
                Route::Reset(Refusal::NotExposed(port))
            }
        },
    }
}

/// What the driver of a stream's handler reports.
#[derive(Debug, Clone, Copy, PartialEq, Eq)]
pub enum StreamEvent {
    /// The header was read: its two bytes, or none if the stream ended or
    /// failed before they were in.
    Header(Option<[u8; 2]>),
    /// The dial is over: whether it connected.
    Dialed(bool),
    /// The pump is over: how it ended.
    Pumped(Ending),
    /// The stream is reset.
    WasReset,
}

/// Where the handler of a stream is at: what its driver is to do next.
#[derive(Debug, Clone, Copy, PartialEq, Eq, Structural)]
pub enum StreamStep {
    /// Read the two bytes of the header, and no byte more.
    ReadHeader,
    /// Connect to this port on the loopback address.
    Dial(u16),
    /// Pump between the stream and the socket just connected.
    Pump,
    /// Reset the stream, both of its directions.
    Reset(Refusal),
    /// Nothing: the handler is over, with this ending.
    Done(Ending),
}

impl StreamStep {
    /// The step that follows this one once `event` is reported, under the
    /// allow-list `allowed`. An event that does not answer the step changes
    /// nothing.
    pub open spec fn next(self, allowed: Set<u16>, event: StreamEvent) -> StreamStep {
        match (self, event) {
            (StreamStep::ReadHeader, StreamEvent::Header(header)) => match route_of(
                allowed,
                header,
            ) {
                Route::Dial(port) => StreamStep::Dial(port),
                Route::Reset(refusal) => StreamStep::Reset(refusal),
            },
            (StreamStep::Dial(_), StreamEvent::Dialed(true)) => StreamStep::Pump,
            (StreamStep::Dial(port), StreamEvent::Dialed(false)) => StreamStep::Reset(
                Refusal::Unreachable(port),
            ),
            (StreamStep::Pump, StreamEvent::Pumped(ending)) => StreamStep::Done(ending),
            (StreamStep::Reset(_), StreamEvent::WasReset) => StreamStep::Done(Ending::Failed),
            _ => self,
        }
    }

    /// The step that the handler of a stream begins at.
    pub fn start() -> (step: StreamStep)
        ensures
            step == StreamStep::ReadHeader,
    {
        StreamStep::ReadHeader
    }

    /// Moves the handler on: the step that follows this one once `event` is
    /// reported.
    pub fn after(self, allowed: &AllowList, event: StreamEvent) -> (step: StreamStep)
        ensures
            step == self.next(allowed@, event),
    {
        match self {
            StreamStep::ReadHeader => match event {
                StreamEvent::Header(header) => match route(allowed, header) {
                    Route::Dial(port) => StreamStep::Dial(port),
                    Route::Reset(refusal) => StreamStep::Reset(refusal),
                },
                _ => self,
            },
            StreamStep::Dial(port) => match event {
                StreamEvent::Dialed(connected) => if connected {
                    StreamStep::Pump
                } else {
                    StreamStep::Reset(Refusal::Unreachable(port))
                },
                _ => self,
            },
            StreamStep::Pump => match event {
                StreamEvent::Pumped(ending) => StreamStep::Done(ending),
                _ => self,
            },
            StreamStep::Reset(_) => match event {
                StreamEvent::WasReset => StreamStep::Done(Ending::Failed),
                _ => self,
            },
            StreamStep::Done(_) => self,
        }
    }
}

/// The step that the handler of a stream is at once `events` were reported
/// to it, in that order, from its start.
pub open spec fn stream_step_after(allowed: Set<u16>, events: Seq<StreamEvent>) -> StreamStep
    decreases events.len(),
{
    if events.len() == 0 {
        StreamStep::ReadHeader
    } else {
        stream_step_after(allowed, events.drop_last()).next(allowed, events.last())
    }
}

/// Whether a dial was asked for during `events`.
pub open spec fn dialled(allowed: Set<u16>, events: Seq<StreamEvent>) -> bool {
    exists|k: int| 0 <= k <= events.len() && #[trigger] stream_step_after(
        allowed,
        events.take(k),
    ) is Dial
}

/// A handler asks for a dial to an exposed port only, and for a pump only
/// after a dial.
pub proof fn only_exposed_ports_are_dialled(allowed: Set<u16>, events: Seq<StreamEvent>)
    ensures
        stream_step_after(allowed, events) matches StreamStep::Dial(port) ==> allowed.contains(
            port,
        ),
        stream_step_after(allowed, events) is Pump ==> dialled(allowed, events),
    decreases events.len(),
{
    if events.len() > 0 {
        let front = events.drop_last();
        only_exposed_ports_are_dialled(allowed, front);
        if stream_step_after(allowed, events) is Pump {
            if stream_step_after(allowed, front) is Dial {
                assert(events.take(events.len() - 1) == front);
            } else {
                let k = choose|k: int| 0 <= k <= front.len() && #[trigger] stream_step_after(
                    allowed,
                    front.take(k),
                ) is Dial;
                assert(events.take(k) == front.take(k));
            }
        }
    }
}

/// A stream whose header asks for a port that is not exposed, or whose
/// header does not come, is reset and ends failed: no dial is asked for on
/// its behalf, whatever is reported next.
pub proof fn refused_stream_is_never_dialled(
    allowed: Set<u16>,
    header: Option<[u8; 2]>,
    events: Seq<StreamEvent>,
)
    requires
        events.len() > 0,
        events[0] == StreamEvent::Header(header),
        route_of(allowed, header) is Reset,
    ensures
        !dialled(allowed, events),
        stream_step_after(allowed, events) == StreamStep::Reset(route_of(allowed, header)->Reset_0)
            || stream_step_after(allowed, events) == StreamStep::Done(Ending::Failed),
    decreases events.len(),
{
    let refused = StreamStep::Reset(route_of(allowed, header)->Reset_0);
    let failed = StreamStep::Done(Ending::Failed);
    assert forall|k: int| 0 <= k <= events.len() implies {
        let step = #[trigger] stream_step_after(allowed, events.take(k));
        k == 0 && step == StreamStep::ReadHeader || k > 0 && (step == refused || step == failed)
    } by {
        lemma_refused_stays_refused(allowed, header, events, k);
    }
    assert(events.take(events.len() as int) == events);
}

/// The steps of a refused stream, one prefix of its events at a time.
proof fn lemma_refused_stays_refused(
    allowed: Set<u16>,
    header: Option<[u8; 2]>,
    events: Seq<StreamEvent>,
    k: int,
)
    requires
        events.len() > 0,
        events[0] == StreamEvent::Header(header),
        route_of(allowed, header) is Reset,
        0 <= k <= events.len(),
    ensures
        k == 0 ==> stream_step_after(allowed, events.take(k)) == StreamStep::ReadHeader,
        k > 0 ==> stream_step_after(allowed, events.take(k)) == StreamStep::Reset(
            route_of(allowed, header)->Reset_0,
        ) || stream_step_after(allowed, events.take(k)) == StreamStep::Done(Ending::Failed),
    decreases k,
{
    if k > 0 {
        lemma_refused_stays_refused(allowed, header, events, k - 1);
        assert(events.take(k).drop_last() == events.take(k - 1));
    }
}

} // verus!
