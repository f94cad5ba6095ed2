//! The byte pump: two copy loops, one for each direction between a tunnel
//! stream and a socket, and the rule that joins their endings.
//!
//! A copy loop is a sequence of steps. Its driver performs the step that the
//! loop is at, reports what came of it, and finds the loop at its next step.
//! A failed operation is not reported to the loop: it ends the loop, and the
//! pump hears of it.
use crate::supervise::Ending;
use vstd::prelude::*;

verus! {

/// Size, in bytes, of the buffer that a copy loop reads into.
pub const BUFFER_LEN: usize = 8192;

/// What a read from the source of a copy loop gave.
#[derive(Debug, Clone, Copy, PartialEq, Eq, Structural)]
pub enum Chunk {
    /// This many bytes, at the start of the buffer.
    Data(usize),
    /// Nothing more: the source has ended.
    End,
}

impl Chunk {
    /// What a read from a tunnel stream gave, where the stream gave `read`:
    /// a count of bytes, or none at its end.
    pub open spec fn of_stream(read: Option<usize>) -> Chunk {
        match read {
            Some(len) => Chunk::Data(len),
            None => Chunk::End,
        }
    }

    /// What a read from a socket gave, where the socket gave `read`: a
    /// count of bytes, zero once the peer has closed.
    pub open spec fn of_socket(read: usize) -> Chunk {
        if read == 0 {
            Chunk::End
        } else {
            Chunk::Data(read)
        }
    }

    /// Tells what a read from a tunnel stream gave.
    pub fn from_stream(read: Option<usize>) -> (chunk: Chunk)
        ensures
            chunk == Chunk::of_stream(read),
    {
        match read {
            Some(len) => Chunk::Data(len),
            None => Chunk::End,
        }
    }

    /// Tells what a read from a socket gave.
    pub fn from_socket(read: usize) -> (chunk: Chunk)
        ensures
            chunk == Chunk::of_socket(read),
    {
        if read == 0 {
            Chunk::End
        } else {
            Chunk::Data(read)
        }
    }
}

/// What the driver of a copy loop reports.
#[derive(Debug, Clone, Copy, PartialEq, Eq, Structural)]
pub enum Event {
    /// The read gave this chunk.
    Read(Chunk),
    /// The write went through, whole.
    Written,
    /// The destination's write side is closed.
    Closed,
}

/// Where a copy loop is at: what its driver is to do next.
#[derive(Debug, Clone, Copy, PartialEq, Eq, Structural)]
pub enum Step {
    /// Read a chunk from the source into the buffer.
    Read,
    /// Write this many bytes from the start of the buffer to the
    /// destination, all of them.
    Write(usize),
    /// Close the write side of the destination, and that side only.
    Close,
    /// Nothing: the loop is over.
    Stop,
}

impl Step {
    /// The step that follows this one once `event` is reported. An event
    /// that does not answer the step changes nothing.
    pub open spec fn next(self, event: Event) -> Step {
        match (self, event) {
            (Step::Read, Event::Read(Chunk::Data(len))) => Step::Write(len),
            (Step::Read, Event::Read(Chunk::End)) => Step::Close,
            (Step::Write(_), Event::Written) => Step::Read,
            (Step::Close, Event::Closed) => Step::Stop,
            _ => self,
        }
    }

    /// Whether the source has ended for a loop at this step.
    pub open spec fn past_end(self) -> bool {
        self == Step::Close || self == Step::Stop
    }

    /// The step that a copy loop begins at.
    pub fn start() -> (step: Step)
        ensures
            step == Step::Read,
    {
        Step::Read
    }

    /// Moves the loop on: the step that follows this one once `event` is
    /// reported.
    pub fn after(self, event: Event) -> (step: Step)
        ensures
            step == self.next(event),
    {
        match self {
            Step::Read => match event {
                Event::Read(Chunk::Data(len)) => Step::Write(len),
                Event::Read(Chunk::End) => Step::Close,
                _ => self,
            },
            Step::Write(_) => match event {
                Event::Written => Step::Read,
                _ => self,
            },
            Step::Close => match event {
                Event::Closed => Step::Stop,
                _ => self,
            },
            Step::Stop => self,
        }
    }
}

/// The step that a copy loop is at once `events` were reported to it, in
/// that order, from its start.
pub open spec fn step_after(events: Seq<Event>) -> Step
    decreases events.len(),
{
    if events.len() == 0 {
        Step::Read
    } else {
        step_after(events.drop_last()).next(events.last())
    }
}

/// The lengths of the chunks that the loop took from its source during
/// `events`, in the order of their arrival.
pub open spec fn taken(events: Seq<Event>) -> Seq<usize>
    decreases events.len(),
{
    if events.len() == 0 {
        Seq::empty()
    } else {
        match (step_after(events.drop_last()), events.last()) {
            (Step::Read, Event::Read(Chunk::Data(len))) => taken(events.drop_last()).push(len),
            _ => taken(events.drop_last()),
        }
    }
}

/// The lengths of the chunks that the loop saw written to its destination
/// during `events`, in the order of their writing.
pub open spec fn delivered(events: Seq<Event>) -> Seq<usize>
    decreases events.len(),
{
    if events.len() == 0 {
        Seq::empty()
    } else {
        match (step_after(events.drop_last()), events.last()) {
            (Step::Write(len), Event::Written) => delivered(events.drop_last()).push(len),
            _ => delivered(events.drop_last()),
        }
    }
}

/// A copy loop delivers what it takes, chunk for chunk and in order. While
/// it reads, closes or has stopped, every chunk taken is delivered; while it
/// writes, only the chunk in hand is outstanding.
pub proof fn copy_keeps_order(events: Seq<Event>)
    ensures
        match step_after(events) {
            Step::Write(len) => taken(events) == delivered(events).push(len),
            _ => taken(events) == delivered(events),
        },
    decreases events.len(),
{
    if events.len() > 0 {
        copy_keeps_order(events.drop_last());
    }
}

/// Once its source has ended a copy loop asks for no further read or write:
/// it asks for the close, and then for nothing.
pub proof fn copy_ends_once(events: Seq<Event>, k: int)
    requires
        0 <= k <= events.len(),
        step_after(events.take(k)).past_end(),
    ensures
        step_after(events).past_end(),
        taken(events) == taken(events.take(k)),
        delivered(events) == delivered(events.take(k)),
    decreases events.len() - k,
{
    if k < events.len() {
        assert(events.take(k + 1).drop_last() == events.take(k));
        copy_ends_once(events, k + 1);
    } else {
        assert(events.take(k) == events);
    }
}

/// One of the two ways through a pump.
#[derive(Debug, Clone, Copy, PartialEq, Eq, Structural)]
pub enum Direction {
    /// From the tunnel stream to the socket.
    StreamToSocket,
    /// From the socket to the tunnel stream.
    SocketToStream,
}

/// What has reached the destination of a copy loop.
pub struct Sink {
    /// The bytes written, in the order of their writing.
    pub bytes: Seq<u8>,
    /// Whether the destination's write side was closed.
    pub closed: bool,
}

/// The chunks of `source`, one after the other.
pub open spec fn joined(source: Seq<Seq<u8>>) -> Seq<u8>
    decreases source.len(),
{
    if source.len() == 0 {
        Seq::empty()
    } else {
        source.first() + joined(source.drop_first())
    }
}

/// What a driver reports of a read in the given direction, from a source
/// that has the chunks `source` yet to give.
pub open spec fn read_from(direction: Direction, source: Seq<Seq<u8>>) -> Event {
    Event::Read(
        match direction {
            Direction::StreamToSocket => Chunk::of_stream(
                if source.len() == 0 {
                    None
                } else {
                    Some(source.first().len() as usize)
                },
            ),
            Direction::SocketToStream => Chunk::of_socket(
                if source.len() == 0 {
                    0
                } else {
                    source.first().len() as usize
                },
            ),
        },
    )
}

/// A measure of the steps left before a loop next reads.
pub open spec fn steps_left(step: Step) -> nat {
    match step {
        Step::Write(_) => 3,
        Step::Read => 2,
        Step::Close => 1,
        Step::Stop => 0,
    }
}

/// What has reached the destination once a copy loop has stopped, where the
/// loop is at `step`, its source has the chunks `source` yet to give, the
/// buffer holds `buffer`, the destination has `sink`, and the driver does
/// what each step asks: a read puts the next chunk at the start of the
/// buffer, a write appends the start of the buffer to the destination.
pub open spec fn driven(
    direction: Direction,
    step: Step,
    source: Seq<Seq<u8>>,
    buffer: Seq<u8>,
    sink: Sink,
) -> Sink
    decreases source.len(), steps_left(step),
{
    match step {
        Step::Read => if step.next(read_from(direction, source)) is Write {
            driven(
                direction,
                step.next(read_from(direction, source)),
                source.drop_first(),
                source.first() + buffer.skip(source.first().len() as int),
                sink,
            )
        } else {
            driven(direction, step.next(read_from(direction, source)), source, buffer, sink)
        },
        Step::Write(len) => driven(
            direction,
            step.next(Event::Written),
            source,
            buffer,
            Sink { bytes: sink.bytes + buffer.take(len as int), closed: sink.closed },
        ),
        Step::Close => driven(
            direction,
            step.next(Event::Closed),
            source,
            buffer,
            Sink { bytes: sink.bytes, closed: true },
        ),
        Step::Stop => sink,
    }
}

/// Whether a source can give the chunks `source` in the given direction:
/// each fits the buffer, and a socket gives no empty chunk before its end.
pub open spec fn readable(direction: Direction, source: Seq<Seq<u8>>) -> bool {
    forall|i: int|
        0 <= i < source.len() ==> {
            &&& (#[trigger] source[i]).len() <= BUFFER_LEN
            &&& direction == Direction::SocketToStream ==> source[i].len() > 0
        }
}

/// Driven as its steps ask, a copy loop writes to its destination the bytes
/// that its source gives, all of them and in their order, and then closes
/// the destination's write side.
pub proof fn copy_forwards_every_byte(
    direction: Direction,
    source: Seq<Seq<u8>>,
    buffer: Seq<u8>,
    sink: Sink,
)
    requires
        readable(direction, source),
        buffer.len() == BUFFER_LEN,
    ensures
        driven(direction, Step::Read, source, buffer, sink) == (Sink {
            bytes: sink.bytes + joined(source),
            closed: true,
        }),
    decreases source.len(),
{
    if source.len() == 0 {
        reveal_with_fuel(driven, 4);
    } else {
        let chunk = source.first();
        let rest = source.drop_first();
        let len = chunk.len() as usize;
        let filled = chunk + buffer.skip(chunk.len() as int);
        assert(filled.take(len as int) == chunk);
        let written = Sink { bytes: sink.bytes + chunk, closed: sink.closed };
        assert forall|i: int| 0 <= i < rest.len() implies {
            &&& (#[trigger] rest[i]).len() <= BUFFER_LEN
            &&& direction == Direction::SocketToStream ==> rest[i].len() > 0
        } by {
            assert(rest[i] == source[i + 1]);
        }
        copy_forwards_every_byte(direction, rest, filled, written);
        assert(driven(direction, Step::Read, source, buffer, sink) == driven(
            direction,
            Step::Write(len),
            rest,
            filled,
            sink,
        ));
        assert(written.bytes + joined(rest) == sink.bytes + joined(source));
    }
}

/// How far a pump has come, as far as the endings of its two copy loops
/// tell.
#[derive(Debug, Clone, Copy, PartialEq, Eq, Structural)]
pub enum Pump {
    /// Both loops run.
    Running,
    /// The loop of this direction has stopped; the other runs on.
    HalfDone(Direction),
    /// Both loops have stopped: all data forwarded, both directions closed.
    Complete,
    /// The loop of this direction failed, and the pump with it: what is left
    /// of the other loop is dropped.
    Failed(Direction),
}

impl Pump {
    /// The pump once the loop of `direction` has ended with `ending`. The
    /// first failure fails the pump; each loop ends once, and a pump that is
    /// over stays as it is.
    pub open spec fn next(self, direction: Direction, ending: Ending) -> Pump {
        match self {
            Pump::Running => match ending {
                Ending::Clean => Pump::HalfDone(direction),
                Ending::Failed => Pump::Failed(direction),
            },
            Pump::HalfDone(done) => if done == direction {
                self
            } else {
                match ending {
                    Ending::Clean => Pump::Complete,
                    Ending::Failed => Pump::Failed(direction),
                }
            },
            Pump::Complete => self,
            Pump::Failed(_) => self,
        }
    }

    /// How the pump ended, if it is over.
    pub open spec fn ending(self) -> Option<Ending> {
        match self {
            Pump::Complete => Some(Ending::Clean),
            Pump::Failed(_) => Some(Ending::Failed),
            _ => None,
        }
    }

    /// Whether the loop of `direction` still runs.
    pub open spec fn runs(self, direction: Direction) -> bool {
        match self {
            Pump::Running => true,
            Pump::HalfDone(done) => done != direction,
            _ => false,
        }
    }

    /// A pump whose two loops are about to run.
    pub fn start() -> (pump: Pump)
        ensures
            pump == Pump::Running,
    {
        Pump::Running
    }

    /// Takes in the ending of the loop of `direction`.
    pub fn after(self, direction: Direction, ending: Ending) -> (pump: Pump)
        ensures
            pump == self.next(direction, ending),
    {
        match self {
            Pump::Running => match ending {
                Ending::Clean => Pump::HalfDone(direction),
                Ending::Failed => Pump::Failed(direction),
            },
            Pump::HalfDone(done) => if done == direction {
                self
            } else {
                match ending {
                    Ending::Clean => Pump::Complete,
                    Ending::Failed => Pump::Failed(direction),
                }
            },
            Pump::Complete => self,
            Pump::Failed(_) => self,
        }
    }

    /// How the pump ended: nothing while a loop of it runs.
    pub fn how_ended(self) -> (ending: Option<Ending>)
        ensures
            ending == self.ending(),
    {
        match self {
            Pump::Complete => Some(Ending::Clean),
            Pump::Failed(_) => Some(Ending::Failed),
            _ => None,
        }
    }

    /// Whether the loop of `direction` still runs.
    pub fn is_running(self, direction: Direction) -> (runs: bool)
        ensures
            runs == self.runs(direction),
    {
        match self {
            Pump::Running => true,
            Pump::HalfDone(done) => done != direction,
            _ => false,
        }
    }
}

/// The pump once the endings `endings` were taken in, in that order, each
/// the direction of a loop and how the loop ended.
pub open spec fn pump_after(endings: Seq<(Direction, Ending)>) -> Pump
    decreases endings.len(),
{
    if endings.len() == 0 {
        Pump::Running
    } else {
        pump_after(endings.drop_last()).next(endings.last().0, endings.last().1)
    }
}

/// A pump is complete only if each of its two loops stopped clean, and
/// failed only if a loop failed; a pump that is over is no longer changed by
/// what it hears.
pub proof fn pump_joins_both(endings: Seq<(Direction, Ending)>)
    ensures
        pump_after(endings) == Pump::Complete ==> {
            &&& endings.contains((Direction::StreamToSocket, Ending::Clean))
            &&& endings.contains((Direction::SocketToStream, Ending::Clean))
        },
        pump_after(endings) matches Pump::Failed(direction) ==> endings.contains(
            (direction, Ending::Failed),
        ),
        pump_after(endings) matches Pump::HalfDone(direction) ==> endings.contains(
            (direction, Ending::Clean),
        ),
        forall|k: int|
            0 <= k <= endings.len() && (#[trigger] pump_after(endings.take(k))).ending() is Some
                ==> pump_after(endings) == pump_after(endings.take(k)),
    decreases endings.len(),
{
    if endings.len() > 0 {
        let front = endings.drop_last();
        pump_joins_both(front);
        assert forall|e: (Direction, Ending)| front.contains(e) implies endings.contains(e) by {
            let i = choose|i: int| 0 <= i < front.len() && front[i] == e;
            assert(endings[i] == e);
        }
        assert(endings.contains(endings.last()));
        assert forall|k: int|
            0 <= k <= endings.len() && (#[trigger] pump_after(endings.take(k))).ending() is Some
            implies pump_after(endings) == pump_after(endings.take(k)) by {
            if k < endings.len() {
                assert(front.take(k) == endings.take(k));
            } else {
                assert(endings.take(k) == endings);
            }
        }
    } else {
        assert forall|k: int|
            0 <= k <= endings.len() && (#[trigger] pump_after(endings.take(k))).ending() is Some
            implies pump_after(endings) == pump_after(endings.take(k)) by {
            assert(endings.take(k) == endings);
        }
    }
}

/// A loop that stops clean leaves the loop of the other direction running:
/// the pump is not over until that one has ended too.
pub proof fn half_close_keeps_the_other_way(direction: Direction, other: Direction)
    requires
        other != direction,
    ensures
        Pump::Running.next(direction, Ending::Clean).runs(other),
        !Pump::Running.next(direction, Ending::Clean).runs(direction),
        Pump::Running.next(direction, Ending::Clean).ending() is None,
{
}

} // verus!
