use punch::proxy::{Chunk, Direction, Event, Pump, Step, BUFFER_LEN};
use punch::supervise::Ending;

const BOTH: [Direction; 2] = [Direction::StreamToSocket, Direction::SocketToStream];

fn other(direction: Direction) -> Direction {
    match direction {
        Direction::StreamToSocket => Direction::SocketToStream,
        Direction::SocketToStream => Direction::StreamToSocket,
    }
}

#[test]
fn buffer_has_eight_kibibytes() {
    assert_eq!(BUFFER_LEN, 8192);
}

#[test]
fn stream_read_ends_on_none() {
    assert_eq!(Chunk::from_stream(None), Chunk::End);
    assert_eq!(Chunk::from_stream(Some(11)), Chunk::Data(11));
    assert_eq!(Chunk::from_stream(Some(8192)), Chunk::Data(8192));
    assert_eq!(Chunk::from_stream(Some(0)), Chunk::Data(0));
}

#[test]
fn socket_read_ends_on_zero() {
    assert_eq!(Chunk::from_socket(0), Chunk::End);
    assert_eq!(Chunk::from_socket(1), Chunk::Data(1));
    assert_eq!(Chunk::from_socket(11), Chunk::Data(11));
    assert_eq!(Chunk::from_socket(8192), Chunk::Data(8192));
}

#[test]
fn copy_loop_reads_then_writes_then_reads_again() {
    let step = Step::start();
    assert_eq!(step, Step::Read);
    let step = step.after(Event::Read(Chunk::Data(11)));
    assert_eq!(step, Step::Write(11));
    let step = step.after(Event::Written);
    assert_eq!(step, Step::Read);
    let step = step.after(Event::Read(Chunk::Data(8192)));
    assert_eq!(step, Step::Write(8192));
    let step = step.after(Event::Written);
    assert_eq!(step, Step::Read);
}

#[test]
fn copy_loop_closes_once_at_the_end_and_stops() {
    let step = Step::start().after(Event::Read(Chunk::End));
    assert_eq!(step, Step::Close);
    let step = step.after(Event::Closed);
    assert_eq!(step, Step::Stop);
    for event in [
        Event::Read(Chunk::Data(1)),
        Event::Read(Chunk::End),
        Event::Written,
        Event::Closed,
    ] {
        assert_eq!(step.after(event), Step::Stop);
    }
}

#[test]
fn copy_loop_is_not_moved_by_what_does_not_answer_its_step() {
    for event in [Event::Written, Event::Closed] {
        assert_eq!(Step::Read.after(event), Step::Read);
    }
    for event in [Event::Read(Chunk::Data(3)), Event::Read(Chunk::End), Event::Closed] {
        assert_eq!(Step::Write(5).after(event), Step::Write(5));
    }
    for event in [Event::Read(Chunk::Data(3)), Event::Read(Chunk::End), Event::Written] {
        assert_eq!(Step::Close.after(event), Step::Close);
    }
}

#[test]
fn copy_loop_writes_an_empty_chunk_of_a_stream_and_reads_on() {
    let step = Step::start().after(Event::Read(Chunk::from_stream(Some(0))));
    assert_eq!(step, Step::Write(0));
    assert_eq!(step.after(Event::Written), Step::Read);
}

#[test]
fn pump_is_complete_when_both_ways_stopped_clean() {
    for first in BOTH {
        let pump = Pump::start();
        assert_eq!(pump, Pump::Running);
        assert_eq!(pump.how_ended(), None);
        let pump = pump.after(first, Ending::Clean);
        assert_eq!(pump, Pump::HalfDone(first));
        assert_eq!(pump.how_ended(), None);
        let pump = pump.after(other(first), Ending::Clean);
        assert_eq!(pump, Pump::Complete);
        assert_eq!(pump.how_ended(), Some(Ending::Clean));
    }
}

#[test]
fn pump_fails_with_the_first_loop_that_fails() {
    for first in BOTH {
        assert_eq!(Pump::start().after(first, Ending::Failed), Pump::Failed(first));
        assert_eq!(Pump::start().after(first, Ending::Failed).how_ended(), Some(Ending::Failed));
        let half = Pump::start().after(first, Ending::Clean);
        assert_eq!(half.after(other(first), Ending::Failed), Pump::Failed(other(first)));
        let failed = Pump::start().after(first, Ending::Failed);
        assert_eq!(failed.after(other(first), Ending::Failed), Pump::Failed(first));
        assert_eq!(failed.after(other(first), Ending::Clean), Pump::Failed(first));
    }
}

#[test]
fn pump_hears_each_loop_once() {
    for first in BOTH {
        let half = Pump::start().after(first, Ending::Clean);
        assert_eq!(half.after(first, Ending::Clean), half);
        assert_eq!(half.after(first, Ending::Failed), half);
        for direction in BOTH {
            for ending in [Ending::Clean, Ending::Failed] {
                assert_eq!(Pump::Complete.after(direction, ending), Pump::Complete);
            }
        }
    }
}

#[test]
fn pump_tells_which_loops_run() {
    for direction in BOTH {
        assert!(Pump::Running.is_running(direction));
        assert!(!Pump::HalfDone(direction).is_running(direction));
        assert!(Pump::HalfDone(direction).is_running(other(direction)));
        assert!(!Pump::Complete.is_running(direction));
        assert!(!Pump::Failed(direction).is_running(direction));
        assert!(!Pump::Failed(direction).is_running(other(direction)));
    }
}
