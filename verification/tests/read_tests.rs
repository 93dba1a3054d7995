use bun_pty::read::{Drain, DrainStep, ReadEvent, ReadFailure, ReadResult};

#[test]
fn silent_running_child_gives_no_data_after_one_read() {
    let (mut drain, step) = Drain::begin(4096, false);
    assert_eq!(step, DrainStep::Read { offset: 0, len: 4096 });
    let event = ReadEvent::classify(-1, ReadFailure::WouldBlock);
    assert_eq!(drain.advance(event), DrainStep::CheckExit);
    let result = Drain::conclude(false);
    assert_eq!(result, ReadResult::NoData);
    assert_eq!(result.code(), 0);
}

#[test]
fn exited_child_is_reported_without_a_read() {
    let (drain, step) = Drain::begin(4096, true);
    assert_eq!(step, DrainStep::Done(ReadResult::ChildExited));
    assert_eq!(drain.collected, 0);
    assert_eq!(ReadResult::ChildExited.code(), -2);
}

#[test]
fn nothing_buffered_and_child_gone_is_child_exited() {
    let (mut drain, _) = Drain::begin(16, false);
    assert_eq!(drain.advance(ReadEvent::EndOfStream), DrainStep::CheckExit);
    assert_eq!(Drain::conclude(true), ReadResult::ChildExited);
    assert_eq!(Drain::conclude(true).code(), -2);
}

#[test]
fn drain_collects_chunks_in_order_until_would_block() {
    let (mut drain, step) = Drain::begin(100, false);
    assert_eq!(step, DrainStep::Read { offset: 0, len: 100 });
    assert_eq!(drain.advance(ReadEvent::Data(10)), DrainStep::Read { offset: 10, len: 90 });
    assert_eq!(drain.advance(ReadEvent::Data(25)), DrainStep::Read { offset: 35, len: 65 });
    assert_eq!(drain.advance(ReadEvent::WouldBlock), DrainStep::Done(ReadResult::Bytes(35)));
    assert_eq!(drain.collected, 35);
    assert_eq!(drain.capacity, 100);
    assert_eq!(ReadResult::Bytes(35).code(), 35);
}

#[test]
fn drain_stops_when_the_buffer_is_full() {
    let (mut drain, _) = Drain::begin(8, false);
    assert_eq!(drain.advance(ReadEvent::Data(5)), DrainStep::Read { offset: 5, len: 3 });
    assert_eq!(drain.advance(ReadEvent::Data(3)), DrainStep::Done(ReadResult::Bytes(8)));
}

#[test]
fn one_read_may_fill_the_buffer() {
    let (mut drain, _) = Drain::begin(1, false);
    assert_eq!(drain.advance(ReadEvent::Data(1)), DrainStep::Done(ReadResult::Bytes(1)));
}

#[test]
fn interruption_is_retried_with_the_same_request() {
    let (mut drain, _) = Drain::begin(64, false);
    assert_eq!(drain.advance(ReadEvent::Interrupted), DrainStep::Read { offset: 0, len: 64 });
    assert_eq!(drain.advance(ReadEvent::Data(4)), DrainStep::Read { offset: 4, len: 60 });
    assert_eq!(drain.advance(ReadEvent::Interrupted), DrainStep::Read { offset: 4, len: 60 });
    assert_eq!(drain.advance(ReadEvent::EndOfStream), DrainStep::Done(ReadResult::Bytes(4)));
}

#[test]
fn error_after_data_returns_the_data() {
    let (mut drain, _) = Drain::begin(64, false);
    assert_eq!(drain.advance(ReadEvent::Data(7)), DrainStep::Read { offset: 7, len: 57 });
    assert_eq!(drain.advance(ReadEvent::Failed), DrainStep::Done(ReadResult::Bytes(7)));
}

#[test]
fn error_on_the_first_read_is_an_error() {
    let (mut drain, _) = Drain::begin(64, false);
    assert_eq!(drain.advance(ReadEvent::Failed), DrainStep::Done(ReadResult::IoError));
    assert_eq!(ReadResult::IoError.code(), -1);
}

#[test]
fn error_after_an_interruption_alone_is_an_error() {
    let (mut drain, _) = Drain::begin(64, false);
    assert_eq!(drain.advance(ReadEvent::Interrupted), DrainStep::Read { offset: 0, len: 64 });
    assert_eq!(drain.advance(ReadEvent::Failed), DrainStep::Done(ReadResult::IoError));
}

#[test]
fn empty_buffer_reads_nothing() {
    let (_, step) = Drain::begin(0, false);
    assert_eq!(step, DrainStep::CheckExit);
    let (_, step) = Drain::begin(0, true);
    assert_eq!(step, DrainStep::Done(ReadResult::ChildExited));
}

#[test]
fn read_return_values_are_classified() {
    assert_eq!(ReadEvent::classify(12, ReadFailure::Other), ReadEvent::Data(12));
    assert_eq!(ReadEvent::classify(1, ReadFailure::WouldBlock), ReadEvent::Data(1));
    assert_eq!(ReadEvent::classify(0, ReadFailure::Other), ReadEvent::EndOfStream);
    assert_eq!(ReadEvent::classify(0, ReadFailure::WouldBlock), ReadEvent::EndOfStream);
    assert_eq!(ReadEvent::classify(-1, ReadFailure::WouldBlock), ReadEvent::WouldBlock);
    assert_eq!(ReadEvent::classify(-1, ReadFailure::Interrupted), ReadEvent::Interrupted);
    assert_eq!(ReadEvent::classify(-1, ReadFailure::Other), ReadEvent::Failed);
    assert_eq!(ReadEvent::classify(isize::MAX, ReadFailure::Other), ReadEvent::Data(isize::MAX as usize));
}

#[test]
fn largest_count_fits_its_code() {
    let (mut drain, step) = Drain::begin(i32::MAX as usize, false);
    assert_eq!(step, DrainStep::Read { offset: 0, len: i32::MAX as usize });
    let step = drain.advance(ReadEvent::Data(i32::MAX as usize));
    assert_eq!(step, DrainStep::Done(ReadResult::Bytes(i32::MAX as usize)));
    assert_eq!(ReadResult::Bytes(i32::MAX as usize).code(), i32::MAX);
}
