//! Draining a non-blocking descriptor into a caller's buffer in one call.
//!
//! The caller owns the descriptor and the buffer. It starts a [`Drain`],
//! performs each read that the drain asks for, reports what the read
//! returned, and stops when the drain says so.

use vstd::prelude::*;
use crate::status::{CHILD_EXITED, ERROR, NO_DATA};

verus! {

/// Why a read returned a negative value.
#[derive(Clone, Copy, Debug, PartialEq, Eq, Structural)]
pub enum ReadFailure {
    /// Nothing is available right now.
    WouldBlock,
    /// A signal arrived before any byte did.
    Interrupted,
    /// Anything else: a real error.
    Other,
}

/// What one read on the descriptor reported.
#[derive(Clone, Copy, Debug, PartialEq, Eq, Structural)]
pub enum ReadEvent {
    /// This many bytes were stored, at least one.
    Data(usize),
    /// The other side is closed.
    EndOfStream,
    /// Nothing is available right now.
    WouldBlock,
    /// A signal arrived before any byte did.
    Interrupted,
    /// A real error.
    Failed,
}

/// How a read on a session ended.
#[derive(Clone, Copy, Debug, PartialEq, Eq, Structural)]
pub enum ReadResult {
    /// This many bytes were stored at the start of the buffer, at least one.
    Bytes(usize),
    /// Nothing was available and the child still runs: try again later.
    NoData,
    /// Nothing was available and the child has exited: stop trying.
    ChildExited,
    /// The first read failed with a real error.
    IoError,
}

/// What the caller does next.
#[derive(Clone, Copy, Debug, PartialEq, Eq, Structural)]
pub enum DrainStep {
    /// Read at most `len` bytes into the buffer at `offset`, then report the
    /// outcome to [`Drain::advance`].
    Read { offset: usize, len: usize },
    /// Nothing was collected: look at the liveness flag now and hand it to
    /// [`Drain::conclude`].
    CheckExit,
    /// The call is over with this result.
    Done(ReadResult),
}

/// Progress of one read call: how large the buffer is and how much of it is
/// filled.
#[derive(Clone, Copy, Debug, PartialEq, Eq, Structural)]
pub struct Drain {
    pub capacity: usize,
    pub collected: usize,
}

impl ReadEvent {
    /// The event that a read's return value stands for. `failure` is looked at
    /// only where the value is negative.
    pub open spec fn of(ret: isize, failure: ReadFailure) -> ReadEvent {
        if ret > 0 {
            ReadEvent::Data(ret as usize)
        } else if ret == 0 {
            ReadEvent::EndOfStream
        } else {
            match failure {
                ReadFailure::WouldBlock => ReadEvent::WouldBlock,
                ReadFailure::Interrupted => ReadEvent::Interrupted,
                ReadFailure::Other => ReadEvent::Failed,
            }
        }
    }

    /// Classifies the return value of a read.
    pub fn classify(ret: isize, failure: ReadFailure) -> (event: ReadEvent)
        ensures
            event == ReadEvent::of(ret, failure),
    {
        if ret > 0 {
            ReadEvent::Data(ret as usize)
        } else if ret == 0 {
            ReadEvent::EndOfStream
        } else {
            match failure {
                ReadFailure::WouldBlock => ReadEvent::WouldBlock,
                ReadFailure::Interrupted => ReadEvent::Interrupted,
                ReadFailure::Other => ReadEvent::Failed,
            }
        }
    }
}

impl ReadResult {
    /// The integer that stands for this result.
    pub open spec fn spec_code(self) -> int {
        match self {
            ReadResult::Bytes(n) => n as int,
            ReadResult::NoData => NO_DATA as int,
            ReadResult::ChildExited => CHILD_EXITED as int,
            ReadResult::IoError => ERROR as int,
        }
    }

    /// Encodes the result for the caller.
    pub fn code(self) -> (c: i32)
        requires
            self matches ReadResult::Bytes(n) ==> n <= i32::MAX,
        ensures
            c == self.spec_code(),
    {
        match self {
            ReadResult::Bytes(n) => n as i32,
            ReadResult::NoData => NO_DATA,
            ReadResult::ChildExited => CHILD_EXITED,
            ReadResult::IoError => ERROR,
        }
    }
}

impl Drain {
    /// The filled part never exceeds the buffer, and a count of bytes fits the
    /// integer that reports it.
    pub open spec fn wf(self) -> bool {
        self.collected <= self.capacity <= i32::MAX
    }

    /// Room left in the buffer.
    pub open spec fn remaining(self) -> int {
        self.capacity - self.collected
    }

    /// Whether a read is outstanding, so that [`Drain::advance`] may be told
    /// its outcome.
    pub open spec fn reading(self) -> bool {
        self.wf() && self.collected < self.capacity
    }

    /// The step to take with this much collected once reading has stopped
    /// without an error.
    pub open spec fn stopped(self) -> DrainStep {
        if self.collected > 0 {
            DrainStep::Done(ReadResult::Bytes(self.collected))
        } else {
            DrainStep::CheckExit
        }
    }

    /// The step to take while reading goes on.
    pub open spec fn resumed(self) -> DrainStep {
        if self.collected < self.capacity {
            DrainStep::Read { offset: self.collected, len: (self.capacity - self.collected) as usize }
        } else {
            self.stopped()
        }
    }

    /// Whether `event` can be the outcome of the read that is outstanding: a
    /// read stores at least one byte and never more than it was asked for.
    pub open spec fn admits(self, event: ReadEvent) -> bool {
        event matches ReadEvent::Data(n) ==> 0 < n <= self.remaining()
    }

    /// The drain after `event`, which must fit the read that was asked for.
    pub open spec fn after(self, event: ReadEvent) -> Drain {
        match event {
            ReadEvent::Data(n) => Drain { capacity: self.capacity, collected: (self.collected + n) as usize },
            _ => self,
        }
    }

    /// The step that follows `event`.
    pub open spec fn step_after(self, event: ReadEvent) -> DrainStep {
        match event {
            ReadEvent::Data(_) | ReadEvent::Interrupted => self.after(event).resumed(),
            ReadEvent::EndOfStream | ReadEvent::WouldBlock => self.stopped(),
            ReadEvent::Failed => if self.collected > 0 {
                self.stopped()
            } else {
                DrainStep::Done(ReadResult::IoError)
            },
        }
    }

    /// Starts a read call on a buffer of `capacity` bytes. `exited` is the
    /// liveness flag as it stands now: once it is set, no read is attempted.
    pub fn begin(capacity: usize, exited: bool) -> (started: (Drain, DrainStep))
        requires
            capacity <= i32::MAX,
        ensures
            started.0 == (Drain { capacity, collected: 0 }),
            started.0.wf(),
            started.1 == if exited {
                DrainStep::Done(ReadResult::ChildExited)
            } else {
                started.0.resumed()
            },
    {
        let drain = Drain { capacity, collected: 0 };
        let step = if exited {
            DrainStep::Done(ReadResult::ChildExited)
        } else if capacity > 0 {
            DrainStep::Read { offset: 0, len: capacity }
        } else {
            DrainStep::CheckExit
        };
        (drain, step)
    }

    /// Takes in the outcome of the read that was asked for and decides how to
    /// go on: bytes are kept and reading continues until the buffer is full;
    /// an interruption is retried; "would block" and end of stream stop the
    /// loop; a real error stops it too, and is reported only if nothing was
    /// collected before it.
    pub fn advance(&mut self, event: ReadEvent) -> (step: DrainStep)
        requires
            old(self).reading(),
            old(self).admits(event),
        ensures
            *final(self) == old(self).after(event),
            final(self).wf(),
            step == old(self).step_after(event),
    {
        match event {
            ReadEvent::Data(n) => {
                self.collected = self.collected + n;
                self.next_read()
            },
            ReadEvent::Interrupted => self.next_read(),
            ReadEvent::EndOfStream | ReadEvent::WouldBlock => self.stop(),
            ReadEvent::Failed => {
                if self.collected > 0 {
                    self.stop()
                } else {
                    DrainStep::Done(ReadResult::IoError)
                }
            },
        }
    }

    /// The result of a call that collected nothing and met no error, given the
    /// liveness flag as it stands after the loop.
    pub fn conclude(exited: bool) -> (result: ReadResult)
        ensures
            result == if exited {
                ReadResult::ChildExited
            } else {
                ReadResult::NoData
            },
    {
        if exited {
            ReadResult::ChildExited
        } else {
            ReadResult::NoData
        }
    }

    fn next_read(&self) -> (step: DrainStep)
        requires
            self.wf(),
        ensures
            step == self.resumed(),
    {
        if self.collected < self.capacity {
            DrainStep::Read { offset: self.collected, len: self.capacity - self.collected }
        } else {
            self.stop()
        }
    }

    fn stop(&self) -> (step: DrainStep)
        ensures
            step == self.stopped(),
    {
        if self.collected > 0 {
            DrainStep::Done(ReadResult::Bytes(self.collected))
        } else {
            DrainStep::CheckExit
        }
    }
}

/// Where a read call on a buffer of `capacity` bytes stands after its reads
/// so far have ended as `events` tells, in order. `exited` is the liveness
/// flag at the start of the call. Once the call is over, further entries
/// change nothing.
pub open spec fn replay(capacity: usize, exited: bool, events: Seq<ReadEvent>) -> (Drain, DrainStep)
    decreases events.len(),
{
    if events.len() == 0 {
        let drain = Drain { capacity, collected: 0 };
        (
            drain,
            if exited {
                DrainStep::Done(ReadResult::ChildExited)
            } else {
                drain.resumed()
            },
        )
    } else {
        let (drain, step) = replay(capacity, exited, events.drop_last());
        if step is Read {
            (drain.after(events.last()), drain.step_after(events.last()))
        } else {
            (drain, step)
        }
    }
}

/// Number of bytes that the reads stored, all together.
pub open spec fn stored(events: Seq<ReadEvent>) -> nat
    decreases events.len(),
{
    if events.len() == 0 {
        0
    } else {
        stored(events.drop_last()) + match events.last() {
            ReadEvent::Data(n) => n as nat,
            _ => 0,
        }
    }
}

/// Whether `events` can be the reads of one call: each is the outcome of a
/// read that the call asked for.
pub open spec fn answers(capacity: usize, exited: bool, events: Seq<ReadEvent>) -> bool {
    forall|k: int|
        0 <= k < events.len() ==> {
            let (drain, step) = #[trigger] replay(capacity, exited, events.take(k));
            step is Read && drain.admits(events[k])
        }
}

/// A read call loses no byte and reorders none: each read is asked to store
/// right behind what is already collected, and what the call reports is the
/// sum of what its reads stored. A call that stored anything reports that
/// count, whatever ended it; an error is reported only by a call that stored
/// nothing and whose last read failed; and a call never reads once the child
/// is known to have exited.
pub proof fn law_drain_keeps_every_byte(capacity: usize, exited: bool, events: Seq<ReadEvent>)
    requires
        capacity <= i32::MAX,
        answers(capacity, exited, events),
    ensures
        ({
            let (drain, step) = replay(capacity, exited, events);
            &&& drain.wf()
            &&& drain.capacity == capacity
            &&& drain.collected == stored(events)
            &&& match step {
                DrainStep::Read { offset, len } => {
                    &&& !exited
                    &&& offset == stored(events)
                    &&& offset + len == capacity
                    &&& len > 0
                },
                DrainStep::CheckExit => !exited && stored(events) == 0,
                DrainStep::Done(ReadResult::Bytes(n)) => !exited && n == stored(events) && n > 0,
                DrainStep::Done(ReadResult::IoError) => {
                    &&& !exited
                    &&& stored(events) == 0
                    &&& events.len() > 0
                    &&& events.last() == ReadEvent::Failed
                },
                DrainStep::Done(ReadResult::ChildExited) => exited && events.len() == 0,
                DrainStep::Done(ReadResult::NoData) => false,
            }
        }),
    decreases events.len(),
{
    if events.len() > 0 {
        let earlier = events.drop_last();
        assert(answers(capacity, exited, earlier)) by {
            assert forall|k: int| 0 <= k < earlier.len() implies {
                let (drain, step) = #[trigger] replay(capacity, exited, earlier.take(k));
                step is Read && drain.admits(earlier[k])
            } by {
                assert(earlier.take(k) =~= events.take(k));
                let (drain, step) = replay(capacity, exited, events.take(k));
                assert(step is Read && drain.admits(events[k]));
            }
        }
        law_drain_keeps_every_byte(capacity, exited, earlier);
        let last = events.len() - 1;
        assert(events.take(last) =~= earlier);
        let (drain, step) = replay(capacity, exited, events.take(last));
        assert(step is Read && drain.admits(events[last]));
    }
}

} // verus!
