//! Writing to a session: all of the bytes, then a flush, or an error.

use vstd::prelude::*;
use crate::status::Status;

verus! {

/// One step of a write.
#[derive(Clone, Copy, Debug, PartialEq, Eq, Structural)]
pub enum WriteStage {
    /// Write all of the bytes, blocking as long as it takes.
    WriteAll,
    /// Flush the stream.
    Flush,
}

/// What follows a step of a write.
#[derive(Clone, Copy, Debug, PartialEq, Eq, Structural)]
pub enum WriteNext {
    /// Run this step, under the lock on the write stream.
    Run(WriteStage),
    /// The call is over with this status.
    Done(Status),
}

impl WriteStage {
    /// What follows this step, given whether it succeeded: a failure of
    /// either step is an error, and only a flush that worked is success.
    pub open spec fn followed_by(self, ok: bool) -> WriteNext {
        if !ok {
            WriteNext::Done(Status::IoError)
        } else {
            match self {
                WriteStage::WriteAll => WriteNext::Run(WriteStage::Flush),
                WriteStage::Flush => WriteNext::Done(Status::Success),
            }
        }
    }

    /// Decides what follows this step.
    pub fn advance(self, ok: bool) -> (next: WriteNext)
        ensures
            next == self.followed_by(ok),
    {
        if !ok {
            WriteNext::Done(Status::IoError)
        } else {
            match self {
                WriteStage::WriteAll => WriteNext::Run(WriteStage::Flush),
                WriteStage::Flush => WriteNext::Done(Status::Success),
            }
        }
    }
}

/// Starts a write. `exited` is the liveness flag as it stands now: once it is
/// set, nothing is written.
pub fn begin_write(exited: bool) -> (next: WriteNext)
    ensures
        next == if exited {
            WriteNext::Done(Status::ChildExited)
        } else {
            WriteNext::Run(WriteStage::WriteAll)
        },
{
    if exited {
        WriteNext::Done(Status::ChildExited)
    } else {
        WriteNext::Run(WriteStage::WriteAll)
    }
}

/// The integer that reports a write of `len` bytes: the count where all of
/// them were written, else the code of the status.
pub open spec fn write_code(status: Status, len: usize) -> int {
    match status {
        Status::Success => len as int,
        _ => status.spec_code() as int,
    }
}

/// Encodes the outcome of a write of `len` bytes for the caller.
pub fn write_reply(status: Status, len: usize) -> (c: i32)
    requires
        len <= i32::MAX,
    ensures
        c == write_code(status, len),
{
    match status {
        Status::Success => len as i32,
        _ => status.code(),
    }
}

} // verus!
