//! The integer codes that cross the caller's boundary, and the typed results
//! they encode.

use vstd::prelude::*;

verus! {

/// An operation completed.
pub const SUCCESS: i32 = 0;

/// An operation failed, or its arguments were unusable.
pub const ERROR: i32 = -1;

/// The child has terminated; there is nothing more to read or write.
pub const CHILD_EXITED: i32 = -2;

/// A read found nothing right now: try again later.
pub const NO_DATA: i32 = 0;

/// The signed integer with the same 32 bits as `u`.
pub open spec fn signed(u: u32) -> int {
    if u <= i32::MAX {
        u as int
    } else {
        u - 0x1_0000_0000
    }
}

/// Reads 32 unsigned bits as a signed integer.
pub fn to_signed(u: u32) -> (i: i32)
    ensures
        i == signed(u),
{
    if u <= 0x7fff_ffff {
        u as i32
    } else {
        (u - 0x8000_0000) as i32 + i32::MIN
    }
}

/// How a write, a resize or a kill on an existing session ended.
#[derive(Clone, Copy, Debug, PartialEq, Eq, Structural)]
pub enum Status {
    Success,
    ChildExited,
    IoError,
}

impl Status {
    /// The integer that stands for this status.
    pub open spec fn spec_code(self) -> i32 {
        match self {
            Status::Success => SUCCESS,
            Status::ChildExited => CHILD_EXITED,
            Status::IoError => ERROR,
        }
    }

    /// Encodes the status for the caller.
    pub fn code(self) -> (c: i32)
        ensures
            c == self.spec_code(),
    {
        match self {
            Status::Success => SUCCESS,
            Status::ChildExited => CHILD_EXITED,
            Status::IoError => ERROR,
        }
    }

    /// The status of a system call that either worked or did not.
    pub fn from_ok(ok: bool) -> (s: Status)
        ensures
            s == (if ok { Status::Success } else { Status::IoError }),
    {
        if ok {
            Status::Success
        } else {
            Status::IoError
        }
    }
}

} // verus!
