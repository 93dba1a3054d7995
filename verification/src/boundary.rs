//! Checks on the arguments of the entry points, before any session is
//! touched.

use vstd::prelude::*;
use crate::command::{parsed, split_words, ChildSpec, ChildSpecView, CommandError};
use crate::environ::block_vars;
use crate::registry::Registry;
use crate::status::ERROR;

verus! {

/// The size of a terminal in character cells.
#[derive(Clone, Copy, Debug, PartialEq, Eq, Structural)]
pub struct TerminalSize {
    pub cols: u16,
    pub rows: u16,
}

/// What to spawn, and on a terminal of what size.
#[derive(Clone, Debug)]
pub struct SpawnRequest {
    pub child: ChildSpec,
    pub size: TerminalSize,
}

/// The low 16 bits of an integer.
pub open spec fn low16(x: i32) -> int {
    (x as int) % 0x1_0000
}

/// Keeps the low 16 bits of an integer.
pub fn truncate16(x: i32) -> (low: u16)
    ensures
        low == low16(x),
{
    // the unsigned integer with the same 32 bits
    let bits: u32 = if x >= 0 {
        x as u32
    } else {
        (x - i32::MIN) as u32 + 0x8000_0000
    };
    (bits % 0x1_0000) as u16
}

impl TerminalSize {
    /// The size that two integers of the caller stand for: the low 16 bits
    /// of each.
    pub open spec fn of(cols: i32, rows: i32) -> TerminalSize {
        TerminalSize { cols: low16(cols) as u16, rows: low16(rows) as u16 }
    }

    /// Reads a size from two integers of the caller. Dimensions that fit 16
    /// bits are taken as they are.
    pub fn from_raw(cols: i32, rows: i32) -> (size: TerminalSize)
        ensures
            size == TerminalSize::of(cols, rows),
            0 <= cols <= u16::MAX ==> size.cols == cols,
            0 <= rows <= u16::MAX ==> size.rows == rows,
    {
        TerminalSize { cols: truncate16(cols), rows: truncate16(rows) }
    }
}

/// Reads the arguments of a spawn. The command line is split into words
/// under the quoting rules of the Unix shell; its first word is the program.
pub fn spawn_request(
    command_line: &str,
    cwd: &str,
    env_block: &[u8],
    cols: i32,
    rows: i32,
) -> (request: Result<SpawnRequest, CommandError>)
    ensures
        match request {
            Ok(r) => {
                &&& r.child.wf()
                &&& parsed(split_words(command_line@), cwd@, block_vars(env_block@)) == Ok::<
                    ChildSpecView,
                    CommandError,
                >(r.child@)
                &&& r.size == TerminalSize::of(cols, rows)
            },
            Err(e) => parsed(split_words(command_line@), cwd@, block_vars(env_block@)) == Err::<
                ChildSpecView,
                CommandError,
            >(e),
        },
{
    match ChildSpec::parse(command_line, cwd, env_block) {
        Ok(child) => Ok(SpawnRequest { child, size: TerminalSize::from_raw(cols, rows) }),
        Err(e) => Err(e),
    }
}

/// Stores a session that was opened and gives the integer that reports the
/// spawn: its handle, which is positive, or the error code where the handles
/// are used up, in which case the session is dropped.
pub fn register<S>(registry: &mut Registry<S>, session: S) -> (c: i32)
    requires
        old(registry).wf(),
    ensures
        final(registry).wf(),
        final(registry)@ == old(registry)@.inserted(session),
        c == if old(registry)@.full() {
            ERROR as int
        } else {
            old(registry)@.next as int
        },
        !old(registry)@.full() ==> c > 0 && final(registry)@.sessions.contains_key(c as u32)
            && final(registry)@.sessions[c as u32] == session,
{
    match registry.insert(session) {
        Ok(handle) => handle as i32,
        Err(_) => ERROR,
    }
}

/// Checks the arguments of a read or a write: a positive handle, a buffer,
/// and a positive length. Gives the length.
pub fn check_transfer(handle: i32, has_buffer: bool, len: i32) -> (checked: Option<usize>)
    ensures
        checked == if handle > 0 && has_buffer && len > 0 {
            Some(len as usize)
        } else {
            None
        },
{
    if handle <= 0 || !has_buffer || len <= 0 {
        None
    } else {
        Some(len as usize)
    }
}

/// Checks the arguments of a resize: a positive handle and positive
/// dimensions. Gives the size.
pub fn check_resize(handle: i32, cols: i32, rows: i32) -> (checked: Option<TerminalSize>)
    ensures
        checked == if handle > 0 && cols > 0 && rows > 0 {
            Some(TerminalSize::of(cols, rows))
        } else {
            None
        },
{
    if handle <= 0 || cols <= 0 || rows <= 0 {
        None
    } else {
        Some(TerminalSize::from_raw(cols, rows))
    }
}

/// Finds the session that a call is for. The error is the integer to reply
/// with: a handle that is not positive, or that names no open session, ends
/// the call with the error code and nothing done.
pub fn route<S>(registry: &Registry<S>, handle: i32) -> (routed: Result<&S, i32>)
    ensures
        match routed {
            Ok(session) => {
                &&& handle > 0
                &&& registry@.sessions.contains_key(handle as u32)
                &&& *session == registry@.sessions[handle as u32]
            },
            Err(reply) => {
                &&& reply == ERROR
                &&& handle <= 0 || !registry@.sessions.contains_key(handle as u32)
            },
        },
{
    match registry.lookup(handle) {
        Ok(session) => Ok(session),
        Err(e) => Err(e.code()),
    }
}

/// Finds the session and the length for a read or a write. The arguments are
/// looked at before the table is: bad arguments end the call with the error
/// code whether or not the handle names a session.
pub fn route_transfer<S>(registry: &Registry<S>, handle: i32, has_buffer: bool, len: i32) -> (routed:
    Result<(&S, usize), i32>)
    ensures
        match routed {
            Ok((session, length)) => {
                &&& handle > 0 && has_buffer && len > 0
                &&& length == len
                &&& registry@.sessions.contains_key(handle as u32)
                &&& *session == registry@.sessions[handle as u32]
            },
            Err(reply) => {
                &&& reply == ERROR
                &&& !(handle > 0 && has_buffer && len > 0 && registry@.sessions.contains_key(
                    handle as u32,
                ))
            },
        },
{
    match check_transfer(handle, has_buffer, len) {
        Some(length) => match route(registry, handle) {
            Ok(session) => Ok((session, length)),
            Err(reply) => Err(reply),
        },
        None => Err(ERROR),
    }
}

/// Finds the session and the size for a resize, in the same way.
pub fn route_resize<S>(registry: &Registry<S>, handle: i32, cols: i32, rows: i32) -> (routed:
    Result<(&S, TerminalSize), i32>)
    ensures
        match routed {
            Ok((session, size)) => {
                &&& handle > 0 && cols > 0 && rows > 0
                &&& size == TerminalSize::of(cols, rows)
                &&& registry@.sessions.contains_key(handle as u32)
                &&& *session == registry@.sessions[handle as u32]
            },
            Err(reply) => {
                &&& reply == ERROR
                &&& !(handle > 0 && cols > 0 && rows > 0 && registry@.sessions.contains_key(
                    handle as u32,
                ))
            },
        },
{
    match check_resize(handle, cols, rows) {
        Some(size) => match route(registry, handle) {
            Ok(session) => Ok((session, size)),
            Err(reply) => Err(reply),
        },
        None => Err(ERROR),
    }
}

} // verus!
