//! Publishing a child's exit: the code first, then the liveness flag.
//!
//! Two cells are shared between the task that waits for the child and the
//! callers that poll the session. The waiting task is their only writer.

use vstd::prelude::*;
use crate::status::{signed, to_signed};

verus! {

/// The exit code of a child that has not been seen to exit.
pub const NO_EXIT_CODE: i32 = -1;

/// The two shared cells.
#[derive(Clone, Copy, Debug, PartialEq, Eq, Structural)]
pub struct ExitState {
    pub exited: bool,
    pub exit_code: i32,
}

/// One store into the shared cells.
#[derive(Clone, Copy, Debug, PartialEq, Eq, Structural)]
pub enum ExitWrite {
    /// Store the exit code.
    StoreCode(i32),
    /// Set the liveness flag.
    MarkExited,
}

impl ExitState {
    /// The cells of a session whose child runs.
    pub open spec fn running() -> ExitState {
        ExitState { exited: false, exit_code: NO_EXIT_CODE }
    }

    /// The cells after one store.
    pub open spec fn stored(self, write: ExitWrite) -> ExitState {
        match write {
            ExitWrite::StoreCode(code) => ExitState { exited: self.exited, exit_code: code },
            ExitWrite::MarkExited => ExitState { exited: true, exit_code: self.exit_code },
        }
    }

    /// The cells after a run of stores, in order.
    pub open spec fn after(self, writes: Seq<ExitWrite>) -> ExitState
        decreases writes.len(),
    {
        if writes.len() == 0 {
            self
        } else {
            self.after(writes.drop_last()).stored(writes.last())
        }
    }

    /// The cells of a new session.
    pub fn new() -> (state: ExitState)
        ensures
            state == ExitState::running(),
    {
        ExitState { exited: false, exit_code: NO_EXIT_CODE }
    }

    /// Performs one store.
    pub fn store(&mut self, write: ExitWrite)
        ensures
            *final(self) == old(self).stored(write),
    {
        match write {
            ExitWrite::StoreCode(code) => {
                self.exit_code = code;
            },
            ExitWrite::MarkExited => {
                self.exited = true;
            },
        }
    }
}

/// The stores that publish the end of a wait, in the order to perform them.
/// `waited` is the exit code where the wait succeeded, and `None` where the
/// wait itself failed: the flag is set either way, the code only if there is
/// one.
pub open spec fn publication(waited: Option<u32>) -> Seq<ExitWrite> {
    match waited {
        Some(code) => seq![ExitWrite::StoreCode(signed(code) as i32), ExitWrite::MarkExited],
        None => seq![ExitWrite::MarkExited],
    }
}

/// Plans the stores that publish the end of a wait.
pub fn exit_writes(waited: Option<u32>) -> (writes: Vec<ExitWrite>)
    ensures
        writes@ == publication(waited),
{
    let mut writes: Vec<ExitWrite> = Vec::new();
    match waited {
        Some(code) => {
            writes.push(ExitWrite::StoreCode(to_signed(code)));
        },
        None => {},
    }
    writes.push(ExitWrite::MarkExited);
    proof {
        assert(writes@ =~= publication(waited));
    }
    writes
}

/// However far the publication has come, a reader that sees the flag set
/// sees the exit code too; and once the publication is through, the flag is
/// set, also where the wait failed.
pub proof fn law_code_is_visible_before_exit(waited: Option<u32>, done: int)
    requires
        0 <= done <= publication(waited).len(),
    ensures
        ({
            let seen = ExitState::running().after(publication(waited).take(done));
            &&& seen.exited ==> done == publication(waited).len()
            &&& seen.exited ==> (waited matches Some(code) ==> seen.exit_code == signed(code))
            &&& !seen.exited && done == 0 ==> seen.exit_code == NO_EXIT_CODE
            &&& done == publication(waited).len() ==> seen.exited
        }),
{
    let writes = publication(waited);
    let start = ExitState::running();
    assert(start.after(writes.take(0)) == start);
    if done >= 1 {
        assert(writes.take(1).drop_last() =~= writes.take(0));
        assert(writes.take(1).last() == writes[0]);
        assert(start.after(writes.take(1)) == start.stored(writes[0]));
    }
    if done >= 2 {
        assert(writes.take(2).drop_last() =~= writes.take(1));
        assert(writes.take(2).last() == writes[1]);
        assert(start.after(writes.take(2)) == start.stored(writes[0]).stored(writes[1]));
    }
}

} // verus!
