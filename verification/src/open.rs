//! The order in which a session is put together, and what a failure at each
//! point has to undo.

use vstd::prelude::*;
use crate::status::{signed, to_signed, ERROR};

verus! {

/// One step of opening a session. The steps run in the order listed.
#[derive(Clone, Copy, Debug, PartialEq, Eq, Structural)]
pub enum OpenStage {
    /// Allocate the pseudo-terminal pair.
    AllocatePty,
    /// Spawn the child on the subordinate side.
    SpawnChild,
    /// Take the write stream of the control side.
    TakeWriter,
    /// Duplicate the control side's descriptor for reading.
    DuplicateReader,
    /// Switch the duplicate to non-blocking mode.
    SetNonBlocking,
    /// Start the task that waits for the child to exit.
    StartWatcher,
}

/// What follows a step.
#[derive(Clone, Copy, Debug, PartialEq, Eq, Structural)]
pub enum OpenNext {
    /// Run this step next.
    Run(OpenStage),
    /// Every step succeeded: the session may be handed out.
    Ready,
    /// Give up. `close_reader` tells whether the duplicated read descriptor
    /// exists and must be closed.
    Abort { close_reader: bool },
}

/// Number of steps.
pub const STAGES: usize = 6;

impl OpenStage {
    /// Position of the step in the order of opening.
    pub open spec fn index(self) -> nat {
        match self {
            OpenStage::AllocatePty => 0,
            OpenStage::SpawnChild => 1,
            OpenStage::TakeWriter => 2,
            OpenStage::DuplicateReader => 3,
            OpenStage::SetNonBlocking => 4,
            OpenStage::StartWatcher => 5,
        }
    }

    /// The step at a position.
    pub open spec fn at(i: nat) -> OpenStage {
        if i == 0 {
            OpenStage::AllocatePty
        } else if i == 1 {
            OpenStage::SpawnChild
        } else if i == 2 {
            OpenStage::TakeWriter
        } else if i == 3 {
            OpenStage::DuplicateReader
        } else if i == 4 {
            OpenStage::SetNonBlocking
        } else {
            OpenStage::StartWatcher
        }
    }

    /// Whether the duplicated read descriptor exists while this step runs.
    pub open spec fn owns_reader(self) -> bool {
        self.index() > OpenStage::DuplicateReader.index()
    }

    /// What follows this step, given whether it succeeded.
    pub open spec fn followed_by(self, ok: bool) -> OpenNext {
        if !ok {
            OpenNext::Abort { close_reader: self.owns_reader() }
        } else if self.index() + 1 == STAGES {
            OpenNext::Ready
        } else {
            OpenNext::Run(OpenStage::at(self.index() + 1))
        }
    }

    /// The step that opening starts with.
    pub fn first() -> (s: OpenStage)
        ensures
            s == OpenStage::at(0),
    {
        OpenStage::AllocatePty
    }

    /// Decides what follows this step.
    pub fn advance(self, ok: bool) -> (next: OpenNext)
        ensures
            next == self.followed_by(ok),
    {
        if !ok {
            let close_reader = match self {
                OpenStage::SetNonBlocking => true,
                OpenStage::StartWatcher => true,
                _ => false,
            };
            OpenNext::Abort { close_reader }
        } else {
            match self {
                OpenStage::AllocatePty => OpenNext::Run(OpenStage::SpawnChild),
                OpenStage::SpawnChild => OpenNext::Run(OpenStage::TakeWriter),
                OpenStage::TakeWriter => OpenNext::Run(OpenStage::DuplicateReader),
                OpenStage::DuplicateReader => OpenNext::Run(OpenStage::SetNonBlocking),
                OpenStage::SetNonBlocking => OpenNext::Run(OpenStage::StartWatcher),
                OpenStage::StartWatcher => OpenNext::Ready,
            }
        }
    }
}

/// The process identifier to report for a child: the identifier that the
/// platform gave, or the error code where it gave none.
pub fn pid_of(process_id: Option<u32>) -> (pid: i32)
    ensures
        pid == match process_id {
            Some(id) => signed(id),
            None => ERROR as int,
        },
{
    match process_id {
        Some(id) => to_signed(id),
        None => ERROR,
    }
}

/// Whether a system call that reports failure by a negative value succeeded.
pub fn call_succeeded(ret: i32) -> (ok: bool)
    ensures
        ok == (ret >= 0),
{
    ret >= 0
}

/// The status flags to set on a descriptor so that reads from it never
/// block: the flags it has now with the non-blocking bit added. `None` when
/// the flags could not be read, which the system reports by a negative value.
pub fn nonblocking_flags(current: i32, nonblocking_bit: i32) -> (flags: Option<i32>)
    ensures
        current < 0 ==> flags is None,
        current >= 0 ==> flags == Some(current | nonblocking_bit),
{
    if current < 0 {
        None
    } else {
        Some(current | nonblocking_bit)
    }
}

/// Whether the first `n` of the steps run so far all succeeded.
pub open spec fn all_succeeded(outcomes: Seq<bool>, n: int) -> bool {
    forall|i: int| 0 <= i < n ==> #[trigger] outcomes[i]
}

/// Where opening stands once the steps run so far have ended as `outcomes`
/// tells, one entry per step in the order they ran. Once opening is over,
/// further entries change nothing.
pub open spec fn progress(outcomes: Seq<bool>) -> OpenNext
    decreases outcomes.len(),
{
    if outcomes.len() == 0 {
        OpenNext::Run(OpenStage::at(0))
    } else {
        match progress(outcomes.drop_last()) {
            OpenNext::Run(stage) => stage.followed_by(outcomes.last()),
            over => over,
        }
    }
}

/// Opening runs its steps in order, each once, for as long as they succeed;
/// a session is ready only when all of them have succeeded, the switch to
/// non-blocking mode and the start of the watcher included; and the first
/// failure ends it, with the read descriptor to be closed exactly when the
/// failure came after the descriptor was duplicated.
pub proof fn law_open_runs_every_step_or_aborts(outcomes: Seq<bool>)
    ensures
        match progress(outcomes) {
            OpenNext::Run(stage) => {
                &&& outcomes.len() < STAGES
                &&& stage == OpenStage::at(outcomes.len())
                &&& all_succeeded(outcomes, outcomes.len() as int)
            },
            OpenNext::Ready => outcomes.len() >= STAGES && all_succeeded(outcomes, STAGES as int),
            OpenNext::Abort { close_reader } => exists|f: int|
                {
                    &&& 0 <= f < outcomes.len()
                    &&& f < STAGES
                    &&& all_succeeded(outcomes, f)
                    &&& !#[trigger] outcomes[f]
                    &&& close_reader == OpenStage::at(f as nat).owns_reader()
                },
        },
        progress(outcomes) is Ready <==> outcomes.len() >= STAGES && all_succeeded(
            outcomes,
            STAGES as int,
        ),
    decreases outcomes.len(),
{
    if outcomes.len() > 0 {
        let earlier = outcomes.drop_last();
        law_open_runs_every_step_or_aborts(earlier);
        assert(forall|i: int| 0 <= i < earlier.len() ==> earlier[i] == outcomes[i]);
        match progress(earlier) {
            OpenNext::Run(stage) => {
                let f = earlier.len() as int;
                assert(outcomes[f] == outcomes.last());
                if !outcomes.last() {
                    assert(all_succeeded(outcomes, f));
                }
            },
            OpenNext::Ready => {},
            OpenNext::Abort { close_reader } => {
                let f = choose|f: int|
                    {
                        &&& 0 <= f < earlier.len()
                        &&& f < STAGES
                        &&& all_succeeded(earlier, f)
                        &&& !#[trigger] earlier[f]
                        &&& close_reader == OpenStage::at(f as nat).owns_reader()
                    };
                assert(all_succeeded(outcomes, f));
                assert(!outcomes[f]);
            },
        }
    }
}

} // verus!
