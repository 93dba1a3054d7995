//! The table of open sessions, addressed by integer handles.
//!
//! Handles are positive, are issued in increasing order and are never issued
//! twice: a handle that was closed names nothing from then on.

use std::collections::HashMap;
use vstd::prelude::*;
use vstd::std_specs::hash::*;
use crate::status::ERROR;

verus! {

broadcast use group_hash_axioms;

/// The largest handle: handles are reported as positive 32-bit signed
/// integers.
pub const MAX_HANDLE: u32 = 0x7fff_ffff;

/// Why a handle leads to no session.
#[derive(Clone, Copy, Debug, PartialEq, Eq, Structural)]
pub enum HandleError {
    /// Zero or negative: no handle at all.
    NotPositive,
    /// Positive, but no open session has it: it was closed or never issued.
    Unknown,
}

/// The table as a mathematical value: the open sessions by handle, and the
/// handle that the next session gets.
pub struct Table<S> {
    pub sessions: Map<u32, S>,
    pub next: nat,
}

/// One change to the table.
pub enum Change<S> {
    /// A session is stored under the next handle.
    Insert(S),
    /// The session under a handle, if any, is dropped.
    Remove(u32),
}

/// The table of open sessions.
pub struct Registry<S> {
    sessions: HashMap<u32, S>,
    next: u32,
}

impl HandleError {
    /// Encodes the error for the caller: either way the call did nothing and
    /// reports the error code.
    pub fn code(self) -> (c: i32)
        ensures
            c == ERROR,
    {
        ERROR
    }
}

impl<S> Table<S> {
    /// The table before any session was opened.
    pub open spec fn fresh() -> Table<S> {
        Table { sessions: Map::empty(), next: 1 }
    }

    /// Handles start at one, and every open session has a handle that was
    /// issued.
    pub open spec fn wf(self) -> bool {
        &&& 1 <= self.next <= MAX_HANDLE + 1
        &&& forall|h: u32| #[trigger] self.sessions.contains_key(h) ==> self.issued(h)
    }

    /// Whether `handle` was given out at some time.
    pub open spec fn issued(self, handle: u32) -> bool {
        1 <= handle < self.next
    }

    /// Whether the handles are used up.
    pub open spec fn full(self) -> bool {
        self.next > MAX_HANDLE
    }

    /// The table with `session` stored under the next handle. A full table
    /// takes no session.
    pub open spec fn inserted(self, session: S) -> Table<S> {
        if self.full() {
            self
        } else {
            Table { sessions: self.sessions.insert(self.next as u32, session), next: self.next + 1 }
        }
    }

    /// The table without the session under `handle`.
    pub open spec fn removed(self, handle: u32) -> Table<S> {
        Table { sessions: self.sessions.remove(handle), next: self.next }
    }

    /// The table after one change.
    pub open spec fn changed(self, change: Change<S>) -> Table<S> {
        match change {
            Change::Insert(session) => self.inserted(session),
            Change::Remove(handle) => self.removed(handle),
        }
    }

    /// The table after a run of changes, in order.
    pub open spec fn after(self, changes: Seq<Change<S>>) -> Table<S>
        decreases changes.len(),
    {
        if changes.len() == 0 {
            self
        } else {
            self.after(changes.drop_last()).changed(changes.last())
        }
    }
}

/// Whatever is done to the table, it stays well formed and its next handle
/// never goes down.
pub proof fn law_next_handle_never_decreases<S>(table: Table<S>, changes: Seq<Change<S>>)
    requires
        table.wf(),
    ensures
        table.after(changes).wf(),
        table.after(changes).next >= table.next,
    decreases changes.len(),
{
    if changes.len() > 0 {
        law_next_handle_never_decreases(table, changes.drop_last());
    }
}

/// Handles are positive, strictly increasing and never repeat: of two
/// sessions inserted in the course of any run of changes, the later one gets
/// the larger handle.
pub proof fn law_handles_strictly_increase<S>(
    table: Table<S>,
    changes: Seq<Change<S>>,
    i: int,
    j: int,
)
    requires
        table.wf(),
        0 <= i < j < changes.len(),
        changes[i] is Insert,
        changes[j] is Insert,
        !table.after(changes.take(j)).full(),
    ensures
        1 <= table.after(changes.take(i)).next < table.after(changes.take(j)).next,
        table.after(changes.take(i + 1)).sessions.contains_key(
            table.after(changes.take(i)).next as u32,
        ),
        table.after(changes.take(j + 1)).sessions.contains_key(
            table.after(changes.take(j)).next as u32,
        ),
{
    let before_i = changes.take(i);
    let with_i = changes.take(i + 1);
    let before_j = changes.take(j);
    let with_j = changes.take(j + 1);
    assert(with_i.drop_last() =~= before_i);
    assert(with_j.drop_last() =~= before_j);
    law_next_handle_never_decreases(table, before_i);
    law_next_handle_never_decreases(table, with_i);
    // the changes from i + 1 up to j, run on the table as it stands after i
    let between = changes.subrange(i + 1, j);
    lemma_after_concat(table, with_i, between);
    assert(with_i + between =~= before_j);
    law_next_handle_never_decreases(table.after(with_i), between);
}

/// Running two runs of changes one after the other is running their
/// concatenation.
pub proof fn lemma_after_concat<S>(table: Table<S>, first: Seq<Change<S>>, second: Seq<Change<S>>)
    ensures
        table.after(first + second) == table.after(first).after(second),
    decreases second.len(),
{
    if second.len() == 0 {
        assert(first + second =~= first);
    } else {
        lemma_after_concat(table, first, second.drop_last());
        assert((first + second).drop_last() =~= first + second.drop_last());
    }
}

/// A handle that was issued and names no session now names none ever after:
/// closing is final, and no later session takes a closed handle over.
pub proof fn law_closed_handle_stays_closed<S>(
    table: Table<S>,
    handle: u32,
    changes: Seq<Change<S>>,
)
    requires
        table.wf(),
        table.issued(handle),
        !table.sessions.contains_key(handle),
    ensures
        !table.after(changes).sessions.contains_key(handle),
    decreases changes.len(),
{
    if changes.len() > 0 {
        law_closed_handle_stays_closed(table, handle, changes.drop_last());
        law_next_handle_never_decreases(table, changes.drop_last());
    }
}

/// After a close, every lookup of the handle misses, whatever happens to the
/// table in between.
pub proof fn law_close_is_final<S>(table: Table<S>, handle: u32, changes: Seq<Change<S>>)
    requires
        table.wf(),
        table.issued(handle),
    ensures
        !table.removed(handle).after(changes).sessions.contains_key(handle),
{
    law_closed_handle_stays_closed(table.removed(handle), handle, changes);
}

/// Closing a handle twice leaves the table as closing it once does.
pub proof fn law_close_twice_is_close_once<S>(table: Table<S>, handle: u32)
    ensures
        table.removed(handle).removed(handle) == table.removed(handle),
{
    assert(table.sessions.remove(handle).remove(handle) =~= table.sessions.remove(handle));
}

/// Until it is closed, a handle names the session it was issued for.
pub proof fn law_handle_keeps_its_session<S>(table: Table<S>, handle: u32, changes: Seq<Change<S>>)
    requires
        table.wf(),
        table.sessions.contains_key(handle),
        forall|k: int| 0 <= k < changes.len() ==> #[trigger] changes[k] != Change::<S>::Remove(handle),
    ensures
        table.after(changes).sessions.contains_key(handle),
        table.after(changes).sessions[handle] == table.sessions[handle],
    decreases changes.len(),
{
    if changes.len() > 0 {
        let earlier = changes.drop_last();
        assert forall|k: int| 0 <= k < earlier.len() implies #[trigger] earlier[k] != Change::<
            S,
        >::Remove(handle) by {
            assert(earlier[k] == changes[k]);
        }
        law_handle_keeps_its_session(table, handle, earlier);
        law_next_handle_never_decreases(table, earlier);
        assert(changes[changes.len() - 1] != Change::<S>::Remove(handle));
    }
}

impl<S> View for Registry<S> {
    type V = Table<S>;

    closed spec fn view(&self) -> Table<S> {
        Table { sessions: self.sessions@, next: self.next as nat }
    }
}

impl<S> Registry<S> {
    /// The invariant of the table.
    pub open spec fn wf(&self) -> bool {
        self@.wf()
    }

    /// A table with no session.
    pub fn new() -> (registry: Registry<S>)
        ensures
            registry.wf(),
            registry@ == Table::<S>::fresh(),
    {
        Registry { sessions: HashMap::new(), next: 1 }
    }

    /// Stores `session` under the next handle and returns the handle. When
    /// the handles are used up the table is left alone and the session is
    /// handed back.
    pub fn insert(&mut self, session: S) -> (issued: Result<u32, S>)
        requires
            old(self).wf(),
        ensures
            final(self).wf(),
            final(self)@ == old(self)@.inserted(session),
            match issued {
                Ok(handle) => !old(self)@.full() && handle == old(self)@.next,
                Err(back) => old(self)@.full() && back == session,
            },
    {
        if self.next > MAX_HANDLE {
            return Err(session);
        }
        let handle = self.next;
        self.next = handle + 1;
        self.sessions.insert(handle, session);
        proof {
            assert forall|h: u32| #[trigger]
                self@.sessions.contains_key(h) implies self@.issued(h) by {
                if h != handle {
                    assert(old(self)@.sessions.contains_key(h));
                }
            }
        }
        Ok(handle)
    }

    /// The session that `handle` names.
    pub fn get(&self, handle: u32) -> (session: Option<&S>)
        ensures
            match session {
                Some(s) => self@.sessions.contains_key(handle) && *s == self@.sessions[handle],
                None => !self@.sessions.contains_key(handle),
            },
    {
        self.sessions.get(&handle)
    }

    /// Drops the table's hold on the session that `handle` names and hands
    /// the session out; does nothing where the handle names none.
    pub fn remove(&mut self, handle: u32) -> (session: Option<S>)
        requires
            old(self).wf(),
        ensures
            final(self).wf(),
            final(self)@ == old(self)@.removed(handle),
            match session {
                Some(s) => old(self)@.sessions.contains_key(handle) && s == old(self)@.sessions[handle],
                None => !old(self)@.sessions.contains_key(handle),
            },
    {
        let session = self.sessions.remove(&handle);
        proof {
            assert forall|h: u32| #[trigger]
                self@.sessions.contains_key(h) implies self@.issued(h) by {
                assert(old(self)@.sessions.contains_key(h));
            }
        }
        session
    }

    /// Number of open sessions.
    pub fn len(&self) -> (n: usize)
        ensures
            n == self@.sessions.dom().len(),
    {
        self.sessions.len()
    }

    /// Finds the session for a handle as the caller wrote it.
    pub fn lookup(&self, handle: i32) -> (found: Result<&S, HandleError>)
        ensures
            match found {
                Ok(session) => handle > 0 && self@.sessions.contains_key(handle as u32) && *session
                    == self@.sessions[handle as u32],
                Err(HandleError::NotPositive) => handle <= 0,
                Err(HandleError::Unknown) => handle > 0 && !self@.sessions.contains_key(
                    handle as u32,
                ),
            },
    {
        if handle <= 0 {
            return Err(HandleError::NotPositive);
        }
        match self.get(handle as u32) {
            Some(session) => Ok(session),
            None => Err(HandleError::Unknown),
        }
    }

    /// Closes a handle as the caller wrote it: the session it names, if any,
    /// leaves the table and is handed out. Anything else changes nothing.
    pub fn close(&mut self, handle: i32) -> (session: Option<S>)
        requires
            old(self).wf(),
        ensures
            final(self).wf(),
            final(self)@ == if handle > 0 {
                old(self)@.removed(handle as u32)
            } else {
                old(self)@
            },
            match session {
                Some(s) => handle > 0 && old(self)@.sessions.contains_key(handle as u32) && s == old(
                    self,
                )@.sessions[handle as u32],
                None => handle <= 0 || !old(self)@.sessions.contains_key(handle as u32),
            },
    {
        if handle <= 0 {
            return None;
        }
        self.remove(handle as u32)
    }
}

} // verus!
