//! The shared backend resource handle: liveness, serialized access, and the
//! table of stored tasks.
//!
//! The handle stands for one backend connection. It does not support
//! concurrent operations, so access is serialized: an operation may only run
//! between `acquire_for_request` and `release`, and the lock must be free
//! again before the next request is admitted.

use vstd::prelude::*;

use crate::errors::DomainError;
use crate::task::{clone_task, Task, TaskView};

verus! {

/// The mathematical state of the resource handle: liveness, the
/// serialization lock, and the stored table.
pub ghost struct StoreView {
    pub is_open: bool,
    pub locked: bool,
    pub table: Seq<TaskView>,
}

/// Some stored task carries identifier `id`.
pub open spec fn has_id(s: Seq<TaskView>, id: u128) -> bool {
    exists|i: int| 0 <= i < s.len() && s[i].id == id
}

/// The index of the stored task carrying identifier `id`.
pub open spec fn idx_of(s: Seq<TaskView>, id: u128) -> int {
    choose|i: int| 0 <= i < s.len() && s[i].id == id
}

/// No two stored tasks carry the same identifier.
pub open spec fn ids_unique(s: Seq<TaskView>) -> bool {
    forall|i: int, j: int| 0 <= i < j < s.len() ==> s[i].id != s[j].id
}

/// A well-formed store has a duplicate-free table.
pub open spec fn store_wf(s: StoreView) -> bool {
    ids_unique(s.table)
}

/// Under unique identifiers, `idx_of` names exactly the index where `id`
/// stands.
pub proof fn lemma_idx_of(s: Seq<TaskView>, id: u128, i: int)
    requires
        ids_unique(s),
        0 <= i < s.len(),
        s[i].id == id,
    ensures
        has_id(s, id),
        idx_of(s, id) == i,
{
    assert(has_id(s, id));
    let j = idx_of(s, id);
    if j != i {
        if j < i {
            assert(s[j].id != s[i].id);
        } else {
            assert(s[i].id != s[j].id);
        }
    }
}

/// Proof token that the serialization lock is held for one request.
pub struct ResourceRef {}

/// The shared backend resource handle.
pub struct ResourceHandle {
    is_open: bool,
    locked: bool,
    tasks: Vec<Task>,
}

impl View for ResourceHandle {
    type V = StoreView;

    closed spec fn view(&self) -> StoreView {
        StoreView { is_open: self.is_open, locked: self.locked, table: self.tasks.deep_view() }
    }
}

impl ResourceHandle {
    /// Establishes the handle: open, unlocked, empty table.
    pub fn new() -> (h: ResourceHandle)
        ensures
            h@.is_open,
            !h@.locked,
            h@.table =~= Seq::<TaskView>::empty(),
            store_wf(h@),
    {
        let h = ResourceHandle { is_open: true, locked: false, tasks: Vec::new() };
        proof {
            assert(h@.table =~= Seq::<TaskView>::empty());
        }
        h
    }

    /// The handle can admit a request now: open and not locked.
    pub fn is_available(&self) -> (r: bool)
        ensures
            r == (self@.is_open && !self@.locked),
    {
        self.is_open && !self.locked
    }

    /// Takes the serialization lock for the duration of one request.
    /// Succeeds exactly when the handle is open and no other request holds
    /// the lock; a closed or busy handle reports the resource unavailable.
    pub fn acquire_for_request(&mut self) -> (r: Result<ResourceRef, DomainError>)
        ensures
            final(self)@.is_open == old(self)@.is_open,
            final(self)@.table == old(self)@.table,
            r is Ok <==> old(self)@.is_open && !old(self)@.locked,
            r is Ok ==> final(self)@.locked,
            r is Err ==> final(self)@ == old(self)@ && r->Err_0 == DomainError::ResourceUnavailable,
    {
        if self.is_open && !self.locked {
            self.locked = true;
            Ok(ResourceRef {})
        } else {
            Err(DomainError::ResourceUnavailable)
        }
    }

    /// Returns the serialization lock after a request's operations are done.
    pub fn release(&mut self, _token: ResourceRef)
        requires
            old(self)@.locked,
        ensures
            final(self)@ == (StoreView { locked: false, ..old(self)@ }),
    {
        self.locked = false;
    }

    /// Releases the underlying connection exactly once. Closing while a
    /// request is in flight, or closing twice, is a lifecycle-ordering
    /// error.
    pub fn close(&mut self) -> (r: Result<(), DomainError>)
        ensures
            r is Ok <==> old(self)@.is_open && !old(self)@.locked,
            r is Ok ==> final(self)@ == (StoreView { is_open: false, ..old(self)@ }),
            r is Err ==> final(self)@ == old(self)@ && r->Err_0 == DomainError::ProtocolViolation,
    {
        if self.is_open && !self.locked {
            self.is_open = false;
            Ok(())
        } else {
            Err(DomainError::ProtocolViolation)
        }
    }

    /// Appends a task whose identifier is not yet stored.
    pub fn insert_task(&mut self, t: Task)
        requires
            old(self)@.is_open,
            old(self)@.locked,
            store_wf(old(self)@),
            !has_id(old(self)@.table, t.id),
        ensures
            final(self)@ == (StoreView { table: old(self)@.table.push(t@), ..old(self)@ }),
            store_wf(final(self)@),
    {
        let ghost pre = self@.table;
        self.tasks.push(t);
        proof {
            assert(self@.table =~= pre.push(t@));
            assert forall|i: int, j: int| 0 <= i < j < self@.table.len() implies self@.table[i].id
                != self@.table[j].id by {
                if j < pre.len() {
                    assert(pre[i].id != pre[j].id);
                } else {
                    assert(self@.table[j] == t@);
                    if pre[i].id == t@.id {
                        assert(has_id(pre, t.id));
                    }
                }
            }
        }
    }

    /// Looks a task up by identifier; returns a copy of the stored task.
    pub fn find_task(&self, id: u128) -> (r: Option<Task>)
        requires
            self@.is_open,
            self@.locked,
            store_wf(self@),
        ensures
            match r {
                Some(t) => has_id(self@.table, id) && t@ == self@.table[idx_of(self@.table, id)],
                None => !has_id(self@.table, id),
            },
    {
        let mut i: usize = 0;
        while i < self.tasks.len()
            invariant
                i <= self.tasks.len(),
                self@.is_open,
                self@.locked,
                store_wf(self@),
                forall|j: int| 0 <= j < i ==> self@.table[j].id != id,
            decreases self.tasks.len() - i,
        {
            if self.tasks[i].id == id {
                let t = clone_task(&self.tasks[i]);
                proof {
                    lemma_idx_of(self@.table, id, i as int);
                }
                return Some(t);
            }
            i += 1;
        }
        None
    }

    /// Replaces the stored task carrying `t.id` with `t`; reports whether
    /// such a task was stored.
    pub fn replace_task(&mut self, t: Task) -> (r: bool)
        requires
            old(self)@.is_open,
            old(self)@.locked,
            store_wf(old(self)@),
        ensures
            r == has_id(old(self)@.table, t.id),
            r ==> final(self)@ == (StoreView {
                table: old(self)@.table.update(idx_of(old(self)@.table, t.id), t@),
                ..old(self)@
            }),
            !r ==> final(self)@ == old(self)@,
            store_wf(final(self)@),
    {
        let ghost pre = self@.table;
        let id = t.id;
        let mut i: usize = 0;
        while i < self.tasks.len()
            invariant
                i <= self.tasks.len(),
                self@ == old(self)@,
                pre == old(self)@.table,
                store_wf(old(self)@),
                forall|j: int| 0 <= j < i ==> self@.table[j].id != id,
                t.id == id,
            decreases self.tasks.len() - i,
        {
            if self.tasks[i].id == id {
                let ghost cur = self.tasks@;
                proof {
                    lemma_idx_of(pre, id, i as int);
                }
                self.tasks[i] = t;
                proof {
                    assert forall|j: int| 0 <= j < self@.table.len() implies self@.table[j]
                        == pre.update(i as int, t@)[j] by {
                        assert(self@.table[j] == self.tasks@[j]@);
                        if j != i as int {
                            assert(self.tasks@[j] == cur[j]);
                            assert(pre[j] == cur[j]@);
                        }
                    }
                    assert(self@.table =~= pre.update(i as int, t@));
                    assert forall|a: int, b: int|
                        0 <= a < b < self@.table.len() implies self@.table[a].id
                        != self@.table[b].id by {
                        assert(pre[a].id != pre[b].id);
                    }
                }
                return true;
            }
            i += 1;
        }
        false
    }

    /// Removes the stored task carrying `id`, returning it.
    pub fn remove_task(&mut self, id: u128) -> (r: Option<Task>)
        requires
            old(self)@.is_open,
            old(self)@.locked,
            store_wf(old(self)@),
        ensures
            match r {
                Some(t) => has_id(old(self)@.table, id) && t@ == old(self)@.table[idx_of(
                    old(self)@.table,
                    id,
                )] && final(self)@ == (StoreView {
                    table: old(self)@.table.remove(idx_of(old(self)@.table, id)),
                    ..old(self)@
                }),
                None => !has_id(old(self)@.table, id) && final(self)@ == old(self)@,
            },
            store_wf(final(self)@),
    {
        let ghost pre = self@.table;
        let mut i: usize = 0;
        while i < self.tasks.len()
            invariant
                i <= self.tasks.len(),
                self@ == old(self)@,
                pre == old(self)@.table,
                store_wf(old(self)@),
                forall|j: int| 0 <= j < i ==> self@.table[j].id != id,
            decreases self.tasks.len() - i,
        {
            if self.tasks[i].id == id {
                let ghost cur = self.tasks@;
                proof {
                    lemma_idx_of(pre, id, i as int);
                }
                let t = self.tasks.remove(i);
                proof {
                    assert forall|j: int| 0 <= j < self@.table.len() implies self@.table[j]
                        == pre.remove(i as int)[j] by {
                        assert(self@.table[j] == self.tasks@[j]@);
                        if j < i as int {
                            assert(self.tasks@[j] == cur[j]);
                            assert(pre[j] == cur[j]@);
                        } else {
                            assert(self.tasks@[j] == cur[j + 1]);
                            assert(pre[j + 1] == cur[j + 1]@);
                        }
                    }
                    assert(self@.table =~= pre.remove(i as int));
                    assert forall|a: int, b: int|
                        0 <= a < b < self@.table.len() implies self@.table[a].id
                        != self@.table[b].id by {
                        let a0 = if a < i as int { a } else { a + 1 };
                        let b0 = if b < i as int { b } else { b + 1 };
                        assert(self@.table[a] == pre[a0]);
                        assert(self@.table[b] == pre[b0]);
                        assert(pre[a0].id != pre[b0].id);
                    }
                }
                return Some(t);
            }
            i += 1;
        }
        None
    }

    /// A snapshot of the whole table, in storage order.
    pub fn all_tasks(&self) -> (r: Vec<Task>)
        requires
            self@.is_open,
            self@.locked,
        ensures
            r.deep_view() == self@.table,
    {
        let mut out: Vec<Task> = Vec::new();
        let mut i: usize = 0;
        while i < self.tasks.len()
            invariant
                i <= self.tasks.len(),
                out@.len() == i,
                forall|j: int| 0 <= j < i ==> out@[j]@ == self@.table[j],
            decreases self.tasks.len() - i,
        {
            let c = clone_task(&self.tasks[i]);
            proof {
                assert(self@.table[i as int] == self.tasks@[i as int]@);
            }
            out.push(c);
            i += 1;
        }
        proof {
            assert forall|j: int| 0 <= j < out.deep_view().len() implies out.deep_view()[j]
                == self@.table[j] by {
                assert(out.deep_view()[j] == out@[j]@);
            }
            assert(out.deep_view() =~= self@.table);
        }
        out
    }
}

} // verus!
