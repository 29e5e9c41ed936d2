//! Task identifiers and their allocator.
//!
//! A [`TaskId`] is an opaque 64-bit identifier, unique for the lifetime of
//! the allocator that handed it out; the total order over identifiers is
//! what round-robin scheduling cycles through.

use vstd::prelude::*;

verus! {

/// An opaque 64-bit identifier for a schedulable unit. Identifiers are
/// allocated from a monotonically increasing counter and never reused; they
/// serve only as lookup keys and ordering keys, never as synchronization
/// tokens.
#[derive(Debug, Clone, Copy, PartialEq, Eq, Structural, PartialOrd, Ord, Hash)]
pub struct TaskId(pub(crate) u64);

impl View for TaskId {
    type V = u64;

    closed spec fn view(&self) -> u64 {
        self.0
    }
}

impl TaskId {
    /// The raw 64-bit value of this identifier.
    pub fn value(&self) -> (r: u64)
        ensures
            r == self@,
    {
        self.0
    }
}

/// Hands out fresh task identifiers from a strictly increasing counter.
///
/// The ghost history records every identifier ever handed out, so that the
/// no-reuse guarantee is a stated invariant rather than folklore.
pub struct TaskIdAllocator {
    next: u64,
    history: Ghost<Seq<u64>>,
}

impl TaskIdAllocator {
    /// The value the next allocated identifier will carry.
    pub closed spec fn next_spec(&self) -> u64 {
        self.next
    }

    /// Every identifier this allocator has handed out, oldest first.
    pub closed spec fn allocated(&self) -> Seq<u64> {
        self.history@
    }

    /// Identifiers already handed out are strictly increasing and all lie
    /// below the counter, so no future allocation can collide with them.
    pub closed spec fn wf(&self) -> bool {
        &&& forall|i: int, j: int|
            0 <= i < j < self.history@.len() ==> self.history@[i] < self.history@[j]
        &&& forall|i: int| 0 <= i < self.history@.len() ==> self.history@[i] < self.next
    }

    /// A fresh allocator that will hand out identifiers starting at zero.
    pub fn new() -> (r: TaskIdAllocator)
        ensures
            r.wf(),
            r.next_spec() == 0,
            r.allocated() == Seq::<u64>::empty(),
    {
        TaskIdAllocator { next: 0, history: Ghost(Seq::empty()) }
    }

    /// Whether another identifier can still be allocated. The counter is
    /// 64 bits wide, so in practice this never becomes false.
    pub fn can_allocate(&self) -> (r: bool)
        ensures
            r == (self.next_spec() < u64::MAX),
    {
        self.next < u64::MAX
    }

    /// Allocate a fresh identifier: the current counter value, which is
    /// strictly greater than every identifier handed out before.
    pub fn fresh(&mut self) -> (r: TaskId)
        requires
            old(self).wf(),
            old(self).next_spec() < u64::MAX,
        ensures
            final(self).wf(),
            r@ == old(self).next_spec(),
            final(self).next_spec() == old(self).next_spec() + 1,
            final(self).allocated() == old(self).allocated().push(r@),
    {
        let id = TaskId(self.next);
        self.next = self.next + 1;
        proof {
            self.history@ = self.history@.push(id.0);
        }
        id
    }
}

/// The raw identifier value under an optional [`TaskId`].
pub open spec fn id_of(o: Option<TaskId>) -> Option<u64> {
    match o {
        Some(t) => Some(t@),
        None => None,
    }
}

/// No two identifiers handed out by one allocator are ever equal: they come
/// out in strictly increasing order, so an earlier one is always smaller
/// than a later one.
pub proof fn lemma_task_ids_never_repeat(a: TaskIdAllocator, i: int, j: int)
    requires
        a.wf(),
        0 <= i < j < a.allocated().len(),
    ensures
        a.allocated()[i] < a.allocated()[j],
        a.allocated()[i] != a.allocated()[j],
{
}

} // verus!
