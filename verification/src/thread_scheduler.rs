//! The round-robin thread scheduler: a registry of kernel threads ordered
//! by identifier, the marker for the currently running one, and the
//! decisions of which thread runs next.
//!
//! The scheduler decides; the actual control transfer is a platform
//! primitive outside this library. Every scheduling step therefore returns
//! a [`ScheduleAction`] saying which transfer, if any, the caller must
//! perform, with the `current` marker already updated — the thread being
//! resumed has no other way to learn that it is now current.

use vstd::prelude::*;
use crate::context::TaskContext;
use crate::kernel_thread::KernelThread;
use crate::round_robin::{first_greater, next_after, sorted_strict};
use crate::round_robin::lemma_next_after_registered;
use crate::task_id::{id_of, TaskId};

verus! {

/// What a scheduling step asks its caller to do: nothing, or transfer
/// control from the outgoing thread (`from`, none for the very first
/// transfer, whose outgoing save goes to the idle placeholder) to the
/// incoming thread `to`.
#[derive(Debug, Clone, Copy, PartialEq, Eq)]
pub enum ScheduleAction {
    Stay,
    Switch { from: Option<TaskId>, to: TaskId },
}

/// `ids` with `x` inserted at its sorted position; inserting an identifier
/// that is already present leaves the sequence unchanged, as inserting
/// under an existing key of an ordered map replaces only the value.
pub open spec fn insert_sorted(ids: Seq<u64>, x: u64) -> Seq<u64>
    decreases ids.len(),
{
    if ids.len() == 0 {
        seq![x]
    } else if x < ids[0] {
        seq![x] + ids
    } else if x == ids[0] {
        ids
    } else {
        seq![ids[0]] + insert_sorted(ids.drop_first(), x)
    }
}

/// `reg` with the thread `t` spliced in at the sorted position of its
/// identifier; when a thread with the same identifier is already
/// registered, `t` replaces it, as inserting under an existing key of an
/// ordered map replaces the value.
pub open spec fn insert_thread_sorted(reg: Seq<KernelThread>, t: KernelThread) -> Seq<KernelThread>
    decreases reg.len(),
{
    if reg.len() == 0 {
        seq![t]
    } else if t.id_spec() < reg[0].id_spec() {
        seq![t] + reg
    } else if t.id_spec() == reg[0].id_spec() {
        seq![t] + reg.drop_first()
    } else {
        seq![reg[0]] + insert_thread_sorted(reg.drop_first(), t)
    }
}

/// Where the scan for `t`'s position stops — every identifier before `i`
/// is below `t`'s, and `reg[i]`'s, if it exists, is not —
/// `insert_thread_sorted` either replaces the equal-identifier thread at
/// `i` or splices `t` in at exactly position `i`.
proof fn lemma_insert_thread_sorted_at(reg: Seq<KernelThread>, t: KernelThread, i: int)
    requires
        forall|p: int, q: int|
            0 <= p < q < reg.len() ==> reg[p].id_spec() < reg[q].id_spec(),
        0 <= i <= reg.len(),
        forall|k: int| 0 <= k < i ==> reg[k].id_spec() < t.id_spec(),
        i < reg.len() ==> reg[i].id_spec() >= t.id_spec(),
    ensures
        i < reg.len() && reg[i].id_spec() == t.id_spec() ==> insert_thread_sorted(reg, t)
            == reg.subrange(0, i) + seq![t] + reg.subrange(i + 1, reg.len() as int),
        i == reg.len() || reg[i].id_spec() > t.id_spec() ==> insert_thread_sorted(reg, t)
            == reg.subrange(0, i) + seq![t] + reg.subrange(i, reg.len() as int),
    decreases reg.len(),
{
    if i == 0 {
        if reg.len() == 0 {
            assert(insert_thread_sorted(reg, t) =~= reg.subrange(0, 0) + seq![t]
                + reg.subrange(0, 0));
        } else if reg[0].id_spec() > t.id_spec() {
            assert(seq![t] + reg =~= reg.subrange(0, 0) + seq![t]
                + reg.subrange(0, reg.len() as int));
        } else if reg[0].id_spec() == t.id_spec() {
            assert(seq![t] + reg.drop_first() =~= reg.subrange(0, 0) + seq![t]
                + reg.subrange(1, reg.len() as int));
        }
    } else {
        let tail = reg.drop_first();
        assert(forall|k: int| 0 <= k < tail.len() ==> #[trigger] tail[k] == reg[k + 1]);
        lemma_insert_thread_sorted_at(tail, t, i - 1);
        assert(reg[0].id_spec() < t.id_spec());
        if i < reg.len() && reg[i].id_spec() == t.id_spec() {
            assert(insert_thread_sorted(tail, t) == tail.subrange(0, i - 1) + seq![t]
                + tail.subrange(i, tail.len() as int));
            assert(seq![reg[0]] + (tail.subrange(0, i - 1) + seq![t]
                + tail.subrange(i, tail.len() as int)) =~= reg.subrange(0, i)
                + seq![t] + reg.subrange(i + 1, reg.len() as int));
        } else {
            assert(insert_thread_sorted(tail, t) == tail.subrange(0, i - 1) + seq![t]
                + tail.subrange(i - 1, tail.len() as int));
            assert(seq![reg[0]] + (tail.subrange(0, i - 1) + seq![t]
                + tail.subrange(i - 1, tail.len() as int)) =~= reg.subrange(0, i)
                + seq![t] + reg.subrange(i, reg.len() as int));
        }
    }
}

/// Where the scan for `x`'s position stops — every identifier before `i`
/// is below `x`, and `ids[i]`, if it exists, is not — `insert_sorted`
/// either leaves the sequence unchanged (key already present) or splices
/// `x` in at exactly position `i`.
proof fn lemma_insert_sorted_at(ids: Seq<u64>, x: u64, i: int)
    requires
        sorted_strict(ids),
        0 <= i <= ids.len(),
        forall|k: int| 0 <= k < i ==> ids[k] < x,
        i < ids.len() ==> ids[i] >= x,
    ensures
        i < ids.len() && ids[i] == x ==> insert_sorted(ids, x) == ids,
        i == ids.len() || ids[i] > x ==> insert_sorted(ids, x) == ids.subrange(0, i)
            + seq![x] + ids.subrange(i, ids.len() as int),
    decreases ids.len(),
{
    if i == 0 {
        if ids.len() == 0 {
            assert(insert_sorted(ids, x) =~= ids.subrange(0, 0) + seq![x]
                + ids.subrange(0, 0));
        } else if ids[0] > x {
            assert(seq![x] + ids =~= ids.subrange(0, 0) + seq![x]
                + ids.subrange(0, ids.len() as int));
        }
    } else {
        let tail = ids.drop_first();
        assert(forall|k: int| 0 <= k < tail.len() ==> #[trigger] tail[k] == ids[k + 1]);
        lemma_insert_sorted_at(tail, x, i - 1);
        assert(ids[0] < x);
        if i < ids.len() && ids[i] == x {
            assert(insert_sorted(tail, x) == tail);
            assert(seq![ids[0]] + tail =~= ids);
        } else {
            assert(insert_sorted(tail, x) == tail.subrange(0, i - 1) + seq![x]
                + tail.subrange(i - 1, tail.len() as int));
            assert(seq![ids[0]] + (tail.subrange(0, i - 1) + seq![x]
                + tail.subrange(i - 1, tail.len() as int)) =~= ids.subrange(0, i)
                + seq![x] + ids.subrange(i, ids.len() as int));
        }
    }
}

/// The registry of kernel threads, kept sorted by identifier, the marker
/// for the currently running one, and the idle placeholder context that
/// receives the very first outgoing save, before any thread has run.
pub struct ThreadScheduler {
    threads: Vec<KernelThread>,
    current: Option<TaskId>,
    idle_context: TaskContext,
}

impl ThreadScheduler {
    /// The registered threads, in ascending identifier order.
    pub closed spec fn registry_spec(&self) -> Seq<KernelThread> {
        self.threads@
    }

    /// The registered identifiers, in ascending order.
    pub closed spec fn ids(&self) -> Seq<u64> {
        Seq::new(self.threads@.len(), |i: int| self.threads@[i].id_spec())
    }

    /// The currently running thread, if any.
    pub closed spec fn current_spec(&self) -> Option<TaskId> {
        self.current
    }

    /// The identifier of the currently running thread, if any.
    pub open spec fn current_id(&self) -> Option<u64> {
        id_of(self.current_spec())
    }

    /// The idle placeholder context.
    pub closed spec fn idle_context_spec(&self) -> TaskContext {
        self.idle_context
    }

    /// The registry is sorted by identifier with no duplicates, and the
    /// current thread, if any, is registered.
    pub closed spec fn wf(&self) -> bool {
        &&& sorted_strict(self.ids())
        &&& match self.current {
            Some(c) => self.ids().contains(c@),
            None => true,
        }
    }

    /// An empty scheduler: no threads, no current thread, and a zeroed
    /// idle placeholder.
    pub fn new() -> (r: ThreadScheduler)
        ensures
            r.wf(),
            r.ids() == Seq::<u64>::empty(),
            r.registry_spec() == Seq::<KernelThread>::empty(),
            r.current_spec() == None::<TaskId>,
            r.idle_context_spec() == (TaskContext {
                r15: 0,
                r14: 0,
                r13: 0,
                r12: 0,
                rbx: 0,
                rbp: 0,
                rsp: 0,
                rip: 0,
            }),
    {
        let r = ThreadScheduler {
            threads: Vec::new(),
            current: None,
            idle_context: TaskContext::new(),
        };
        proof {
            assert(r.ids() =~= Seq::<u64>::empty());
        }
        r
    }

    /// Register a kernel thread: insert the thread itself into the
    /// registry at its sorted position, transferring ownership — context,
    /// stack and all — to the scheduler, which keeps it alive from then
    /// on. Registering does not start the thread: the current marker is
    /// untouched.
    pub fn add_thread(&mut self, thread: KernelThread)
        requires
            old(self).wf(),
        ensures
            final(self).wf(),
            final(self).current_spec() == old(self).current_spec(),
            final(self).idle_context_spec() == old(self).idle_context_spec(),
            final(self).registry_spec() == insert_thread_sorted(old(self).registry_spec(),
                thread),
            final(self).ids() == insert_sorted(old(self).ids(), thread.id_spec()),
    {
        let ghost reg0: Seq<KernelThread> = self.threads@;
        let ghost ids0: Seq<u64> = self.ids();
        let ghost t_spec: KernelThread = thread;
        let x: u64 = thread.id().value();
        let n = self.threads.len();
        let mut i: usize = 0;
        while i < n && self.threads[i].id().value() < x
            invariant
                0 <= i <= n,
                n == self.threads@.len(),
                self.threads@ == reg0,
                self.ids() == ids0,
                x == t_spec.id_spec(),
                forall|k: int| 0 <= k < i ==> ids0[k] < x,
                sorted_strict(ids0),
            decreases n - i,
        {
            i = i + 1;
        }
        proof {
            assert(forall|k: int| 0 <= k < reg0.len() ==> #[trigger] reg0[k].id_spec()
                == ids0[k]);
            lemma_insert_sorted_at(ids0, x, i as int);
            lemma_insert_thread_sorted_at(reg0, t_spec, i as int);
        }
        if i < n && self.threads[i].id().value() == x {
            // The key is already present: replace the thread stored under
            // it, leaving the sequence of identifiers unchanged.
            self.threads.remove(i);
            self.threads.insert(i, thread);
            proof {
                assert(self.threads@ =~= reg0.subrange(0, i as int) + seq![t_spec]
                    + reg0.subrange(i as int + 1, reg0.len() as int));
                assert(self.ids() =~= ids0);
            }
        } else {
            self.threads.insert(i, thread);
            proof {
                assert(self.threads@ =~= reg0.subrange(0, i as int) + seq![t_spec]
                    + reg0.subrange(i as int, reg0.len() as int));
                assert(self.ids() =~= ids0.subrange(0, i as int) + seq![x]
                    + ids0.subrange(i as int, ids0.len() as int));
                assert(sorted_strict(self.ids()));
                match self.current {
                    Some(c) => {
                        let k = choose|k: int| 0 <= k < ids0.len() && ids0[k] == c@;
                        if k < i {
                            assert(self.ids()[k] == c@);
                        } else {
                            assert(self.ids()[k + 1] == c@);
                        }
                        assert(self.ids().contains(c@));
                    },
                    None => {},
                }
            }
        }
    }

    /// The identifier of the thread that runs next in round-robin order:
    /// the smallest registered identifier strictly greater than the
    /// current one, wrapping around to the smallest registered identifier;
    /// `None` only when the registry is empty.
    pub fn get_next_thread(&self) -> (r: Option<TaskId>)
        requires
            self.wf(),
        ensures
            id_of(r) == next_after(self.ids(), self.current_id()),
    {
        let n = self.threads.len();
        if n == 0 {
            return None;
        }
        match self.current {
            None => Some(self.threads[0].id()),
            Some(c) => {
                let c_val: u64 = c.value();
                let mut i: usize = 0;
                while i < n
                    invariant
                        0 <= i <= n,
                        n == self.threads@.len(),
                        n > 0,
                        c_val == c@,
                        self.current_spec() == Some(c),
                        forall|k: int| 0 <= k < i ==> self.ids()[k] <= c_val,
                    decreases n - i,
                {
                    let t_id = self.threads[i].id();
                    if t_id.value() > c_val {
                        proof {
                            crate::round_robin::lemma_first_greater_skip(
                                self.ids(), c_val, i as int);
                            assert(self.ids().skip(i as int)[0] == self.ids()[i as int]);
                            assert(first_greater(self.ids(), c_val) == Some(t_id@));
                        }
                        return Some(t_id);
                    }
                    i = i + 1;
                }
                proof {
                    crate::round_robin::lemma_first_greater_skip(
                        self.ids(), c_val, n as int);
                    assert(self.ids().skip(n as int) =~= Seq::<u64>::empty());
                }
                Some(self.threads[0].id())
            },
        }
    }

    /// Make `new_thread_id` the current thread and hand back the transfer
    /// the caller must perform. The current marker is updated before the
    /// transfer happens: when the outgoing thread is eventually resumed,
    /// the marker must already name it, since the resuming code has no
    /// other way to learn that it is current. The outgoing side of the
    /// transfer is the previously current thread, or the idle placeholder
    /// for the very first transfer.
    fn switch_to(&mut self, new_thread_id: TaskId) -> (r: ScheduleAction)
        requires
            old(self).wf(),
            old(self).ids().contains(new_thread_id@),
        ensures
            final(self).wf(),
            final(self).registry_spec() == old(self).registry_spec(),
            final(self).ids() == old(self).ids(),
            final(self).idle_context_spec() == old(self).idle_context_spec(),
            final(self).current_spec() == Some(new_thread_id),
            r == (ScheduleAction::Switch { from: old(self).current_spec(), to: new_thread_id }),
    {
        let from = self.current;
        self.current = Some(new_thread_id);
        proof {
            assert(self.ids() =~= old(self).ids());
        }
        ScheduleAction::Switch { from, to: new_thread_id }
    }

    /// One round-robin scheduling step: pick the next thread, and if it
    /// differs from the current one, make it current and ask the caller to
    /// transfer control to it. A no-op when the registry is empty, and a
    /// self-to-self no-op when the next thread is already the current one,
    /// so the running thread's live state is never saved over.
    pub fn schedule_next(&mut self) -> (r: ScheduleAction)
        requires
            old(self).wf(),
        ensures
            final(self).wf(),
            final(self).registry_spec() == old(self).registry_spec(),
            final(self).ids() == old(self).ids(),
            final(self).idle_context_spec() == old(self).idle_context_spec(),
            final(self).current_id() == next_after(old(self).ids(), old(self).current_id()),
            match next_after(old(self).ids(), old(self).current_id()) {
                None => r == ScheduleAction::Stay && final(self).current_spec()
                    == old(self).current_spec(),
                Some(n) => if old(self).current_id() == Some(n) {
                    r == ScheduleAction::Stay && final(self).current_spec()
                        == old(self).current_spec()
                } else {
                    r matches ScheduleAction::Switch { from, to }
                        && from == old(self).current_spec() && to@ == n
                },
            },
    {
        let next_thread_id = self.get_next_thread();
        match next_thread_id {
            Some(next_id) => {
                let differs: bool = match &self.current {
                    Some(c) => c.value() != next_id.value(),
                    None => true,
                };
                if differs {
                    proof {
                        lemma_next_after_registered(self.ids(), self.current_id());
                    }
                    self.switch_to(next_id)
                } else {
                    ScheduleAction::Stay
                }
            },
            None => ScheduleAction::Stay,
        }
    }

    /// The identifier of the currently running thread, or `None` when no
    /// thread has been switched into yet.
    pub fn current_thread(&self) -> (r: Option<TaskId>)
        ensures
            r == self.current_spec(),
    {
        self.current
    }

    /// A copy of the idle placeholder context, the destination of the very
    /// first outgoing save before any thread has run. Its content is never
    /// read back as a resume target.
    pub fn idle_context(&self) -> (r: TaskContext)
        ensures
            r == self.idle_context_spec(),
    {
        self.idle_context
    }
}

/// Register a kernel thread with the given scheduler instance.
pub fn add_kernel_thread(scheduler: &mut ThreadScheduler, thread: KernelThread)
    requires
        old(scheduler).wf(),
    ensures
        final(scheduler).wf(),
        final(scheduler).current_spec() == old(scheduler).current_spec(),
        final(scheduler).idle_context_spec() == old(scheduler).idle_context_spec(),
        final(scheduler).registry_spec() == insert_thread_sorted(
            old(scheduler).registry_spec(), thread),
        final(scheduler).ids() == insert_sorted(old(scheduler).ids(), thread.id_spec()),
{
    scheduler.add_thread(thread);
}

/// Perform one round-robin scheduling step on the given scheduler
/// instance.
pub fn schedule_next_thread(scheduler: &mut ThreadScheduler) -> (r: ScheduleAction)
    requires
        old(scheduler).wf(),
    ensures
        final(scheduler).wf(),
        final(scheduler).registry_spec() == old(scheduler).registry_spec(),
        final(scheduler).ids() == old(scheduler).ids(),
        final(scheduler).current_id() == next_after(old(scheduler).ids(),
            old(scheduler).current_id()),
        match next_after(old(scheduler).ids(), old(scheduler).current_id()) {
            None => r == ScheduleAction::Stay && final(scheduler).current_spec()
                == old(scheduler).current_spec(),
            Some(n) => if old(scheduler).current_id() == Some(n) {
                r == ScheduleAction::Stay && final(scheduler).current_spec()
                    == old(scheduler).current_spec()
            } else {
                r matches ScheduleAction::Switch { from, to }
                    && from == old(scheduler).current_spec() && to@ == n
            },
        },
{
    scheduler.schedule_next()
}

/// The identifier of the thread currently running under the given
/// scheduler instance.
pub fn current_thread(scheduler: &ThreadScheduler) -> (r: Option<TaskId>)
    ensures
        r == scheduler.current_spec(),
{
    scheduler.current_thread()
}

} // verus!
