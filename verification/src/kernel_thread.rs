//! Kernel threads: the schedulable unit, owning a dedicated stack and a
//! processor context.

use vstd::prelude::*;
use crate::context::TaskContext;
use crate::task_id::{TaskId, TaskIdAllocator};

verus! {

/// Size in bytes of each kernel thread's dedicated stack.
pub const KERNEL_STACK_SIZE: usize = 16384;

/// A kernel thread: a fresh identifier, a processor context, and an
/// exclusively owned fixed-size stack buffer.
///
/// The stack buffer lives on the heap, is never resized or shared, and is
/// kept alive for the whole lifetime of the thread, because its address is
/// baked into the context's stack pointer. Nothing reads or writes the
/// buffer through this library; only the platform switch primitive touches
/// it, implicitly, through the stack pointer.
pub struct KernelThread {
    pub(crate) id: TaskId,
    pub(crate) context: TaskContext,
    pub(crate) stack: Vec<u8>,
    pub(crate) stack_base: Ghost<u64>,
}

/// Relies on `Vec::as_ptr` and std's guarantee that an allocated object
/// never wraps around the address space: for a non-empty buffer, the base
/// address plus the length still fits in 64 bits.
#[verifier::external_body]
fn buffer_base_address(buf: &Vec<u8>) -> (r: u64)
    ensures
        buf@.len() > 0 ==> r as int + buf@.len() as int <= u64::MAX as int,
{
    buf.as_ptr() as u64
}

impl KernelThread {
    /// The identifier of this thread, as a raw 64-bit value.
    pub closed spec fn id_spec(&self) -> u64 {
        self.id@
    }

    /// The processor context this thread holds.
    pub closed spec fn context_spec(&self) -> TaskContext {
        self.context
    }

    /// The base address of this thread's stack buffer, as recorded when the
    /// buffer was allocated.
    pub closed spec fn stack_base_spec(&self) -> u64 {
        self.stack_base@
    }

    /// The length in bytes of this thread's stack buffer.
    pub closed spec fn stack_len(&self) -> nat {
        self.stack@.len()
    }

    /// Create a new kernel thread, drawing a fresh identifier from `ids`.
    ///
    /// `entry_point` is the address of the thread's real entry procedure and
    /// `trampoline` the address of the fixed routine used as the first
    /// resume target. Stacks grow downward, so the synthesized context's
    /// stack pointer is the high end of the freshly allocated buffer; the
    /// resume value is the trampoline, and the entry procedure's address is
    /// passed through the one designated register the trampoline reads,
    /// because the switch transfers control via the resume value and no
    /// ordinary argument passing exists on that path.
    pub fn new(entry_point: u64, trampoline: u64, ids: &mut TaskIdAllocator) -> (r: KernelThread)
        requires
            old(ids).wf(),
            old(ids).next_spec() < u64::MAX,
        ensures
            final(ids).wf(),
            final(ids).next_spec() == old(ids).next_spec() + 1,
            final(ids).allocated() == old(ids).allocated().push(r.id_spec()),
            r.id_spec() == old(ids).next_spec(),
            r.stack_len() == KERNEL_STACK_SIZE,
            r.context_spec().rsp as int == r.stack_base_spec() as int + KERNEL_STACK_SIZE as int,
            r.context_spec() == (TaskContext {
                r15: entry_point,
                r14: 0,
                r13: 0,
                r12: 0,
                rbx: 0,
                rbp: 0,
                rsp: r.context_spec().rsp,
                rip: trampoline,
            }),
    {
        let stack: Vec<u8> = vec![0u8; KERNEL_STACK_SIZE];
        let base = buffer_base_address(&stack);
        let stack_top = base + KERNEL_STACK_SIZE as u64;

        let context = TaskContext::init(entry_point, trampoline, stack_top);

        KernelThread { id: ids.fresh(), context, stack, stack_base: Ghost(base) }
    }

    /// The identifier of this thread.
    pub fn id(&self) -> (r: TaskId)
        ensures
            r@ == self.id_spec(),
    {
        self.id
    }

    /// A copy of this thread's processor context, as the scheduler's
    /// machine-level collaborator needs it to seed the slot the switch
    /// primitive will save into and restore from.
    pub fn context(&self) -> (r: TaskContext)
        ensures
            r == self.context_spec(),
    {
        self.context
    }
}

} // verus!
