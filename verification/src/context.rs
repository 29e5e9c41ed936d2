//! The processor context: the snapshot of register state that is saved and
//! restored when control moves from one kernel thread to another.

use vstd::prelude::*;

verus! {

/// A snapshot of the callee-saved processor state: six general-purpose
/// registers, the stack pointer and the resume (instruction-pointer) value.
///
/// For a thread that has never run the snapshot is synthesized by
/// [`TaskContext::init`]; for a suspended thread it is whatever the switch
/// primitive last saved in place. The switch primitive itself is
/// machine code outside this library; it reads and writes these fields
/// through a layout-compatible mirror.
#[derive(Debug, Clone, Copy, PartialEq, Eq, Structural)]
pub struct TaskContext {
    pub r15: u64,
    pub r14: u64,
    pub r13: u64,
    pub r12: u64,
    pub rbx: u64,
    pub rbp: u64,
    pub rsp: u64,
    pub rip: u64,
}

impl TaskContext {
    /// An empty context: every register, the stack pointer and the resume
    /// value are zero. Used only as the placeholder destination for the very
    /// first outgoing save, never as a resume target.
    pub fn new() -> (r: TaskContext)
        ensures
            r == (TaskContext {
                r15: 0,
                r14: 0,
                r13: 0,
                r12: 0,
                rbx: 0,
                rbp: 0,
                rsp: 0,
                rip: 0,
            }),
    {
        TaskContext { r15: 0, r14: 0, r13: 0, r12: 0, rbx: 0, rbp: 0, rsp: 0, rip: 0 }
    }

    /// Synthesize the context of a thread that has never run: the stack
    /// pointer is the top of its dedicated stack and the resume value is
    /// the trampoline's address. The switch primitive transfers control via
    /// the resume value, not via a normal call, so no conventional argument
    /// passing can hand the trampoline its target: the entry procedure's
    /// address travels in `r15`, the one designated register channel, and
    /// every other general-purpose register is zero.
    pub fn init(entry_point: u64, trampoline: u64, stack_top: u64) -> (r: TaskContext)
        ensures
            r == (TaskContext {
                r15: entry_point,
                r14: 0,
                r13: 0,
                r12: 0,
                rbx: 0,
                rbp: 0,
                rsp: stack_top,
                rip: trampoline,
            }),
    {
        TaskContext {
            r15: entry_point,
            r14: 0,
            r13: 0,
            r12: 0,
            rbx: 0,
            rbp: 0,
            rsp: stack_top,
            rip: trampoline,
        }
    }
}

} // verus!
