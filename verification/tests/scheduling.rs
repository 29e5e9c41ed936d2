use kthreads::context::TaskContext;
use kthreads::kernel_thread::{KernelThread, KERNEL_STACK_SIZE};
use kthreads::task_id::{TaskId, TaskIdAllocator};
use kthreads::thread_scheduler::{
    add_kernel_thread, current_thread, schedule_next_thread, ScheduleAction, ThreadScheduler,
};

const ENTRY: u64 = 0x4000_1000;
const TRAMPOLINE: u64 = 0x4000_2000;

fn new_thread(ids: &mut TaskIdAllocator) -> KernelThread {
    assert!(ids.can_allocate());
    KernelThread::new(ENTRY, TRAMPOLINE, ids)
}

#[test]
fn empty_context_is_zeroed() {
    let c = TaskContext::new();
    assert_eq!(c.r15, 0);
    assert_eq!(c.r14, 0);
    assert_eq!(c.r13, 0);
    assert_eq!(c.r12, 0);
    assert_eq!(c.rbx, 0);
    assert_eq!(c.rbp, 0);
    assert_eq!(c.rsp, 0);
    assert_eq!(c.rip, 0);
}

#[test]
fn init_synthesizes_stack_and_resume() {
    let c = TaskContext::init(0x1111, 0x3333, 0x2222);
    // The entry procedure travels in the register channel; the resume
    // value is the trampoline; the stack pointer is the given stack top.
    assert_eq!(c.r15, 0x1111);
    assert_eq!(c.rip, 0x3333);
    assert_eq!(c.rsp, 0x2222);
    assert_eq!(c.r14, 0);
    assert_eq!(c.r13, 0);
    assert_eq!(c.r12, 0);
    assert_eq!(c.rbx, 0);
    assert_eq!(c.rbp, 0);
}

#[test]
fn task_ids_strictly_increase() {
    let mut ids = TaskIdAllocator::new();
    let a = ids.fresh();
    let b = ids.fresh();
    let c = ids.fresh();
    assert_eq!(a.value(), 0);
    assert_eq!(b.value(), 1);
    assert_eq!(c.value(), 2);
    assert!(a.value() < b.value());
    assert!(b.value() < c.value());
    assert_ne!(a, b);
    assert_ne!(b, c);
    assert_ne!(a, c);
}

#[test]
fn kernel_thread_context_is_synthesized() {
    let mut ids = TaskIdAllocator::new();
    let t = new_thread(&mut ids);
    assert_eq!(t.id().value(), 0);
    let ctx = t.context();
    // The designated register channel carries the entry procedure, the
    // resume value points at the trampoline, and the stack pointer sits at
    // the high end of a stack-sized region.
    assert_eq!(ctx.r15, ENTRY);
    assert_eq!(ctx.rip, TRAMPOLINE);
    assert!(ctx.rsp >= KERNEL_STACK_SIZE as u64);
    assert_eq!(ctx.r14, 0);
    assert_eq!(ctx.rbx, 0);
    assert_eq!(ctx.rbp, 0);
    let u = new_thread(&mut ids);
    assert_eq!(u.id().value(), 1);
}

#[test]
fn empty_registry_is_a_safe_no_op() {
    let mut s = ThreadScheduler::new();
    assert_eq!(current_thread(&s), None);
    let action = schedule_next_thread(&mut s);
    assert_eq!(action, ScheduleAction::Stay);
    assert_eq!(current_thread(&s), None);
    assert_eq!(s.get_next_thread(), None);
}

#[test]
fn registering_does_not_start_a_thread() {
    let mut ids = TaskIdAllocator::new();
    let mut s = ThreadScheduler::new();
    add_kernel_thread(&mut s, new_thread(&mut ids));
    assert_eq!(current_thread(&s), None);
    add_kernel_thread(&mut s, new_thread(&mut ids));
    assert_eq!(current_thread(&s), None);
}

#[test]
fn single_thread_switches_once_then_stays() {
    let mut ids = TaskIdAllocator::new();
    let mut s = ThreadScheduler::new();
    let t = new_thread(&mut ids);
    let id = t.id();
    s.add_thread(t);

    let first = s.schedule_next();
    assert_eq!(first, ScheduleAction::Switch { from: None, to: id });
    assert_eq!(s.current_thread(), Some(id));

    // Every further step is a self-to-self no-op that must not ask for a
    // switch (which would re-save over the thread's own live state).
    for _ in 0..3 {
        let again = s.schedule_next();
        assert_eq!(again, ScheduleAction::Stay);
        assert_eq!(s.current_thread(), Some(id));
    }
}

#[test]
fn three_threads_cycle_in_id_order() {
    let mut ids = TaskIdAllocator::new();
    let mut s = ThreadScheduler::new();
    let a = new_thread(&mut ids);
    let b = new_thread(&mut ids);
    let c = new_thread(&mut ids);
    let (id_a, id_b, id_c) = (a.id(), b.id(), c.id());
    assert_eq!(id_a.value(), 0);
    assert_eq!(id_b.value(), 1);
    assert_eq!(id_c.value(), 2);
    s.add_thread(a);
    s.add_thread(b);
    s.add_thread(c);

    // Starting from no current thread, four consecutive steps make the
    // current thread 0, 1, 2 and then 0 again.
    assert_eq!(s.schedule_next(), ScheduleAction::Switch { from: None, to: id_a });
    assert_eq!(s.current_thread(), Some(id_a));
    assert_eq!(s.schedule_next(), ScheduleAction::Switch { from: Some(id_a), to: id_b });
    assert_eq!(s.current_thread(), Some(id_b));
    assert_eq!(s.schedule_next(), ScheduleAction::Switch { from: Some(id_b), to: id_c });
    assert_eq!(s.current_thread(), Some(id_c));
    assert_eq!(s.schedule_next(), ScheduleAction::Switch { from: Some(id_c), to: id_a });
    assert_eq!(s.current_thread(), Some(id_a));
}

#[test]
fn full_cycle_visits_every_thread_once_ascending() {
    let mut ids = TaskIdAllocator::new();
    let mut s = ThreadScheduler::new();
    let mut registered: Vec<TaskId> = Vec::new();
    for _ in 0..5 {
        let t = new_thread(&mut ids);
        registered.push(t.id());
        s.add_thread(t);
    }

    let mut visited: Vec<TaskId> = Vec::new();
    for _ in 0..5 {
        s.schedule_next();
        visited.push(s.current_thread().expect("a thread is current after a step"));
    }

    // Every registered id appears exactly once, in strictly ascending
    // order, before any id repeats.
    assert_eq!(visited, registered);
    for w in visited.windows(2) {
        assert!(w[0].value() < w[1].value());
    }
    let sixth = s.schedule_next();
    assert_eq!(sixth, ScheduleAction::Switch { from: Some(registered[4]), to: registered[0] });
}

#[test]
fn registration_order_does_not_matter() {
    let mut ids = TaskIdAllocator::new();
    let mut s = ThreadScheduler::new();
    let a = new_thread(&mut ids);
    let b = new_thread(&mut ids);
    let c = new_thread(&mut ids);
    let (id_a, id_b, id_c) = (a.id(), b.id(), c.id());
    // Register in an order different from the id order; round-robin still
    // cycles in ascending id order.
    s.add_thread(c);
    s.add_thread(a);
    s.add_thread(b);

    s.schedule_next();
    assert_eq!(s.current_thread(), Some(id_a));
    s.schedule_next();
    assert_eq!(s.current_thread(), Some(id_b));
    s.schedule_next();
    assert_eq!(s.current_thread(), Some(id_c));
    s.schedule_next();
    assert_eq!(s.current_thread(), Some(id_a));
}

#[test]
fn reregistering_an_id_keeps_a_single_slot() {
    // Two allocators can hand out the same raw id value; registering both
    // threads overwrites the slot instead of growing the cycle, as an
    // ordered map keyed by id would.
    let mut ids_one = TaskIdAllocator::new();
    let mut ids_two = TaskIdAllocator::new();
    let t1 = new_thread(&mut ids_one);
    let t2 = new_thread(&mut ids_two);
    assert_eq!(t1.id(), t2.id());
    let id = t1.id();

    let mut s = ThreadScheduler::new();
    s.add_thread(t1);
    s.add_thread(t2);

    assert!(matches!(s.schedule_next(), ScheduleAction::Switch { from: None, to } if to == id));
    assert_eq!(s.schedule_next(), ScheduleAction::Stay);
    assert_eq!(s.current_thread(), Some(id));
}

#[test]
fn next_thread_query_matches_round_robin() {
    let mut ids = TaskIdAllocator::new();
    let mut s = ThreadScheduler::new();
    let a = new_thread(&mut ids);
    let b = new_thread(&mut ids);
    let (id_a, id_b) = (a.id(), b.id());
    s.add_thread(a);
    s.add_thread(b);

    assert_eq!(s.get_next_thread(), Some(id_a));
    s.schedule_next();
    assert_eq!(s.get_next_thread(), Some(id_b));
    s.schedule_next();
    assert_eq!(s.get_next_thread(), Some(id_a));
}

#[test]
fn idle_context_starts_zeroed() {
    let s = ThreadScheduler::new();
    let idle = s.idle_context();
    assert_eq!(idle, TaskContext::new());
    assert_eq!(idle.rip, 0);
}
