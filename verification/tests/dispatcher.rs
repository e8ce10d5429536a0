use task_sched::manager::TaskManager;
use task_sched::mm::MemorySet;
use task_sched::processor::{
    current_task, current_trap_cx, current_user_token, run_tasks, schedule, take_current_task,
    Processor,
};
use task_sched::task::{TaskContext, TaskControlBlock, TaskStatus, TrapContext};

fn task(pid: usize, priority: u64, stride: u64) -> TaskControlBlock {
    let mut t = TaskControlBlock::new(pid, priority, MemorySet::new(1000 + pid)).unwrap();
    t.set_stride(stride);
    t
}

fn running(pid: usize) -> Processor {
    let mut m = TaskManager::new();
    let mut p = Processor::new();
    m.add(task(pid, 2, 0));
    assert!(run_tasks(&mut m, &mut p, TaskContext { ra: 0, sp: 0 }).is_some());
    p
}

#[test]
fn new_processor_runs_nothing() {
    let mut p = Processor::new();
    assert!(p.current().is_none());
    assert!(current_task(&p).is_none());
    assert_eq!(p.idle_task_cx(), TaskContext { ra: 0, sp: 0 });
    assert!(p.take_current().is_none());
}

#[test]
fn take_current_task_empties_the_slot() {
    let mut p = running(3);
    let t = take_current_task(&mut p).unwrap();
    assert_eq!(t.pid(), 3);
    assert!(current_task(&p).is_none());
    assert!(take_current_task(&mut p).is_none());
}

#[test]
fn current_task_twice_is_the_same_task() {
    let p = running(9);
    let a = current_task(&p).unwrap();
    let b = current_task(&p).unwrap();
    assert_eq!(a.pid(), 9);
    assert_eq!(b.pid(), 9);
    assert!(std::ptr::eq(a, b));
    assert!(p.current().is_some());
}

#[test]
fn run_tasks_binds_the_selected_task() {
    let mut m = TaskManager::new();
    let mut p = Processor::new();
    let mut a = task(1, 4, 10);
    a.set_task_cx(TaskContext { ra: 0x1000, sp: 0x2000 });
    let mut b = task(2, 4, 5);
    b.set_task_cx(TaskContext { ra: 0x3000, sp: 0x4000 });
    m.add(a);
    m.add(b);
    let live = TaskContext { ra: 0xAA, sp: 0xBB };
    let resume = run_tasks(&mut m, &mut p, live);
    assert_eq!(resume, Some(TaskContext { ra: 0x3000, sp: 0x4000 }));
    assert_eq!(p.idle_task_cx(), live);
    assert_eq!(m.len(), 1);
    let cur = current_task(&p).unwrap();
    assert_eq!(cur.pid(), 2);
    assert_eq!(cur.status(), TaskStatus::Running);
    assert_eq!(cur.stride(), 5 + 0x4000_0000);
}

#[test]
fn run_tasks_on_an_empty_pool_changes_nothing() {
    let mut m = TaskManager::new();
    let mut p = running(4);
    let before = p.idle_task_cx();
    let resume = run_tasks(&mut m, &mut p, TaskContext { ra: 5, sp: 6 });
    assert_eq!(resume, None);
    assert_eq!(p.idle_task_cx(), before);
    assert_eq!(current_task(&p).unwrap().pid(), 4);
}

#[test]
fn schedule_saves_the_flow_and_resumes_the_loop() {
    let mut m = TaskManager::new();
    let mut p = Processor::new();
    m.add(task(1, 2, 0));
    let idle = TaskContext { ra: 0x10, sp: 0x20 };
    assert!(run_tasks(&mut m, &mut p, idle).is_some());
    let mut slot = TaskContext::zero_init();
    let live = TaskContext { ra: 0x77, sp: 0x88 };
    let resume = schedule(&p, &mut slot, live);
    assert_eq!(resume, idle);
    assert_eq!(slot, live);
}

#[test]
fn current_user_token_is_that_of_the_current_task() {
    let p = running(6);
    assert_eq!(current_user_token(&p), 1006);
}

#[test]
fn current_trap_cx_is_changed_in_place() {
    let mut p = running(6);
    assert_eq!(*current_trap_cx(&mut p), TrapContext { sepc: 0, sp: 0, a0: 0 });
    current_trap_cx(&mut p).sepc = 0x8000;
    current_trap_cx(&mut p).a0 = 3;
    assert_eq!(
        current_task(&p).unwrap().get_trap_cx(),
        TrapContext { sepc: 0x8000, sp: 0, a0: 3 }
    );
    assert_eq!(current_task(&p).unwrap().pid(), 6);
}

#[test]
fn setters_change_one_field() {
    let mut t = task(1, 2, 0);
    t.set_trap_cx(TrapContext { sepc: 1, sp: 2, a0: 3 });
    t.set_status(TaskStatus::Zombie);
    assert_eq!(t.get_trap_cx(), TrapContext { sepc: 1, sp: 2, a0: 3 });
    assert_eq!(t.status(), TaskStatus::Zombie);
    assert_eq!(t.pid(), 1);
    assert_eq!(t.get_priority(), 2);
    t.trap_cx_mut().sp = 9;
    assert_eq!(t.get_trap_cx(), TrapContext { sepc: 1, sp: 9, a0: 3 });
}
