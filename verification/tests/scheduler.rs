use task_sched::config::{BIG_STRIDE, DEFAULT_PRIORITY, MIN_PRIORITY};
use task_sched::manager::{add_task, fetch_task, spawn, TaskManager};
use task_sched::mm::MemorySet;
use task_sched::processor::{run_tasks, Processor};
use task_sched::task::{Share, TaskContext, TaskControlBlock, TaskStatus};

fn task(pid: usize, priority: u64, stride: u64) -> TaskControlBlock {
    let mut t = TaskControlBlock::new(pid, priority, MemorySet::new(pid)).unwrap();
    t.set_stride(stride);
    t
}

#[test]
fn new_pool_is_empty() {
    let mut m = TaskManager::new();
    assert_eq!(m.len(), 0);
    assert!(m.fetch().is_none());
    assert_eq!(m.len(), 0);
}

#[test]
fn add_appends_to_the_pool() {
    let mut m = TaskManager::new();
    m.add(task(1, 2, 0));
    assert_eq!(m.len(), 1);
    m.add(task(2, 2, 0));
    assert_eq!(m.len(), 2);
}

#[test]
fn fetch_returns_least_stride() {
    let mut m = TaskManager::new();
    m.add(task(1, 4, 30));
    m.add(task(2, 4, 10));
    m.add(task(3, 4, 20));
    assert_eq!(m.fetch().unwrap().pid(), 2);
    assert_eq!(m.fetch().unwrap().pid(), 3);
    assert_eq!(m.fetch().unwrap().pid(), 1);
    assert!(m.fetch().is_none());
}

#[test]
fn fetch_breaks_ties_by_pool_order() {
    let mut m = TaskManager::new();
    m.add(task(7, 4, 5));
    m.add(task(8, 4, 5));
    m.add(task(9, 4, 5));
    assert_eq!(m.fetch().unwrap().pid(), 7);
    assert_eq!(m.fetch().unwrap().pid(), 8);
    assert_eq!(m.fetch().unwrap().pid(), 9);
}

#[test]
fn fetch_keeps_the_order_of_the_rest() {
    let mut m = TaskManager::new();
    m.add(task(1, 4, 9));
    m.add(task(2, 4, 1));
    m.add(task(3, 4, 9));
    assert_eq!(m.fetch().unwrap().pid(), 2);
    assert_eq!(m.len(), 2);
    assert_eq!(m.fetch().unwrap().pid(), 1);
    assert_eq!(m.fetch().unwrap().pid(), 3);
}

#[test]
fn fetch_charges_big_stride_over_priority() {
    let mut m = TaskManager::new();
    m.add(task(1, 2, 100));
    let t = m.fetch().unwrap();
    assert_eq!(t.stride(), 100 + 0x8000_0000);
    assert_eq!(t.get_priority(), 2);
    assert_eq!(t.pid(), 1);

    m.add(task(2, 3, 0));
    assert_eq!(m.fetch().unwrap().stride(), 1_431_655_765);

    m.add(task(3, DEFAULT_PRIORITY, 7));
    assert_eq!(m.fetch().unwrap().stride(), 7 + BIG_STRIDE / 16);
}

#[test]
fn a_priority_above_big_stride_is_charged_nothing() {
    let mut m = TaskManager::new();
    m.add(task(1, BIG_STRIDE + 1, 42));
    assert_eq!(m.fetch().unwrap().stride(), 42);
}

#[test]
fn stride_counts_modulo_two_to_the_64() {
    let mut m = TaskManager::new();
    m.add(task(1, 2, u64::MAX));
    assert_eq!(m.fetch().unwrap().stride(), 0x7FFF_FFFF);
    m.add(task(2, 2, u64::MAX - 0x8000_0000));
    assert_eq!(m.fetch().unwrap().stride(), u64::MAX);
}

#[test]
fn fetch_leaves_other_fields_alone() {
    let mut m = TaskManager::new();
    let mut t = task(5, 4, 0);
    t.set_status(TaskStatus::Blocked);
    t.set_task_cx(TaskContext { ra: 11, sp: 22 });
    m.add(t);
    let out = m.fetch().unwrap();
    assert_eq!(out.status(), TaskStatus::Blocked);
    assert_eq!(out.task_cx(), TaskContext { ra: 11, sp: 22 });
    assert_eq!(out.get_user_token(), 5);
}

#[test]
fn n_fetches_drain_n_adds() {
    let mut m = TaskManager::new();
    let strides: [u64; 6] = [50, 10, 40, 10, 0, 30];
    let mut pid: usize = 0;
    while pid < 6 {
        add_task(&mut m, task(pid, 2 + pid as u64, strides[pid]));
        pid += 1;
    }
    let mut seen: Vec<usize> = Vec::new();
    let mut k: usize = 0;
    while k < 6 {
        seen.push(fetch_task(&mut m).unwrap().pid());
        k += 1;
    }
    assert_eq!(seen, vec![4, 1, 3, 5, 2, 0]);
    assert_eq!(m.len(), 0);
    assert!(fetch_task(&mut m).is_none());
}

#[test]
fn turns_follow_priorities() {
    let mut m = TaskManager::new();
    m.add(task(0, 2, 0));
    m.add(task(1, 4, 0));
    m.add(task(2, 8, 0));
    let mut turns: [u64; 3] = [0, 0, 0];
    let mut round: u64 = 0;
    while round < 7000 {
        let t = m.fetch().unwrap();
        turns[t.pid()] += 1;
        m.add(t);
        round += 1;
    }
    assert!(turns[0] >= 999 && turns[0] <= 1001);
    assert!(turns[1] >= 1999 && turns[1] <= 2001);
    assert!(turns[2] >= 3999 && turns[2] <= 4001);
}

#[test]
fn strides_stay_within_half_big_stride() {
    let mut m = TaskManager::new();
    m.add(task(0, 2, 0));
    m.add(task(1, 3, 0));
    m.add(task(2, 7, 0));
    let mut last: [u64; 3] = [0, 0, 0];
    let mut round: u64 = 0;
    while round < 500 {
        let t = m.fetch().unwrap();
        last[t.pid()] = t.stride();
        m.add(t);
        let hi: u64 = *last.iter().max().unwrap();
        let lo: u64 = *last.iter().min().unwrap();
        assert!(hi - lo <= BIG_STRIDE / 2);
        round += 1;
    }
}

#[test]
fn priority_below_the_floor_is_refused() {
    assert!(TaskControlBlock::new(1, 0, MemorySet::new(0)).is_none());
    assert!(TaskControlBlock::new(1, 1, MemorySet::new(0)).is_none());
    assert!(TaskControlBlock::new(1, MIN_PRIORITY, MemorySet::new(0)).is_some());
    assert!(Share::new(1).is_none());
    let s = Share::new(2).unwrap();
    assert_eq!(s.priority(), 2);
    assert_eq!(s.stride(), 0);
}

#[test]
fn new_task_is_ready_with_stride_zero() {
    let t = TaskControlBlock::new(3, 16, MemorySet::new(77)).unwrap();
    assert_eq!(t.pid(), 3);
    assert_eq!(t.get_priority(), 16);
    assert_eq!(t.stride(), 0);
    assert_eq!(t.status(), TaskStatus::Ready);
    assert_eq!(t.task_cx(), TaskContext { ra: 0, sp: 0 });
    assert_eq!(t.get_user_token(), 77);
    assert_eq!(t.translate(0), None);
}

#[test]
fn set_priority_keeps_the_old_value_when_refused() {
    let mut t = task(1, 5, 9);
    assert!(!t.set_priority(1));
    assert_eq!(t.get_priority(), 5);
    assert!(!t.set_priority(0));
    assert_eq!(t.get_priority(), 5);
    assert!(t.set_priority(2));
    assert_eq!(t.get_priority(), 2);
    assert_eq!(t.stride(), 9);
}

#[test]
fn share_advance_adds_one_pass() {
    let mut s = Share::new(4).unwrap();
    s.advance();
    assert_eq!(s.stride(), 0x4000_0000);
    s.advance();
    assert_eq!(s.stride(), 0x8000_0000);
    assert!(s.set_priority(8));
    s.advance();
    assert_eq!(s.stride(), 0xA000_0000);
    s.set_stride(u64::MAX);
    s.advance();
    assert_eq!(s.stride(), 0x1FFF_FFFF);
}

#[test]
fn spawn_adds_the_child_and_returns_its_pid() {
    let mut m = TaskManager::new();
    let mut p = Processor::new();
    m.add(task(1, 2, 0));
    assert!(run_tasks(&mut m, &mut p, TaskContext { ra: 0, sp: 0 }).is_some());
    assert_eq!(m.len(), 0);
    let id: isize = spawn(&mut m, &p, task(42, 2, 0));
    assert_eq!(id, 42);
    assert_eq!(m.len(), 1);
    assert_eq!(m.fetch().unwrap().pid(), 42);
}
