//! The task control block: what the scheduler and the dispatcher read and
//! change of a task.

use vstd::prelude::*;
use crate::config::{BIG_STRIDE, MIN_PRIORITY};
use crate::mm::{ceil_page, floor_page, fresh_pages, pages_free, MemorySet};

verus! {

/// Where a task stands in its life.
#[derive(Clone, Copy, Debug, PartialEq, Eq, Structural)]
pub enum TaskStatus {
    Ready,
    Running,
    Blocked,
    Zombie,
}

/// The registers saved when control leaves a flow of execution.
#[derive(Clone, Copy, Debug, PartialEq, Eq, Structural)]
pub struct TaskContext {
    pub ra: usize,
    pub sp: usize,
}

impl TaskContext {
    /// A context with every register zero.
    pub fn zero_init() -> (cx: Self)
        ensures
            cx == (TaskContext { ra: 0, sp: 0 }),
    {
        TaskContext { ra: 0, sp: 0 }
    }
}

/// The state of a task at the moment it entered the kernel.
#[derive(Clone, Copy, Debug, PartialEq, Eq, Structural)]
pub struct TrapContext {
    pub sepc: usize,
    pub sp: usize,
    pub a0: usize,
}

/// The stride that a task of priority `priority` holds after one more turn,
/// counted modulo 2^64.
pub open spec fn stride_after(stride: u64, priority: u64) -> u64 {
    ((stride + BIG_STRIDE as int / priority as int) % 0x1_0000_0000_0000_0000) as u64
}

/// A task's share of the CPU: its priority and the stride it has run up.
/// The priority is never below `MIN_PRIORITY`.
#[derive(Clone, Copy, Debug)]
pub struct Share {
    priority: u64,
    stride: u64,
}

impl Share {
    #[verifier::type_invariant]
    spec fn inv(self) -> bool {
        self.priority >= MIN_PRIORITY
    }

    pub closed spec fn priority_value(self) -> u64 {
        self.priority
    }

    pub closed spec fn stride_value(self) -> u64 {
        self.stride
    }

    /// A share with stride zero; none for a priority below `MIN_PRIORITY`.
    pub fn new(priority: u64) -> (share: Option<Self>)
        ensures
            share is Some <==> priority >= MIN_PRIORITY,
            share is Some ==> share->0.priority_value() == priority && share->0.stride_value()
                == 0,
    {
        if priority >= MIN_PRIORITY {
            Some(Share { priority, stride: 0 })
        } else {
            None
        }
    }

    pub fn priority(&self) -> (p: u64)
        ensures
            p == self.priority_value(),
            p >= MIN_PRIORITY,
    {
        proof {
            use_type_invariant(self);
        }
        self.priority
    }

    pub fn stride(&self) -> (s: u64)
        ensures
            s == self.stride_value(),
    {
        self.stride
    }

    /// Takes `priority` if it is at least `MIN_PRIORITY`, and says whether it did.
    pub fn set_priority(&mut self, priority: u64) -> (taken: bool)
        ensures
            taken == (priority >= MIN_PRIORITY),
            final(self).stride_value() == old(self).stride_value(),
            final(self).priority_value() == (if taken {
                priority
            } else {
                old(self).priority_value()
            }),
    {
        if priority >= MIN_PRIORITY {
            self.priority = priority;
            true
        } else {
            false
        }
    }

    pub fn set_stride(&mut self, stride: u64)
        ensures
            final(self).stride_value() == stride,
            final(self).priority_value() == old(self).priority_value(),
    {
        proof {
            use_type_invariant(&*self);
        }
        self.stride = stride;
    }

    /// Charges one turn: the stride grows by `BIG_STRIDE / priority`, modulo 2^64.
    pub fn advance(&mut self)
        ensures
            final(self).priority_value() == old(self).priority_value(),
            final(self).stride_value() == stride_after(
                old(self).stride_value(),
                old(self).priority_value(),
            ),
    {
        proof {
            use_type_invariant(&*self);
        }
        let pass: u64 = BIG_STRIDE / self.priority;
        let room: u64 = u64::MAX - self.stride;
        if pass <= room {
            self.stride = self.stride + pass;
        } else {
            self.stride = pass - room - 1;
        }
    }
}

/// What a task is, as contracts speak of it.
pub struct TaskView {
    pub pid: usize,
    pub priority: u64,
    pub stride: u64,
    pub status: TaskStatus,
    pub task_cx: TaskContext,
    pub trap_cx: TrapContext,
    pub token: usize,
    pub pages: Map<int, u8>,
}

/// One schedulable task.
pub struct TaskControlBlock {
    pid: usize,
    share: Share,
    task_status: TaskStatus,
    task_cx: TaskContext,
    trap_cx: TrapContext,
    memory_set: MemorySet,
}

impl View for TaskControlBlock {
    type V = TaskView;

    closed spec fn view(&self) -> TaskView {
        TaskView {
            pid: self.pid,
            priority: self.share.priority_value(),
            stride: self.share.stride_value(),
            status: self.task_status,
            task_cx: self.task_cx,
            trap_cx: self.trap_cx,
            token: self.memory_set.token_value(),
            pages: self.memory_set.pages(),
        }
    }
}

impl TaskControlBlock {
    /// A ready task with stride zero and zeroed contexts, on the given address
    /// space; none for a priority below `MIN_PRIORITY`.
    pub fn new(pid: usize, priority: u64, memory_set: MemorySet) -> (task: Option<Self>)
        ensures
            task is Some <==> priority >= MIN_PRIORITY,
            task is Some ==> task->0@ == (TaskView {
                pid,
                priority,
                stride: 0,
                status: TaskStatus::Ready,
                task_cx: TaskContext { ra: 0, sp: 0 },
                trap_cx: TrapContext { sepc: 0, sp: 0, a0: 0 },
                token: memory_set.token_value(),
                pages: memory_set.pages(),
            }),
    {
        match Share::new(priority) {
            Some(share) => Some(
                TaskControlBlock {
                    pid,
                    share,
                    task_status: TaskStatus::Ready,
                    task_cx: TaskContext::zero_init(),
                    trap_cx: TrapContext { sepc: 0, sp: 0, a0: 0 },
                    memory_set,
                },
            ),
            None => None,
        }
    }

    pub fn pid(&self) -> (pid: usize)
        ensures
            pid == self@.pid,
    {
        self.pid
    }

    pub fn get_priority(&self) -> (p: u64)
        ensures
            p == self@.priority,
            p >= MIN_PRIORITY,
    {
        self.share.priority()
    }

    pub fn stride(&self) -> (s: u64)
        ensures
            s == self@.stride,
    {
        self.share.stride()
    }

    pub fn status(&self) -> (s: TaskStatus)
        ensures
            s == self@.status,
    {
        self.task_status
    }

    pub fn task_cx(&self) -> (cx: TaskContext)
        ensures
            cx == self@.task_cx,
    {
        self.task_cx
    }

    pub fn get_trap_cx(&self) -> (cx: TrapContext)
        ensures
            cx == self@.trap_cx,
    {
        self.trap_cx
    }

    pub fn get_user_token(&self) -> (token: usize)
        ensures
            token == self@.token,
    {
        self.memory_set.token()
    }

    /// Takes `priority` if it is at least `MIN_PRIORITY`, and says whether it did.
    pub fn set_priority(&mut self, priority: u64) -> (taken: bool)
        ensures
            taken == (priority >= MIN_PRIORITY),
            taken ==> final(self)@ == (TaskView { priority, ..old(self)@ }),
            !taken ==> final(self)@ == old(self)@,
    {
        self.share.set_priority(priority)
    }

    pub fn set_stride(&mut self, stride: u64)
        ensures
            final(self)@ == (TaskView { stride, ..old(self)@ }),
    {
        self.share.set_stride(stride);
    }

    pub fn set_status(&mut self, status: TaskStatus)
        ensures
            final(self)@ == (TaskView { status, ..old(self)@ }),
    {
        self.task_status = status;
    }

    pub fn set_task_cx(&mut self, task_cx: TaskContext)
        ensures
            final(self)@ == (TaskView { task_cx, ..old(self)@ }),
    {
        self.task_cx = task_cx;
    }

    pub fn set_trap_cx(&mut self, trap_cx: TrapContext)
        ensures
            final(self)@ == (TaskView { trap_cx, ..old(self)@ }),
    {
        self.trap_cx = trap_cx;
    }

    /// The trap context, to be changed in place.
    pub fn trap_cx_mut(&mut self) -> (cx: &mut TrapContext)
        ensures
            *cx == old(self)@.trap_cx,
            final(self)@ == (TaskView { trap_cx: *final(cx), ..old(self)@ }),
    {
        &mut self.trap_cx
    }

    /// Charges one turn: the stride grows by `BIG_STRIDE / priority`, modulo 2^64.
    pub fn advance_stride(&mut self)
        ensures
            final(self)@ == (TaskView {
                stride: stride_after(old(self)@.stride, old(self)@.priority),
                ..old(self)@
            }),
    {
        self.share.advance();
    }

    /// The permission bits of page `vpn`, if it is mapped.
    pub fn translate(&self, vpn: usize) -> (perm: Option<u8>)
        ensures
            perm == (if self@.pages.contains_key(vpn as int) {
                Some(self@.pages[vpn as int])
            } else {
                None::<u8>
            }),
    {
        self.memory_set.translate(vpn)
    }

    /// Whether no page of `[start_vpn, end_vpn)` is mapped.
    pub fn range_free(&self, start_vpn: usize, end_vpn: usize) -> (free: bool)
        ensures
            free == pages_free(self@.pages, start_vpn as int, end_vpn as int),
    {
        self.memory_set.range_free(start_vpn, end_vpn)
    }

    /// Maps every page that `[start, end)` touches, with permission `perm`.
    pub fn insert_framed_area(&mut self, start: usize, end: usize, perm: u8)
        requires
            pages_free(old(self)@.pages, floor_page(start as int), ceil_page(end as int)),
        ensures
            final(self)@ == (TaskView {
                pages: old(self)@.pages.union_prefer_right(
                    fresh_pages(start as int, end as int, perm),
                ),
                ..old(self)@
            }),
    {
        self.memory_set.insert_framed_area(start, end, perm);
    }
}

} // verus!
