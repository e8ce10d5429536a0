//! The dispatcher: the task bound to the CPU, and the context records that a
//! transfer of control exchanges.
//!
//! A transfer saves the registers of the flow that gives up the CPU into one
//! context record and resumes from another. The functions here decide which
//! record takes the live registers and which one is resumed from; loading
//! that record into the hardware is the caller's part.

use vstd::prelude::*;
use crate::config::PAGE_SIZE;
use crate::manager::{fetched, pool_after_fetch, TaskManager};
use crate::mm::{ceil_page, floor_page, fresh_pages, page_ceil, page_floor, pages_free, PERM_U};
use crate::task::{TaskContext, TaskControlBlock, TaskStatus, TaskView, TrapContext};

verus! {

/// The state of the one CPU.
pub struct Processor {
    current: Option<TaskControlBlock>,
    idle_task_cx: TaskContext,
}

/// The permission bits that a mapping request `port` asks for: read, write
/// and execute as bits 0 to 2 of `port`, and always user access.
pub open spec fn mmap_permission(port: usize) -> u8 {
    (((port & 0x7) as u8) << 1u8) | PERM_U
}

/// Whether a mapping request is granted on an address space that holds `pages`.
pub open spec fn mmap_accepts(pages: Map<int, u8>, start: usize, len: usize, port: usize) -> bool {
    &&& start as int % PAGE_SIZE as int == 0
    &&& port & !0x7usize == 0
    &&& port & 0x7usize != 0
    &&& start + len <= usize::MAX
    &&& pages_free(pages, floor_page(start as int), ceil_page(start + len))
}

impl Processor {
    /// The task bound to the CPU, if any.
    pub closed spec fn current_view(self) -> Option<TaskView> {
        match self.current {
            Some(t) => Some(t@),
            None => None,
        }
    }

    /// The context of the scheduling loop.
    pub closed spec fn idle_cx(self) -> TaskContext {
        self.idle_task_cx
    }

    /// A CPU that runs no task, with a zeroed idle context.
    pub fn new() -> (processor: Self)
        ensures
            processor.current_view() is None,
            processor.idle_cx() == (TaskContext { ra: 0, sp: 0 }),
    {
        Processor { current: None, idle_task_cx: TaskContext::zero_init() }
    }

    /// Unbinds the current task from the CPU and hands it out.
    pub fn take_current(&mut self) -> (task: Option<TaskControlBlock>)
        ensures
            final(self).current_view() is None,
            final(self).idle_cx() == old(self).idle_cx(),
            old(self).current_view() == (match task {
                Some(t) => Some(t@),
                None => None::<TaskView>,
            }),
    {
        self.current.take()
    }

    /// The current task, which stays bound to the CPU.
    pub fn current(&self) -> (task: Option<&TaskControlBlock>)
        ensures
            self.current_view() == (match task {
                Some(t) => Some(t@),
                None => None::<TaskView>,
            }),
    {
        self.current.as_ref()
    }

    /// The context of the scheduling loop, as last saved.
    pub fn idle_task_cx(&self) -> (cx: TaskContext)
        ensures
            cx == self.idle_cx(),
    {
        self.idle_task_cx
    }
}

/// One round of the scheduling loop, which runs on the registers `live`.
///
/// With a task in the pool: the task that the turn goes to leaves the pool,
/// is marked running and bound to the CPU; `live` is saved as the idle
/// context; the result is the context to resume the task from. With an empty
/// pool nothing changes and nothing is resumed: the loop asks again.
pub fn run_tasks(manager: &mut TaskManager, processor: &mut Processor, live: TaskContext) -> (resume:
    Option<TaskContext>)
    ensures
        final(manager)@ == pool_after_fetch(old(manager)@),
        match fetched(old(manager)@) {
            Some(t) => {
                &&& resume == Some(t.task_cx)
                &&& final(processor).current_view() == Some(
                    TaskView { status: TaskStatus::Running, ..t },
                )
                &&& final(processor).idle_cx() == live
            },
            None => {
                &&& resume is None
                &&& final(processor).current_view() == old(processor).current_view()
                &&& final(processor).idle_cx() == old(processor).idle_cx()
            },
        },
{
    match manager.fetch() {
        Some(mut task) => {
            let next: TaskContext = task.task_cx();
            task.set_status(TaskStatus::Running);
            processor.current = Some(task);
            processor.idle_task_cx = live;
            Some(next)
        },
        None => None,
    }
}

/// Unbinds the current task from the CPU and hands it out.
pub fn take_current_task(processor: &mut Processor) -> (task: Option<TaskControlBlock>)
    ensures
        final(processor).current_view() is None,
        final(processor).idle_cx() == old(processor).idle_cx(),
        old(processor).current_view() == (match task {
            Some(t) => Some(t@),
            None => None::<TaskView>,
        }),
{
    processor.take_current()
}

/// The current task, which stays bound to the CPU.
pub fn current_task(processor: &Processor) -> (task: Option<&TaskControlBlock>)
    ensures
        processor.current_view() == (match task {
            Some(t) => Some(t@),
            None => None::<TaskView>,
        }),
{
    processor.current()
}

/// The address-space token of the current task.
pub fn current_user_token(processor: &Processor) -> (token: usize)
    requires
        processor.current_view() is Some,
    ensures
        token == processor.current_view()->0.token,
{
    match processor.current() {
        Some(task) => task.get_user_token(),
        None => 0,
    }
}

/// The trap context of the current task, to be read and changed in place.
pub fn current_trap_cx(processor: &mut Processor) -> (cx: &mut TrapContext)
    requires
        old(processor).current_view() is Some,
    ensures
        *cx == old(processor).current_view()->0.trap_cx,
        final(processor).idle_cx() == old(processor).idle_cx(),
        final(processor).current_view() == Some(
            TaskView { trap_cx: *final(cx), ..old(processor).current_view()->0 },
        ),
{
    processor.current.as_mut().unwrap().trap_cx_mut()
}

/// The way back to the scheduling loop: the registers `live` of the flow that
/// gives up the CPU are saved into `switched_task_cx`, and the result is the
/// idle context, to resume the loop from.
pub fn schedule(processor: &Processor, switched_task_cx: &mut TaskContext, live: TaskContext) -> (resume:
    TaskContext)
    ensures
        *final(switched_task_cx) == live,
        resume == processor.idle_cx(),
{
    *switched_task_cx = live;
    processor.idle_task_cx()
}

/// Maps the pages that `[start, start + len)` touches into the address space
/// of the current task, with the permissions that `port` asks for and user
/// access. Returns 0 where the request is granted and -1 where it is not;
/// a request that is not granted changes nothing.
pub fn mmap(processor: &mut Processor, start: usize, len: usize, port: usize) -> (status: isize)
    requires
        old(processor).current_view() is Some,
    ensures
        final(processor).idle_cx() == old(processor).idle_cx(),
        mmap_accepts(old(processor).current_view()->0.pages, start, len, port) ==> {
            &&& status == 0
            &&& final(processor).current_view() == Some(
                TaskView {
                    pages: old(processor).current_view()->0.pages.union_prefer_right(
                        fresh_pages(start as int, start + len, mmap_permission(port)),
                    ),
                    ..old(processor).current_view()->0
                },
            )
        },
        !mmap_accepts(old(processor).current_view()->0.pages, start, len, port) ==> {
            &&& status == -1
            &&& final(processor).current_view() == old(processor).current_view()
        },
{
    if (start % PAGE_SIZE != 0) || (port & !0x7 != 0) || (port & 0x7 == 0) {
        return -1;
    }
    if len > usize::MAX - start {
        return -1;
    }
    let end: usize = start + len;
    assert(port & 0x7usize == port && port <= 7) by (bit_vector)
        requires
            port & !0x7usize == 0,
    ;
    let bits: u8 = port as u8;
    let map_permission: u8 = (bits << 1u8) | PERM_U;
    match processor.current.take() {
        Some(mut task) => {
            let granted: bool = task.range_free(page_floor(start), page_ceil(end));
            if granted {
                task.insert_framed_area(start, end, map_permission);
            }
            processor.current = Some(task);
            if granted {
                0
            } else {
                -1
            }
        },
        None => -1,
    }
}

/// Unmapping is not offered: every request is refused with -1.
pub fn munmap(_start: usize, _len: usize) -> (status: isize)
    ensures
        status == -1,
{
    -1
}

} // verus!
