//! Per-task execution metadata: status, per-syscall invocation counters and
//! elapsed run time, packaged for return to user space.

use vstd::prelude::*;

verus! {

broadcast use vstd::array::group_array_axioms;

/// Number of syscall ids the per-task counter table covers.
pub const MAX_SYSCALL_NUM: usize = 500;

/// Microseconds per second, for splitting a microsecond clock reading.
pub const USEC_PER_SEC: u64 = 1_000_000;

/// A task's position in its life cycle.
#[derive(Clone, Copy, PartialEq, Eq, Structural, Debug)]
pub enum TaskStatus {
    /// Not yet initialised.
    UnInit,
    /// Runnable, waiting to be scheduled.
    Ready,
    /// Currently executing.
    Running,
    /// Terminated.
    Exited,
}

/// Wall time since boot, split into whole seconds and the microseconds into
/// the current second.
#[derive(Clone, Copy, PartialEq, Eq, Structural, Debug)]
pub struct TimeVal {
    /// Whole seconds.
    pub sec: usize,
    /// Microseconds into the current second, always below one million.
    pub usec: usize,
}

/// Task information
pub struct TaskInfo {
    /// Task status in it's life cycle
    pub status: TaskStatus,
    /// The numbers of syscall called by task
    pub syscall_times: [u32; MAX_SYSCALL_NUM],
    /// Total running time of task
    pub time: usize,
}

/// The task-control state this core reads and transitions: status, syscall
/// counters, the clock reading at first scheduling, and the exit code once
/// the task has terminated.
pub struct TaskControl {
    /// Current life-cycle status.
    pub status: TaskStatus,
    /// Invocation count per syscall id.
    pub syscall_times: [u32; MAX_SYSCALL_NUM],
    /// Microsecond clock reading when the task was first scheduled.
    pub start_time_us: u64,
    /// Exit code submitted by the task, once it has exited.
    pub exit_code: Option<i32>,
}

/// Seconds component of a microsecond clock reading.
pub open spec fn time_sec(us: u64) -> u64 {
    us / USEC_PER_SEC
}

/// Microseconds-into-second component of a microsecond clock reading.
pub open spec fn time_usec(us: u64) -> u64 {
    us % USEC_PER_SEC
}

/// Elapsed whole milliseconds between first scheduling and `now_us`.
pub open spec fn elapsed_ms(start_us: u64, now_us: u64) -> int {
    (now_us - start_us) / 1000
}

impl TaskControl {
    /// A freshly created task: ready to run, all syscall counters zero, no
    /// exit code, first scheduled at `start_time_us`.
    pub fn new(start_time_us: u64) -> (t: TaskControl)
        ensures
            t.status == TaskStatus::Ready,
            forall|i: int| 0 <= i < MAX_SYSCALL_NUM ==> t.syscall_times@[i] == 0u32,
            t.start_time_us == start_time_us,
            t.exit_code is None,
    {
        TaskControl {
            status: TaskStatus::Ready,
            syscall_times: [0u32; MAX_SYSCALL_NUM],
            start_time_us,
            exit_code: None,
        }
    }

    /// Record one invocation of syscall `id`. The counter only ever grows:
    /// it saturates at its maximum rather than wrapping back to zero.
    pub fn record_syscall(&mut self, id: usize)
        requires
            id < MAX_SYSCALL_NUM,
        ensures
            final(self).syscall_times@[id as int] == (if old(self).syscall_times@[id as int]
                < u32::MAX {
                old(self).syscall_times@[id as int] + 1
            } else {
                old(self).syscall_times@[id as int] as int
            }),
            forall|i: int|
                0 <= i < MAX_SYSCALL_NUM && i != id ==> final(self).syscall_times@[i] == old(
                    self,
                ).syscall_times@[i],
            final(self).status == old(self).status,
            final(self).start_time_us == old(self).start_time_us,
            final(self).exit_code == old(self).exit_code,
    {
        let current = self.syscall_times[id];
        if current < u32::MAX {
            self.syscall_times[id] = current + 1;
        }
    }
}

/// Read the current status, the full counter table, and the elapsed run time
/// of the task, as one snapshot for user space. Pure read; elapsed time is
/// `now_us` minus the first-scheduling time, in whole milliseconds.
pub fn snapshot(task: &TaskControl, now_us: u64) -> (info: TaskInfo)
    requires
        now_us >= task.start_time_us,
        elapsed_ms(task.start_time_us, now_us) <= usize::MAX,
    ensures
        info.status == task.status,
        info.syscall_times@ == task.syscall_times@,
        info.time == elapsed_ms(task.start_time_us, now_us),
{
    TaskInfo {
        status: task.status,
        syscall_times: task.syscall_times,
        time: ((now_us - task.start_time_us) / 1000) as usize,
    }
}

/// Split a microsecond clock reading into the (seconds, microseconds) pair
/// written back to user space; the microsecond part is always below one
/// million.
pub fn make_time_val(now_us: u64) -> (tv: TimeVal)
    requires
        time_sec(now_us) <= usize::MAX,
    ensures
        tv.sec == time_sec(now_us),
        tv.usec == time_usec(now_us),
        tv.usec < 1_000_000,
{
    TimeVal { sec: (now_us / USEC_PER_SEC) as usize, usec: (now_us % USEC_PER_SEC) as usize }
}

} // verus!
