//! The dispatch-facing syscall entry points. Each validates its arguments,
//! performs the minimal transformation, and returns a signed machine-word
//! result: zero (or a positive value) on success, `-1` on failure, with no
//! failure detail exposed — the structured error stays internal.
//!
//! The kernel context, and the clock reading where one is consumed, are
//! passed explicitly: the trap handler reads the clock and owns the context,
//! so every entry point is a function of its inputs.

use vstd::prelude::*;
use crate::kernel::{Kernel, range_mapped, write_seq};
use crate::mapper::{map_outcome, map_space_after, map_pool_after, unmap_outcome, unmap_space_after, unmap_pool_after};
use crate::task::{TaskStatus, snapshot, elapsed_ms};
use crate::wire::{encode_time_val, encode_task_info, time_val_bytes, task_info_bytes, TIME_VAL_BYTES, TASK_INFO_BYTES};

verus! {

/// The break may move to `brk + delta` exactly when it stays at or above the
/// heap bottom and within the range a syscall result can carry.
pub open spec fn sbrk_ok(brk: usize, heap_bottom: usize, delta: i32) -> bool {
    heap_bottom <= brk + delta <= isize::MAX
}

/// The wire image of a `TaskInfo` snapshot taken from `task` at clock
/// reading `now_us`.
pub open spec fn snapshot_bytes(task: crate::task::TaskControl, now_us: u64) -> Seq<u8> {
    task_info_bytes(
        crate::task::TaskInfo {
            status: task.status,
            syscall_times: task.syscall_times,
            time: elapsed_ms(task.start_time_us, now_us) as usize,
        },
    )
}

/// Terminate the calling task: record the submitted exit code and mark the
/// task exited. The trap handler must pass control to the scheduler, which
/// will not pick an exited task again.
pub fn sys_exit(k: &mut Kernel, exit_code: i32)
    requires
        old(k).wf(),
    ensures
        final(k).wf(),
        final(k).task.status == TaskStatus::Exited,
        final(k).task.exit_code == Some(exit_code),
        final(k).task.syscall_times == old(k).task.syscall_times,
        final(k).task.start_time_us == old(k).task.start_time_us,
        final(k).space == old(k).space,
        final(k).pool == old(k).pool,
        final(k).mem == old(k).mem,
        final(k).brk == old(k).brk,
        final(k).heap_bottom == old(k).heap_bottom,
{
    k.task.status = TaskStatus::Exited;
    k.task.exit_code = Some(exit_code);
}

/// The current task gives up the processor: it is marked ready again and the
/// scheduler picks the next runnable task. Returns 0 on resumption; never
/// fails.
pub fn sys_yield(k: &mut Kernel) -> (r: isize)
    requires
        old(k).wf(),
    ensures
        final(k).wf(),
        r == 0,
        final(k).task.status == TaskStatus::Ready,
        final(k).task.exit_code == old(k).task.exit_code,
        final(k).task.syscall_times == old(k).task.syscall_times,
        final(k).task.start_time_us == old(k).task.start_time_us,
        final(k).space == old(k).space,
        final(k).pool == old(k).pool,
        final(k).mem == old(k).mem,
        final(k).brk == old(k).brk,
        final(k).heap_bottom == old(k).heap_bottom,
{
    k.task.status = TaskStatus::Ready;
    0
}

/// Write the current time, split into seconds and microseconds, through the
/// user pointer `ts`. The buffer's pages are translated byte by byte; on any
/// translation failure nothing is written and `-1` is returned.
pub fn sys_get_time(k: &mut Kernel, ts: usize, tz: usize, now_us: u64) -> (r: isize)
    requires
        old(k).wf(),
    ensures
        final(k).wf(),
        r == 0 || r == -1,
        r == 0 <==> ts + TIME_VAL_BYTES <= usize::MAX && range_mapped(
            old(k).space@,
            ts,
            TIME_VAL_BYTES as nat,
        ),
        r == 0 ==> final(k).mem@ == write_seq(old(k).mem@, old(k).space@, ts, time_val_bytes(now_us)),
        r == -1 ==> final(k).mem@ == old(k).mem@,
        final(k).space == old(k).space,
        final(k).pool == old(k).pool,
        final(k).task == old(k).task,
        final(k).brk == old(k).brk,
        final(k).heap_bottom == old(k).heap_bottom,
        final(k).mem@.len() == old(k).mem@.len(),
{
    let _ = tz;
    if ts > usize::MAX - TIME_VAL_BYTES {
        return -1;
    }
    let bytes = encode_time_val(now_us);
    match k.write_user_bytes(ts, &bytes) {
        Ok(()) => 0,
        Err(_) => -1,
    }
}

/// Write a snapshot of the current task — status, syscall counters, elapsed
/// run time in whole milliseconds — through the user pointer `ti`. The
/// buffer's pages are translated byte by byte; on any translation failure
/// nothing is written and `-1` is returned.
pub fn sys_task_info(k: &mut Kernel, ti: usize, now_us: u64) -> (r: isize)
    requires
        old(k).wf(),
        now_us >= old(k).task.start_time_us,
        elapsed_ms(old(k).task.start_time_us, now_us) <= usize::MAX,
    ensures
        final(k).wf(),
        r == 0 || r == -1,
        r == 0 <==> ti + TASK_INFO_BYTES <= usize::MAX && range_mapped(
            old(k).space@,
            ti,
            TASK_INFO_BYTES as nat,
        ),
        r == 0 ==> final(k).mem@ == write_seq(
            old(k).mem@,
            old(k).space@,
            ti,
            snapshot_bytes(old(k).task, now_us),
        ),
        r == -1 ==> final(k).mem@ == old(k).mem@,
        final(k).space == old(k).space,
        final(k).pool == old(k).pool,
        final(k).task == old(k).task,
        final(k).brk == old(k).brk,
        final(k).heap_bottom == old(k).heap_bottom,
        final(k).mem@.len() == old(k).mem@.len(),
{
    if ti > usize::MAX - TASK_INFO_BYTES {
        return -1;
    }
    let info = snapshot(&k.task, now_us);
    let bytes = encode_task_info(&info);
    match k.write_user_bytes(ti, &bytes) {
        Ok(()) => 0,
        Err(_) => -1,
    }
}

/// Create a user memory mapping: delegate to the region mapper and collapse
/// its structured rejection to the `-1` sentinel. A zero-length request
/// returns 0 and creates no mapping.
pub fn sys_mmap(k: &mut Kernel, start: usize, len: usize, port: usize) -> (r: isize)
    requires
        old(k).wf(),
    ensures
        final(k).wf(),
        r == 0 || r == -1,
        r == 0 <==> map_outcome(old(k).space@, old(k).pool@, start, len, port) is Ok,
        final(k).space@ == map_space_after(old(k).space@, old(k).pool@, start, len, port),
        final(k).pool@ == map_pool_after(old(k).space@, old(k).pool@, start, len, port),
        len == 0 ==> r == 0 && final(k).space == old(k).space && final(k).pool == old(k).pool,
        final(k).mem == old(k).mem,
        final(k).task == old(k).task,
        final(k).brk == old(k).brk,
        final(k).heap_bottom == old(k).heap_bottom,
{
    match k.map_region(start, len, port) {
        Ok(()) => 0,
        Err(_) => -1,
    }
}

/// Destroy a user memory mapping: delegate to the region mapper and collapse
/// its structured rejection to the `-1` sentinel. A zero-length request
/// returns 0 and releases nothing.
pub fn sys_munmap(k: &mut Kernel, start: usize, len: usize) -> (r: isize)
    requires
        old(k).wf(),
    ensures
        final(k).wf(),
        r == 0 || r == -1,
        r == 0 <==> unmap_outcome(old(k).space@, start, len) is Ok,
        final(k).space@ == unmap_space_after(old(k).space@, start, len),
        final(k).pool@ == unmap_pool_after(old(k).space@, old(k).pool@, start, len),
        len == 0 ==> r == 0 && final(k).space == old(k).space && final(k).pool == old(k).pool,
        final(k).mem == old(k).mem,
        final(k).task == old(k).task,
        final(k).brk == old(k).brk,
        final(k).heap_bottom == old(k).heap_bottom,
{
    match k.unmap_region(start, len) {
        Ok(()) => 0,
        Err(_) => -1,
    }
}

/// Adjust the task's program break by `size` bytes. Returns the old break on
/// success; returns `-1` and leaves the break unchanged when the adjustment
/// would drop below the heap bottom or overflow the result range.
pub fn sys_sbrk(k: &mut Kernel, size: i32) -> (r: isize)
    requires
        old(k).wf(),
    ensures
        final(k).wf(),
        sbrk_ok(old(k).brk, old(k).heap_bottom, size) ==> {
            &&& r == old(k).brk
            &&& final(k).brk == old(k).brk + size
        },
        !sbrk_ok(old(k).brk, old(k).heap_bottom, size) ==> {
            &&& r == -1
            &&& final(k).brk == old(k).brk
        },
        final(k).space == old(k).space,
        final(k).pool == old(k).pool,
        final(k).mem == old(k).mem,
        final(k).task == old(k).task,
        final(k).heap_bottom == old(k).heap_bottom,
{
    let old_brk = k.brk;
    if size >= 0 {
        let grow = size as usize;
        let limit = isize::MAX as usize;
        if grow > limit - k.brk {
            return -1;
        }
        k.brk = k.brk + grow;
    } else {
        let shrink = (-(size as i64)) as usize;
        if shrink > k.brk - k.heap_bottom {
            return -1;
        }
        k.brk = k.brk - shrink;
    }
    old_brk as isize
}

} // verus!
