use kernel_boundary::kernel::Kernel;
use kernel_boundary::task::{TaskStatus, TaskControl, snapshot, make_time_val};
use kernel_boundary::facade::{
    sys_exit, sys_yield, sys_get_time, sys_task_info, sys_mmap, sys_sbrk,
};
use kernel_boundary::wire::{encode_time_val, encode_u64};

const PAGE: usize = 4096;
const HEAP_BOTTOM: usize = 0x1_0000;

fn fresh(frames: usize, start_time_us: u64) -> Kernel {
    Kernel::new(frames, HEAP_BOTTOM, start_time_us)
}

fn le_word(v: u64) -> [u8; 8] {
    let mut out = [0u8; 8];
    let mut x = v;
    for b in out.iter_mut() {
        *b = (x % 256) as u8;
        x /= 256;
    }
    out
}

fn read_word(k: &Kernel, vaddr: usize) -> u64 {
    let mut v: u64 = 0;
    for i in (0..8).rev() {
        let pa = k.translate(vaddr + i).unwrap();
        v = v * 256 + k.mem[pa] as u64;
    }
    v
}

#[test]
fn exit_marks_task_exited() {
    let mut k = fresh(2, 0);
    sys_exit(&mut k, 9);
    assert_eq!(k.task.status, TaskStatus::Exited);
    assert_eq!(k.task.exit_code, Some(9));
}

#[test]
fn yield_returns_zero_and_marks_ready() {
    let mut k = fresh(2, 0);
    k.task.status = TaskStatus::Running;
    let r = sys_yield(&mut k);
    assert_eq!(r, 0);
    assert_eq!(k.task.status, TaskStatus::Ready);
}

#[test]
fn get_time_writes_split_clock_reading() {
    let mut k = fresh(4, 0);
    assert_eq!(sys_mmap(&mut k, 0, PAGE, 0b011), 0);
    let now: u64 = 3_500_017;
    assert_eq!(sys_get_time(&mut k, 0, 0, now), 0);
    assert_eq!(read_word(&k, 0), 3);
    assert_eq!(read_word(&k, 8), 500_017);
}

#[test]
fn get_time_fails_on_unmapped_buffer() {
    let mut k = fresh(4, 0);
    let mem_before = k.mem.clone();
    assert_eq!(sys_get_time(&mut k, 0, 0, 42), -1);
    assert_eq!(k.mem, mem_before);
}

#[test]
fn get_time_twice_yields_nondecreasing_pairs() {
    let mut k = fresh(4, 0);
    assert_eq!(sys_mmap(&mut k, 0, PAGE, 0b011), 0);
    let readings: [(u64, u64); 3] = [(999_999, 1_000_000), (1_000_000, 1_000_000), (5, 123_456_789)];
    for (t1, t2) in readings {
        assert_eq!(sys_get_time(&mut k, 0, 0, t1), 0);
        let sec1 = read_word(&k, 0);
        let usec1 = read_word(&k, 8);
        assert_eq!(sys_get_time(&mut k, 0, 0, t2), 0);
        let sec2 = read_word(&k, 0);
        let usec2 = read_word(&k, 8);
        assert!(usec1 < 1_000_000 && usec2 < 1_000_000);
        assert!((sec1, usec1) <= (sec2, usec2));
    }
}

#[test]
fn get_time_straddles_page_boundary() {
    // A TimeVal buffer beginning eight bytes before a page boundary lands
    // half on each physical fragment.
    let mut k = fresh(8, 0);
    assert_eq!(sys_mmap(&mut k, 0, 2 * PAGE, 0b011), 0);
    let ts = PAGE - 8;
    let now: u64 = 7_000_042;
    assert_eq!(sys_get_time(&mut k, ts, 0, now), 0);
    assert_eq!(read_word(&k, ts), 7);
    assert_eq!(read_word(&k, ts + 8), 42);
    // The two physical fragments really are separate: byte by byte, the
    // seconds word sits at the end of frame 7, the microseconds word at the
    // start of frame 6.
    let sec = le_word(7);
    let usec = le_word(42);
    for i in 0..8 {
        assert_eq!(k.mem[7 * PAGE + (PAGE - 8) + i], sec[i]);
        assert_eq!(k.mem[6 * PAGE + i], usec[i]);
    }
}

#[test]
fn task_info_writes_status_counters_and_elapsed_time() {
    let start: u64 = 2_000_000;
    let mut k = fresh(4, start);
    assert_eq!(sys_mmap(&mut k, 0, PAGE, 0b011), 0);
    k.task.record_syscall(64);
    k.task.record_syscall(64);
    k.task.record_syscall(169);
    k.task.status = TaskStatus::Running;
    let now: u64 = 2_750_999;
    assert_eq!(sys_task_info(&mut k, 0, now), 0);
    // Status tag word: Running is 2.
    assert_eq!(read_word(&k, 0), 2);
    // Counter table entries: four bytes per syscall id, after the tag word.
    let c64 = k.translate(8 + 64 * 4).unwrap();
    assert_eq!(k.mem[c64], 2);
    let c169 = k.translate(8 + 169 * 4).unwrap();
    assert_eq!(k.mem[c169], 1);
    let c0 = k.translate(8 + 0 * 4).unwrap();
    assert_eq!(k.mem[c0], 0);
    // Elapsed whole milliseconds, after the counter table.
    assert_eq!(read_word(&k, 8 + 500 * 4), 750);
}

#[test]
fn task_info_fails_on_unmapped_buffer() {
    let mut k = fresh(4, 0);
    let mem_before = k.mem.clone();
    assert_eq!(sys_task_info(&mut k, 0, 5_000), -1);
    assert_eq!(k.mem, mem_before);
}

#[test]
fn snapshot_reads_without_mutation() {
    let mut t = TaskControl::new(1_000);
    t.record_syscall(3);
    let info = snapshot(&t, 2_001_000);
    assert_eq!(info.status, TaskStatus::Ready);
    assert_eq!(info.syscall_times[3], 1);
    assert_eq!(info.time, 2_000);
    assert_eq!(t.status, TaskStatus::Ready);
    assert_eq!(t.syscall_times[3], 1);
}

#[test]
fn record_syscall_counts_monotonically() {
    let mut t = TaskControl::new(0);
    assert_eq!(t.syscall_times[124], 0);
    t.record_syscall(124);
    assert_eq!(t.syscall_times[124], 1);
    t.record_syscall(124);
    assert_eq!(t.syscall_times[124], 2);
    assert_eq!(t.syscall_times[123], 0);
}

#[test]
fn make_time_val_splits_microseconds() {
    let tv = make_time_val(1_234_567);
    assert_eq!(tv.sec, 1);
    assert_eq!(tv.usec, 234_567);
    let tv = make_time_val(999_999);
    assert_eq!(tv.sec, 0);
    assert_eq!(tv.usec, 999_999);
}

#[test]
fn encoders_produce_little_endian_words() {
    let bytes = encode_time_val(1_234_567);
    assert_eq!(bytes.len(), 16);
    assert_eq!(&bytes[0..8], &le_word(1)[..]);
    assert_eq!(&bytes[8..16], &le_word(234_567)[..]);

    let mut out = Vec::new();
    encode_u64(0x0102_0304_0506_0708, &mut out);
    assert_eq!(out, vec![8, 7, 6, 5, 4, 3, 2, 1]);
}

#[test]
fn sbrk_returns_old_break_and_moves_it() {
    let mut k = fresh(2, 0);
    assert_eq!(k.brk, HEAP_BOTTOM);
    let r = sys_sbrk(&mut k, 4096);
    assert_eq!(r, HEAP_BOTTOM as isize);
    assert_eq!(k.brk, HEAP_BOTTOM + 4096);
    let r = sys_sbrk(&mut k, -4096);
    assert_eq!(r, (HEAP_BOTTOM + 4096) as isize);
    assert_eq!(k.brk, HEAP_BOTTOM);
}

#[test]
fn sbrk_refuses_to_drop_below_heap_bottom() {
    let mut k = fresh(2, 0);
    assert_eq!(sys_sbrk(&mut k, -1), -1);
    assert_eq!(k.brk, HEAP_BOTTOM);
    assert_eq!(sys_sbrk(&mut k, 8), HEAP_BOTTOM as isize);
    assert_eq!(sys_sbrk(&mut k, -9), -1);
    assert_eq!(k.brk, HEAP_BOTTOM + 8);
}

#[test]
fn fresh_kernel_counters_start_at_zero() {
    let k = fresh(2, 77);
    for id in 0..500 {
        assert_eq!(k.task.syscall_times[id], 0);
    }
    assert_eq!(k.task.start_time_us, 77);
    assert_eq!(k.task.status, TaskStatus::Ready);
    assert_eq!(k.task.exit_code, None);
}
