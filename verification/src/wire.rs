//! Wire layout of the values written back into user buffers: little-endian
//! unsigned machine words, modelled as 64-bit. `TimeVal` is two words
//! (seconds, microseconds); `TaskInfo` is a status tag word, the fixed
//! counter array, and a time-in-milliseconds word, in that order.

use vstd::prelude::*;
use crate::task::{TaskStatus, TaskInfo, MAX_SYSCALL_NUM, time_sec, time_usec};

verus! {

/// Little-endian bytes of one unsigned machine word.
pub open spec fn word_bytes(v: u64) -> Seq<u8> {
    seq![
        (v % 256) as u8,
        ((v / 256) % 256) as u8,
        ((v / 65536) % 256) as u8,
        ((v / 16777216) % 256) as u8,
        ((v / 4294967296) % 256) as u8,
        ((v / 1099511627776) % 256) as u8,
        ((v / 281474976710656) % 256) as u8,
        ((v / 72057594037927936) % 256) as u8,
    ]
}

/// Little-endian bytes of one 32-bit counter.
pub open spec fn u32_bytes(v: u32) -> Seq<u8> {
    seq![
        (v % 256) as u8,
        ((v / 256) % 256) as u8,
        ((v / 65536) % 256) as u8,
        ((v / 16777216) % 256) as u8,
    ]
}

/// Flat little-endian bytes of a counter table.
pub open spec fn counters_bytes(counts: Seq<u32>) -> Seq<u8> {
    Seq::new(4 * counts.len(), |i: int| u32_bytes(counts[i / 4])[i % 4])
}

/// Numeric tag of a task status on the wire.
pub open spec fn status_code(s: TaskStatus) -> u64 {
    match s {
        TaskStatus::UnInit => 0,
        TaskStatus::Ready => 1,
        TaskStatus::Running => 2,
        TaskStatus::Exited => 3,
    }
}

/// Wire bytes of a `TimeVal` carrying the split of the clock reading `us`:
/// the seconds word, then the microseconds word.
pub open spec fn time_val_bytes(us: u64) -> Seq<u8> {
    word_bytes(time_sec(us)) + word_bytes(time_usec(us))
}

/// Wire bytes of a `TaskInfo`: status tag, counter array, elapsed
/// milliseconds.
pub open spec fn task_info_bytes(info: TaskInfo) -> Seq<u8> {
    word_bytes(status_code(info.status)) + counters_bytes(info.syscall_times@) + word_bytes(
        info.time as u64,
    )
}

/// Size in bytes of a `TimeVal` on the wire.
pub const TIME_VAL_BYTES: usize = 16;

/// Size in bytes of a `TaskInfo` on the wire.
pub const TASK_INFO_BYTES: usize = 2016;

/// Append the little-endian bytes of one machine word.
pub fn encode_u64(v: u64, out: &mut Vec<u8>)
    ensures
        final(out)@ == old(out)@ + word_bytes(v),
{
    out.push((v % 256) as u8);
    out.push(((v / 256) % 256) as u8);
    out.push(((v / 65536) % 256) as u8);
    out.push(((v / 16777216) % 256) as u8);
    out.push(((v / 4294967296) % 256) as u8);
    out.push(((v / 1099511627776) % 256) as u8);
    out.push(((v / 281474976710656) % 256) as u8);
    out.push(((v / 72057594037927936) % 256) as u8);
    proof {
        assert(out@ =~= old(out)@ + word_bytes(v));
    }
}

/// Append the little-endian bytes of one 32-bit counter.
pub fn encode_u32(v: u32, out: &mut Vec<u8>)
    ensures
        final(out)@ == old(out)@ + u32_bytes(v),
{
    out.push((v % 256) as u8);
    out.push(((v / 256) % 256) as u8);
    out.push(((v / 65536) % 256) as u8);
    out.push(((v / 16777216) % 256) as u8);
    proof {
        assert(out@ =~= old(out)@ + u32_bytes(v));
    }
}

/// Encode the split of the clock reading `us` as a `TimeVal` on the wire.
pub fn encode_time_val(us: u64) -> (out: Vec<u8>)
    ensures
        out@ == time_val_bytes(us),
        out@.len() == TIME_VAL_BYTES,
{
    let mut out: Vec<u8> = Vec::new();
    encode_u64(us / 1_000_000, &mut out);
    encode_u64(us % 1_000_000, &mut out);
    proof {
        assert(out@ =~= time_val_bytes(us));
    }
    out
}

/// Encode a `TaskInfo` on the wire.
pub fn encode_task_info(info: &TaskInfo) -> (out: Vec<u8>)
    ensures
        out@ == task_info_bytes(*info),
        out@.len() == TASK_INFO_BYTES,
{
    let mut out: Vec<u8> = Vec::new();
    encode_u64(status_word(info.status), &mut out);
    let mut i: usize = 0;
    while i < MAX_SYSCALL_NUM
        invariant
            i <= MAX_SYSCALL_NUM,
            out@ == word_bytes(status_code(info.status)) + counters_bytes(
                info.syscall_times@.take(i as int),
            ),
        decreases MAX_SYSCALL_NUM - i,
    {
        encode_u32(info.syscall_times[i], &mut out);
        proof {
            lemma_counters_bytes_step(info.syscall_times@, i as int);
        }
        i = i + 1;
    }
    proof {
        assert(info.syscall_times@.take(MAX_SYSCALL_NUM as int) =~= info.syscall_times@);
    }
    encode_u64(info.time as u64, &mut out);
    proof {
        assert(out@ =~= task_info_bytes(*info));
    }
    out
}

/// Executable status tag, equal to `status_code`.
pub fn status_word(s: TaskStatus) -> (r: u64)
    ensures
        r == status_code(s),
{
    match s {
        TaskStatus::UnInit => 0,
        TaskStatus::Ready => 1,
        TaskStatus::Running => 2,
        TaskStatus::Exited => 3,
    }
}

/// Appending one counter to an encoded prefix of the table extends the flat
/// encoding by that counter's four bytes.
proof fn lemma_counters_bytes_step(counts: Seq<u32>, i: int)
    requires
        0 <= i < counts.len(),
    ensures
        counters_bytes(counts.take(i + 1)) == counters_bytes(counts.take(i)) + u32_bytes(
            counts[i],
        ),
{
    let lhs = counters_bytes(counts.take(i + 1));
    let rhs = counters_bytes(counts.take(i)) + u32_bytes(counts[i]);
    assert forall|l: int| 0 <= l < lhs.len() implies lhs[l] == rhs[l] by {
        if l < 4 * i {
            assert(counts.take(i + 1)[l / 4] == counts.take(i)[l / 4]);
        } else {
            assert(l / 4 == i && l % 4 == l - 4 * i);
            assert(counts.take(i + 1)[i] == counts[i]);
        }
    }
    assert(lhs =~= rhs);
}

} // verus!
