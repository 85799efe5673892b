//! The kernel-side state this core operates on: one task's address space,
//! the free physical-frame pool, byte-addressed physical memory, the task
//! control block, and the task's program break.

use vstd::prelude::*;
use crate::page::{PAGE_SIZE, vpn_of, page_offset};
use crate::space::{AddressSpace, FrameEntry, space_injective, valid_perm, translate_spec};
use crate::task::TaskControl;

verus! {

/// Translation of a user virtual address failed: the containing page is not
/// mapped in the task's address space. Callers must not dereference on
/// failure.
#[derive(Clone, Copy, PartialEq, Eq, Structural, Debug)]
pub enum TranslateError {
    /// The page containing the address is unmapped.
    NotMapped,
}

/// The state the boundary layer reads and transitions. In a running kernel
/// the pieces live in the scheduler, the frame allocator and the page-table
/// subsystem; here they are passed explicitly as one context value so every
/// operation is a function of its inputs.
pub struct Kernel {
    /// The current task's virtual address space.
    pub space: AddressSpace,
    /// Free physical frames, owned and serialized by the allocator.
    pub pool: Vec<usize>,
    /// Physical memory, byte-addressed; frame `p` occupies bytes
    /// `[p * PAGE_SIZE, (p + 1) * PAGE_SIZE)`.
    pub mem: Vec<u8>,
    /// The current task's control block.
    pub task: TaskControl,
    /// The task's program break.
    pub brk: usize,
    /// Lower bound of the task's growable data segment; the break never
    /// moves below it.
    pub heap_bottom: usize,
}

impl Kernel {
    /// The frame numbered `ppn` lies entirely inside physical memory.
    pub open spec fn frame_in_mem(self, ppn: usize) -> bool {
        (ppn + 1) * PAGE_SIZE <= self.mem@.len()
    }

    /// Well-formedness of the kernel state:
    /// - every mapped page is backed by a frame inside physical memory and
    ///   carries a valid permission word;
    /// - no two mapped pages share a frame;
    /// - every pooled frame lies inside physical memory, the pool holds no
    ///   duplicates, and no pooled frame also backs a mapped page;
    /// - the program break sits between the heap bottom and the largest
    ///   value the syscall convention can return.
    pub open spec fn wf(self) -> bool {
        &&& forall|v: usize| #[trigger]
            self.space@.dom().contains(v) ==> self.frame_in_mem(self.space@[v].ppn) && valid_perm(
                self.space@[v].perm,
            )
        &&& space_injective(self.space@)
        &&& forall|i: int|
            0 <= i < self.pool@.len() ==> self.frame_in_mem(#[trigger] self.pool@[i])
        &&& forall|i: int, j: int|
            0 <= i < j < self.pool@.len() ==> self.pool@[i] != self.pool@[j]
        &&& forall|i: int, v: usize|
            0 <= i < self.pool@.len() && self.space@.dom().contains(v) ==> #[trigger] self.pool@[i]
                != (#[trigger] self.space@[v]).ppn
        &&& self.heap_bottom <= self.brk <= isize::MAX
    }

    /// A fresh kernel state for one task: `frames` free physical frames,
    /// zeroed physical memory, an empty address space, and the break at the
    /// heap bottom.
    pub fn new(frames: usize, heap_bottom: usize, start_time_us: u64) -> (k: Kernel)
        requires
            frames * PAGE_SIZE <= usize::MAX,
            heap_bottom <= isize::MAX,
        ensures
            k.wf(),
            k.space@ == Map::<usize, FrameEntry>::empty(),
            k.pool@.len() == frames,
            forall|i: int| 0 <= i < frames ==> k.pool@[i] == i,
            k.mem@.len() == frames * PAGE_SIZE,
            forall|p: int| 0 <= p < k.mem@.len() ==> k.mem@[p] == 0u8,
            k.task.status == crate::task::TaskStatus::Ready,
            forall|i: int|
                0 <= i < crate::task::MAX_SYSCALL_NUM ==> k.task.syscall_times@[i] == 0u32,
            k.task.start_time_us == start_time_us,
            k.task.exit_code is None,
            k.brk == heap_bottom,
            k.heap_bottom == heap_bottom,
    {
        let total: usize = frames * PAGE_SIZE;
        let mut mem: Vec<u8> = Vec::new();
        let mut p: usize = 0;
        while p < total
            invariant
                p <= total,
                mem@.len() == p,
                forall|q: int| 0 <= q < p ==> mem@[q] == 0u8,
            decreases total - p,
        {
            mem.push(0u8);
            p = p + 1;
        }
        let mut pool: Vec<usize> = Vec::new();
        let mut f: usize = 0;
        while f < frames
            invariant
                f <= frames,
                pool@.len() == f,
                forall|i: int| 0 <= i < f ==> pool@[i] == i,
            decreases frames - f,
        {
            pool.push(f);
            f = f + 1;
        }
        Kernel {
            space: AddressSpace::new(),
            pool,
            mem,
            task: TaskControl::new(start_time_us),
            brk: heap_bottom,
            heap_bottom,
        }
    }

    /// Walk the page table for the page containing `vaddr` and compute the
    /// backing physical address as frame base plus in-page offset. Purely a
    /// lookup; fails rather than returning a garbage address when the page
    /// is unmapped.
    pub fn translate(&self, vaddr: usize) -> (r: Option<usize>)
        requires
            self.wf(),
        ensures
            r is Some <==> self.space@.dom().contains(vpn_of(vaddr)),
            r matches Some(p) ==> {
                &&& translate_spec(self.space@, vaddr) == Some(p as int)
                &&& p < self.mem@.len()
                &&& p == self.space@[vpn_of(vaddr)].ppn * PAGE_SIZE + page_offset(vaddr)
            },
    {
        let vpn = vaddr / PAGE_SIZE;
        match self.space.lookup(vpn) {
            Some(entry) => {
                let mlen = self.mem.len();
                proof {
                    assert(self.space@.dom().contains(vpn));
                    assert(self.frame_in_mem(self.space@[vpn].ppn));
                    assert(entry.ppn * PAGE_SIZE + PAGE_SIZE <= mlen);
                }
                Some(entry.ppn * PAGE_SIZE + vaddr % PAGE_SIZE)
            },
            None => None,
        }
    }
}

/// Every byte of `[vaddr, vaddr + len)` lies on a mapped page.
pub open spec fn range_mapped(m: Map<usize, FrameEntry>, vaddr: usize, len: nat) -> bool {
    forall|i: int| 0 <= i < len ==> m.dom().contains(#[trigger] vpn_of((vaddr + i) as usize))
}

/// Physical memory after writing `data` byte by byte through the address
/// space `m` starting at virtual address `vaddr`: byte `i` of `data` lands
/// at the translation of `vaddr + i`. Bytes whose page is unmapped are
/// skipped; the function is only applied to fully mapped ranges.
pub open spec fn write_seq(
    mem: Seq<u8>,
    m: Map<usize, FrameEntry>,
    vaddr: usize,
    data: Seq<u8>,
) -> Seq<u8>
    decreases data.len(),
{
    if data.len() == 0 {
        mem
    } else {
        let prev = write_seq(mem, m, vaddr, data.drop_last());
        match translate_spec(m, (vaddr + data.len() - 1) as usize) {
            Some(p) => prev.update(p, data.last()),
            None => prev,
        }
    }
}

impl Kernel {
    /// Write `data` into the task's memory at virtual address `vaddr`,
    /// resolving each contained byte's page independently: a buffer that
    /// straddles a page boundary is split across the physical fragments,
    /// never treated as one contiguous physical block. All-or-nothing: if
    /// any covered page is unmapped, nothing is written.
    pub fn write_user_bytes(&mut self, vaddr: usize, data: &Vec<u8>) -> (r: Result<
        (),
        TranslateError,
    >)
        requires
            old(self).wf(),
            vaddr + data@.len() <= usize::MAX,
        ensures
            final(self).wf(),
            final(self).space == old(self).space,
            final(self).pool == old(self).pool,
            final(self).task == old(self).task,
            final(self).brk == old(self).brk,
            final(self).heap_bottom == old(self).heap_bottom,
            final(self).mem@.len() == old(self).mem@.len(),
            r is Ok <==> range_mapped(old(self).space@, vaddr, data@.len()),
            r is Ok ==> final(self).mem@ == write_seq(old(self).mem@, old(self).space@, vaddr, data@),
            r is Err ==> final(self).mem@ == old(self).mem@,
    {
        let n = data.len();
        let mut i: usize = 0;
        while i < n
            invariant
                self == old(self),
                n == data@.len(),
                vaddr + n <= usize::MAX,
                i <= n,
                old(self).wf(),
                forall|j: int|
                    0 <= j < i ==> self.space@.dom().contains(
                        #[trigger] vpn_of((vaddr + j) as usize),
                    ),
            decreases n - i,
        {
            if !self.space.is_mapped((vaddr + i) / PAGE_SIZE) {
                proof {
                    assert(!self.space@.dom().contains(vpn_of((vaddr + i) as usize)));
                }
                return Err(TranslateError::NotMapped);
            }
            i = i + 1;
        }
        let ghost mem0 = self.mem@;
        let mut i: usize = 0;
        while i < n
            invariant
                self.space == old(self).space,
                self.pool == old(self).pool,
                self.task == old(self).task,
                self.brk == old(self).brk,
                self.heap_bottom == old(self).heap_bottom,
                self.mem@.len() == mem0.len(),
                n == data@.len(),
                vaddr + n <= usize::MAX,
                i <= n,
                self.wf(),
                range_mapped(self.space@, vaddr, n as nat),
                self.mem@ == write_seq(mem0, self.space@, vaddr, data@.take(i as int)),
            decreases n - i,
        {
            assert(self.space@.dom().contains(vpn_of((vaddr + i) as usize)));
            let pa = match self.translate(vaddr + i) {
                Some(pa) => pa,
                None => vstd::pervasive::unreached(),
            };
            self.mem[pa] = data[i];
            proof {
                let taken = data@.take(i + 1);
                assert(taken.drop_last() =~= data@.take(i as int));
                assert(taken.last() == data@[i as int]);
                assert(self.mem@ == write_seq(mem0, self.space@, vaddr, taken));
            }
            i = i + 1;
        }
        proof {
            assert(data@.take(n as int) =~= data@);
        }
        Ok(())
    }
}

} // verus!
