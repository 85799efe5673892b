//! The region mapper: validated creation and destruction of user memory
//! mappings. Requests are checked against the task's address space and
//! either applied whole or rejected without side effect.

use vstd::prelude::*;
use crate::page::{PAGE_SIZE, page_aligned, vpn_of, pages_for, page_count};
use crate::space::{FrameEntry, valid_perm};
use crate::kernel::Kernel;

verus! {

broadcast use vstd::std_specs::hash::group_hash_axioms;

/// Why a mapping request was rejected. Collapsed to a single sentinel at the
/// syscall facade; kept structured here so the cause stays testable.
#[derive(Clone, Copy, PartialEq, Eq, Structural, Debug)]
pub enum MapError {
    /// The permission word uses bits outside read/write/execute, or requests
    /// no permission at all.
    PermissionEncoding,
    /// The start address is not page-aligned.
    Alignment,
    /// The requested range overlaps an existing mapping.
    Overlap,
    /// The free-frame pool cannot back the requested number of pages.
    AllocationExhausted,
}

/// Why an unmapping request was rejected.
#[derive(Clone, Copy, PartialEq, Eq, Structural, Debug)]
pub enum UnmapError {
    /// The start address is not page-aligned.
    Alignment,
    /// Some page in the covered range is not currently mapped.
    NotMapped,
}

/// The virtual page numbers `[svpn, svpn + n)`.
pub open spec fn page_range(svpn: usize, n: nat) -> Set<usize> {
    Set::new(|v: usize| svpn <= v < svpn + n)
}

/// Some page of `[svpn, svpn + n)` is already mapped.
pub open spec fn range_overlaps(m: Map<usize, FrameEntry>, svpn: usize, n: nat) -> bool {
    exists|v: usize| svpn <= v < svpn + n && m.dom().contains(v)
}

/// Every page of `[svpn, svpn + n)` is mapped.
pub open spec fn pages_all_mapped(m: Map<usize, FrameEntry>, svpn: usize, n: nat) -> bool {
    forall|v: usize| svpn <= v < svpn + n ==> m.dom().contains(v)
}

/// Outcome of a mapping request, in validation order: zero length is a
/// no-op success; then the permission word, the alignment of `start`, the
/// supply of free frames, and the absence of overlap are checked in turn.
/// Frame supply comes before the page-by-page overlap scan so that a
/// request too large to ever back is refused without walking its pages.
pub open spec fn map_outcome(
    m: Map<usize, FrameEntry>,
    pool: Seq<usize>,
    start: usize,
    len: usize,
    perm: usize,
) -> Result<(), MapError> {
    if len == 0 {
        Ok(())
    } else if !valid_perm(perm) {
        Err(MapError::PermissionEncoding)
    } else if !page_aligned(start) {
        Err(MapError::Alignment)
    } else if pool.len() < pages_for(len) {
        Err(MapError::AllocationExhausted)
    } else if range_overlaps(m, vpn_of(start), pages_for(len)) {
        Err(MapError::Overlap)
    } else {
        Ok(())
    }
}

/// The address space after the first `n` pages from `svpn` have been mapped,
/// page `svpn + j` backed by the frame popped `j`-th from the tail of
/// `pool`, all with permissions `perm`.
pub open spec fn filled_space(
    m: Map<usize, FrameEntry>,
    pool: Seq<usize>,
    svpn: usize,
    n: nat,
    perm: usize,
) -> Map<usize, FrameEntry> {
    Map::new(
        |v: usize| m.dom().contains(v) || (svpn <= v < svpn + n),
        |v: usize|
            if svpn <= v < svpn + n {
                FrameEntry { ppn: pool[pool.len() - 1 - (v - svpn)], perm }
            } else {
                m[v]
            },
    )
}

/// The address space after a mapping request: extended by one entry per
/// covered page on success, unchanged on rejection or zero length.
pub open spec fn map_space_after(
    m: Map<usize, FrameEntry>,
    pool: Seq<usize>,
    start: usize,
    len: usize,
    perm: usize,
) -> Map<usize, FrameEntry> {
    if map_outcome(m, pool, start, len, perm) is Ok && len != 0 {
        filled_space(m, pool, vpn_of(start), pages_for(len), perm)
    } else {
        m
    }
}

/// The free-frame pool after a mapping request: one frame consumed from the
/// tail per covered page on success, unchanged otherwise.
pub open spec fn map_pool_after(
    m: Map<usize, FrameEntry>,
    pool: Seq<usize>,
    start: usize,
    len: usize,
    perm: usize,
) -> Seq<usize> {
    if map_outcome(m, pool, start, len, perm) is Ok && len != 0 {
        pool.take(pool.len() - pages_for(len))
    } else {
        pool
    }
}

/// Outcome of an unmapping request: zero length is a no-op success; then
/// the alignment of `start` is checked, and the whole covered range must be
/// mapped — releasing a range containing any unmapped page fails entirely.
pub open spec fn unmap_outcome(m: Map<usize, FrameEntry>, start: usize, len: usize) -> Result<
    (),
    UnmapError,
> {
    if len == 0 {
        Ok(())
    } else if !page_aligned(start) {
        Err(UnmapError::Alignment)
    } else if !pages_all_mapped(m, vpn_of(start), pages_for(len)) {
        Err(UnmapError::NotMapped)
    } else {
        Ok(())
    }
}

/// The address space after an unmapping request: the covered pages removed
/// on success, unchanged on rejection or zero length.
pub open spec fn unmap_space_after(m: Map<usize, FrameEntry>, start: usize, len: usize) -> Map<
    usize,
    FrameEntry,
> {
    if unmap_outcome(m, start, len) is Ok && len != 0 {
        m.remove_keys(page_range(vpn_of(start), pages_for(len)))
    } else {
        m
    }
}

/// The frames released by a successful unmapping, in the order they return
/// to the pool: the covered pages are released from the highest page number
/// down.
pub open spec fn released_frames(m: Map<usize, FrameEntry>, svpn: usize, n: nat) -> Seq<usize> {
    Seq::new(n, |i: int| m[(svpn + n - 1 - i) as usize].ppn)
}

/// The free-frame pool after an unmapping request: the released frames
/// appended on success, unchanged otherwise.
pub open spec fn unmap_pool_after(
    m: Map<usize, FrameEntry>,
    pool: Seq<usize>,
    start: usize,
    len: usize,
) -> Seq<usize> {
    if unmap_outcome(m, start, len) is Ok && len != 0 {
        pool + released_frames(m, vpn_of(start), pages_for(len))
    } else {
        pool
    }
}

impl Kernel {
    /// Validate and apply a mapping request: reserve one newly allocated
    /// physical frame per covered page, with the requested permissions, for
    /// the pages of `[start, start + len)` rounded up to page granularity.
    /// Rejected whole — address space and pool untouched — when the
    /// permission word is invalid, `start` is unaligned, the range overlaps
    /// an existing mapping, or the frame pool is too small. Zero length is a
    /// no-op success.
    pub fn map_region(&mut self, start: usize, len: usize, perm: usize) -> (r: Result<
        (),
        MapError,
    >)
        requires
            old(self).wf(),
        ensures
            final(self).wf(),
            final(self).mem == old(self).mem,
            final(self).task == old(self).task,
            final(self).brk == old(self).brk,
            final(self).heap_bottom == old(self).heap_bottom,
            r == map_outcome(old(self).space@, old(self).pool@, start, len, perm),
            final(self).space@ == map_space_after(
                old(self).space@,
                old(self).pool@,
                start,
                len,
                perm,
            ),
            final(self).pool@ == map_pool_after(old(self).space@, old(self).pool@, start, len, perm),
            r is Err ==> final(self).space == old(self).space && final(self).pool == old(self).pool,
            len == 0 ==> final(self).space == old(self).space && final(self).pool == old(
                self,
            ).pool,
    {
        if len == 0 {
            return Ok(());
        }
        if perm < 1 || perm > 7 {
            return Err(MapError::PermissionEncoding);
        }
        if start % PAGE_SIZE != 0 {
            return Err(MapError::Alignment);
        }
        let svpn = start / PAGE_SIZE;
        let pages = page_count(len);
        proof {
            assert(pages >= 1);
            assert(svpn + pages <= usize::MAX) by {
                assert(svpn <= (usize::MAX as int) / (PAGE_SIZE as int));
                assert(pages <= (usize::MAX as int) / (PAGE_SIZE as int) + 1);
            }
        }
        if self.pool.len() < pages {
            return Err(MapError::AllocationExhausted);
        }
        let mut j: usize = 0;
        while j < pages
            invariant
                self == old(self),
                old(self).wf(),
                len != 0,
                valid_perm(perm),
                page_aligned(start),
                svpn == vpn_of(start),
                pages == pages_for(len),
                pages <= self.pool@.len(),
                svpn + pages <= usize::MAX,
                j <= pages,
                forall|v: usize| svpn <= v < svpn + j ==> !self.space@.dom().contains(v),
            decreases pages - j,
        {
            if self.space.is_mapped(svpn + j) {
                proof {
                    assert(range_overlaps(self.space@, svpn, pages as nat)) by {
                        assert(self.space@.dom().contains((svpn + j) as usize));
                    }
                }
                return Err(MapError::Overlap);
            }
            j = j + 1;
        }
        proof {
            assert(!range_overlaps(self.space@, svpn, pages as nat));
        }
        let ghost m0 = self.space@;
        let ghost pool0 = self.pool@;
        let mut j: usize = 0;
        while j < pages
            invariant
                self.mem == old(self).mem,
                self.task == old(self).task,
                self.brk == old(self).brk,
                self.heap_bottom == old(self).heap_bottom,
                self.wf(),
                m0 == old(self).space@,
                pool0 == old(self).pool@,
                len != 0,
                valid_perm(perm),
                page_aligned(start),
                svpn == vpn_of(start),
                pages == pages_for(len),
                svpn + pages <= usize::MAX,
                j <= pages,
                pages <= pool0.len(),
                !range_overlaps(m0, svpn, pages as nat),
                forall|v: usize| svpn <= v < svpn + pages ==> !m0.dom().contains(v),
                self.pool@ == pool0.take(pool0.len() - j),
                self.space@ == filled_space(m0, pool0, svpn, j as nat, perm),
            decreases pages - j,
        {
            let ghost pool_pre = self.pool@;
            let ghost space_pre = self.space@;
            let frame = match self.pool.pop() {
                Some(f) => f,
                None => vstd::pervasive::unreached(),
            };
            proof {
                assert(frame == pool_pre[pool_pre.len() - 1]);
                assert(frame == pool0[pool0.len() - 1 - j]);
                assert(self.pool@ =~= pool0.take(pool0.len() - (j + 1)));
            }
            self.space.table.insert(svpn + j, FrameEntry { ppn: frame, perm });
            proof {
                let vnew = (svpn + j) as usize;
                let enew = FrameEntry { ppn: frame, perm };
                assert(self.space@ == space_pre.insert(vnew, enew));
                assert(self.space@ =~= filled_space(m0, pool0, svpn, (j + 1) as nat, perm));
                // The popped frame lies in memory, was backing no page, and
                // is distinct from every frame still pooled.
                assert(self.frame_in_mem(frame));
                assert(forall|v: usize| #[trigger]
                    space_pre.dom().contains(v) ==> space_pre[v].ppn != frame);
                assert(forall|i: int| 0 <= i < self.pool@.len() ==> pool_pre[i] != frame);
                assert forall|v1: usize, v2: usize|
                    self.space@.dom().contains(v1) && self.space@.dom().contains(v2)
                        && self.space@[v1].ppn == self.space@[v2].ppn implies v1 == v2 by {
                    if v1 != vnew && v2 != vnew {
                        assert(space_pre.dom().contains(v1) && space_pre.dom().contains(v2));
                    }
                }
                assert forall|i: int, v: usize|
                    0 <= i < self.pool@.len() && self.space@.dom().contains(v) implies #[trigger] self.pool@[i]
                    != (#[trigger] self.space@[v]).ppn by {
                    assert(self.pool@[i] == pool_pre[i]);
                    if v != vnew {
                        assert(space_pre.dom().contains(v));
                    }
                }
            }
            j = j + 1;
        }
        proof {
            assert(self.space@ == map_space_after(m0, pool0, start, len, perm));
            assert(self.pool@ == map_pool_after(m0, pool0, start, len, perm));
        }
        Ok(())
    }

    /// Validate and apply an unmapping request: release the page-table
    /// entries and return the backing frames to the pool for every page of
    /// `[start, start + len)` rounded up to page granularity. Rejected whole
    /// — no partial release — when `start` is unaligned or any covered page
    /// is not currently mapped; repeating an unmap over an already-unmapped
    /// range therefore fails deterministically. Zero length is a no-op
    /// success.
    pub fn unmap_region(&mut self, start: usize, len: usize) -> (r: Result<(), UnmapError>)
        requires
            old(self).wf(),
        ensures
            final(self).wf(),
            final(self).mem == old(self).mem,
            final(self).task == old(self).task,
            final(self).brk == old(self).brk,
            final(self).heap_bottom == old(self).heap_bottom,
            r == unmap_outcome(old(self).space@, start, len),
            final(self).space@ == unmap_space_after(old(self).space@, start, len),
            final(self).pool@ == unmap_pool_after(old(self).space@, old(self).pool@, start, len),
            r is Err ==> final(self).space == old(self).space && final(self).pool == old(self).pool,
            len == 0 ==> final(self).space == old(self).space && final(self).pool == old(
                self,
            ).pool,
    {
        if len == 0 {
            return Ok(());
        }
        if start % PAGE_SIZE != 0 {
            return Err(UnmapError::Alignment);
        }
        let svpn = start / PAGE_SIZE;
        let pages = page_count(len);
        proof {
            assert(pages >= 1);
            assert(svpn + pages <= usize::MAX) by {
                assert(svpn <= (usize::MAX as int) / (PAGE_SIZE as int));
                assert(pages <= (usize::MAX as int) / (PAGE_SIZE as int) + 1);
            }
        }
        let mut j: usize = 0;
        while j < pages
            invariant
                self == old(self),
                old(self).wf(),
                len != 0,
                page_aligned(start),
                svpn == vpn_of(start),
                pages == pages_for(len),
                svpn + pages <= usize::MAX,
                j <= pages,
                forall|v: usize| svpn <= v < svpn + j ==> self.space@.dom().contains(v),
            decreases pages - j,
        {
            if !self.space.is_mapped(svpn + j) {
                proof {
                    assert(!pages_all_mapped(self.space@, svpn, pages as nat)) by {
                        assert(!self.space@.dom().contains((svpn + j) as usize));
                    }
                }
                return Err(UnmapError::NotMapped);
            }
            j = j + 1;
        }
        proof {
            assert(pages_all_mapped(self.space@, svpn, pages as nat));
        }
        let ghost m0 = self.space@;
        let ghost pool0 = self.pool@;
        let mut j: usize = 0;
        while j < pages
            invariant
                self.mem == old(self).mem,
                self.task == old(self).task,
                self.brk == old(self).brk,
                self.heap_bottom == old(self).heap_bottom,
                self.wf(),
                m0 == old(self).space@,
                pool0 == old(self).pool@,
                len != 0,
                page_aligned(start),
                svpn == vpn_of(start),
                pages == pages_for(len),
                svpn + pages <= usize::MAX,
                j <= pages,
                pages_all_mapped(m0, svpn, pages as nat),
                self.space@ == m0.remove_keys(page_range((svpn + pages - j) as usize, j as nat)),
                self.pool@ == pool0 + released_frames(m0, svpn, pages as nat).take(j as int),
            decreases pages - j,
        {
            let v = svpn + (pages - 1 - j);
            proof {
                assert(m0.dom().contains(v));
                assert(self.space@.dom().contains(v));
            }
            let ghost space_pre = self.space@;
            let ghost pool_pre = self.pool@;
            let entry = match self.space.table.remove(&v) {
                Some(e) => e,
                None => vstd::pervasive::unreached(),
            };
            proof {
                assert(self.space@ == space_pre.remove(v));
                assert(entry == space_pre[v]);
                assert(entry == m0[v]);
                assert(self.space@ =~= m0.remove_keys(
                    page_range((svpn + pages - (j + 1)) as usize, (j + 1) as nat),
                ));
            }
            self.pool.push(entry.ppn);
            proof {
                assert(self.pool@ =~= pool0 + released_frames(m0, svpn, pages as nat).take(
                    j + 1,
                ));
                // The released frame lies in memory, is not still pooled, and
                // backs no remaining page.
                assert(self.frame_in_mem(entry.ppn));
                assert(forall|i: int| 0 <= i < pool_pre.len() ==> pool_pre[i] != entry.ppn);
                assert forall|i: int, j2: int|
                    0 <= i < j2 < self.pool@.len() implies self.pool@[i] != self.pool@[j2] by {
                    if j2 < pool_pre.len() {
                        assert(self.pool@[i] == pool_pre[i] && self.pool@[j2] == pool_pre[j2]);
                    } else {
                        assert(self.pool@[j2] == entry.ppn && self.pool@[i] == pool_pre[i]);
                    }
                }
                assert forall|i: int, v2: usize|
                    0 <= i < self.pool@.len() && self.space@.dom().contains(v2) implies #[trigger] self.pool@[i]
                    != (#[trigger] self.space@[v2]).ppn by {
                    assert(space_pre.dom().contains(v2) && space_pre[v2] == self.space@[v2]);
                    if i < pool_pre.len() {
                        assert(self.pool@[i] == pool_pre[i]);
                    } else {
                        assert(self.pool@[i] == entry.ppn);
                        assert(v2 != v);
                        assert(space_pre.dom().contains(v) && space_pre[v].ppn == entry.ppn);
                    }
                }
            }
            j = j + 1;
        }
        proof {
            assert(page_range((svpn + pages - pages) as usize, pages as nat) =~= page_range(
                svpn,
                pages as nat,
            ));
            assert(released_frames(m0, svpn, pages as nat).take(pages as int) =~= released_frames(
                m0,
                svpn,
                pages as nat,
            ));
            assert(self.space@ == unmap_space_after(m0, start, len));
            assert(self.pool@ == unmap_pool_after(m0, pool0, start, len));
        }
        Ok(())
    }
}

} // verus!
