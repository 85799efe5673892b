//! System-wide laws of the boundary layer, proved over the same spec-level
//! transitions that the executable operations are pinned to by their
//! contracts.

use vstd::prelude::*;
use vstd::arithmetic::div_mod::{
    lemma_fundamental_div_mod,
    lemma_fundamental_div_mod_converse,
    lemma_div_is_ordered,
};
use crate::page::{PAGE_SIZE, page_aligned, vpn_of, pages_for};
use crate::space::{FrameEntry, valid_perm, space_injective, translate_spec};
use crate::kernel::{range_mapped, write_seq};
use crate::mapper::{
    MapError,
    UnmapError,
    page_range,
    range_overlaps,
    pages_all_mapped,
    map_outcome,
    map_space_after,
    map_pool_after,
    unmap_outcome,
    unmap_space_after,
    unmap_pool_after,
    released_frames,
    filled_space,
};
use crate::task::{time_sec, time_usec, USEC_PER_SEC};

verus! {

broadcast use vstd::arithmetic::div_mod::lemma_mod_bound;

/// Mapping a fresh, page-aligned, nonzero-length range with valid nonzero
/// permissions and then immediately unmapping the same range succeeds both
/// times and restores the address space and the free-frame pool exactly to
/// their pre-map state.
pub proof fn lemma_map_then_unmap_restores(
    m: Map<usize, FrameEntry>,
    pool: Seq<usize>,
    start: usize,
    len: usize,
    perm: usize,
)
    requires
        len > 0,
        valid_perm(perm),
        page_aligned(start),
        !range_overlaps(m, vpn_of(start), pages_for(len)),
        pages_for(len) <= pool.len(),
    ensures
        map_outcome(m, pool, start, len, perm) == Ok::<(), MapError>(()),
        unmap_outcome(map_space_after(m, pool, start, len, perm), start, len) == Ok::<
            (),
            UnmapError,
        >(()),
        unmap_space_after(map_space_after(m, pool, start, len, perm), start, len) == m,
        unmap_pool_after(
            map_space_after(m, pool, start, len, perm),
            map_pool_after(m, pool, start, len, perm),
            start,
            len,
        ) == pool,
{
    let svpn = vpn_of(start);
    let n = pages_for(len);
    let m1 = filled_space(m, pool, svpn, n, perm);
    assert(map_outcome(m, pool, start, len, perm) == Ok::<(), MapError>(()));
    assert(map_space_after(m, pool, start, len, perm) == m1);
    assert(pages_all_mapped(m1, svpn, n));
    assert(unmap_outcome(m1, start, len) == Ok::<(), UnmapError>(()));
    let m2 = m1.remove_keys(page_range(svpn, n));
    assert forall|v: usize| m.dom().contains(v) implies !(svpn <= v < svpn + n) by {
        if svpn <= v < svpn + n {
            assert(range_overlaps(m, svpn, n));
        }
    }
    assert(m2 =~= m);
    let pool1 = pool.take(pool.len() - n);
    let released = released_frames(m1, svpn, n);
    assert forall|i: int| 0 <= i < n implies released[i] == pool[pool.len() - n + i] by {
        let v = (svpn + n - 1 - i) as usize;
        assert(m1[v] == FrameEntry { ppn: pool[pool.len() - 1 - (v - svpn)], perm });
    }
    assert(pool1 + released =~= pool);
}

/// A mapping request over a range that overlaps an existing mapping is
/// rejected and leaves the address space and the pool unchanged — no partial
/// application. When the frame pool could have backed the request, the
/// rejection names the overlap.
pub proof fn lemma_map_overlap_rejected(
    m: Map<usize, FrameEntry>,
    pool: Seq<usize>,
    start: usize,
    len: usize,
    perm: usize,
)
    requires
        len > 0,
        range_overlaps(m, vpn_of(start), pages_for(len)),
    ensures
        map_outcome(m, pool, start, len, perm) is Err,
        map_space_after(m, pool, start, len, perm) == m,
        map_pool_after(m, pool, start, len, perm) == pool,
        valid_perm(perm) && page_aligned(start) && pages_for(len) <= pool.len()
            ==> map_outcome(m, pool, start, len, perm) == Err::<(), MapError>(MapError::Overlap),
{
}

/// An unmapping request over a range containing any unmapped page fails
/// entirely and releases nothing: the address space and the pool are left
/// unchanged.
pub proof fn lemma_unmap_partial_rejected(
    m: Map<usize, FrameEntry>,
    pool: Seq<usize>,
    start: usize,
    len: usize,
)
    requires
        len > 0,
        page_aligned(start),
        !pages_all_mapped(m, vpn_of(start), pages_for(len)),
    ensures
        unmap_outcome(m, start, len) == Err::<(), UnmapError>(UnmapError::NotMapped),
        unmap_space_after(m, start, len) == m,
        unmap_pool_after(m, pool, start, len) == pool,
{
}

/// Two distinct virtual addresses never translate to the same physical
/// address when no frame backs two pages: addresses on one page differ in
/// their offsets, addresses on different pages differ in their frames.
pub proof fn lemma_translate_distinct(m: Map<usize, FrameEntry>, a1: usize, a2: usize)
    requires
        space_injective(m),
        a1 != a2,
        m.dom().contains(vpn_of(a1)),
        m.dom().contains(vpn_of(a2)),
    ensures
        translate_spec(m, a1) != translate_spec(m, a2),
{
    let v1 = vpn_of(a1);
    let v2 = vpn_of(a2);
    let o1 = a1 % PAGE_SIZE;
    let o2 = a2 % PAGE_SIZE;
    let p1 = m[v1].ppn * PAGE_SIZE + o1;
    let p2 = m[v2].ppn * PAGE_SIZE + o2;
    lemma_fundamental_div_mod(a1 as int, PAGE_SIZE as int);
    lemma_fundamental_div_mod(a2 as int, PAGE_SIZE as int);
    if p1 == p2 {
        lemma_fundamental_div_mod_converse(
            p1,
            PAGE_SIZE as int,
            m[v1].ppn as int,
            o1 as int,
        );
        lemma_fundamental_div_mod_converse(
            p2,
            PAGE_SIZE as int,
            m[v2].ppn as int,
            o2 as int,
        );
        assert(m[v1].ppn == m[v2].ppn);
        assert(v1 == v2);
        assert(a1 == PAGE_SIZE * (a1 as int / PAGE_SIZE as int) + o1);
        assert(a1 == a2);
    }
}

/// No translated byte of `[vaddr, vaddr + len)` targets physical address `p`.
pub open spec fn untouched_by_write(
    m: Map<usize, FrameEntry>,
    vaddr: usize,
    len: nat,
    p: int,
) -> bool {
    forall|i: int| 0 <= i < len ==> #[trigger] translate_spec(m, (vaddr + i) as usize) != Some(p)
}

/// A buffer written through per-byte translation lands correctly in every
/// physical fragment: byte `i` arrives at the translation of `vaddr + i` —
/// fragments on different pages are not assumed contiguous — and every
/// physical byte outside the translated targets is untouched.
pub proof fn lemma_write_bytes_land(
    mem: Seq<u8>,
    m: Map<usize, FrameEntry>,
    vaddr: usize,
    data: Seq<u8>,
)
    requires
        space_injective(m),
        vaddr + data.len() <= usize::MAX,
        range_mapped(m, vaddr, data.len()),
        forall|v: usize| #[trigger]
            m.dom().contains(v) ==> (m[v].ppn + 1) * PAGE_SIZE <= mem.len(),
    ensures
        write_seq(mem, m, vaddr, data).len() == mem.len(),
        forall|i: int|
            0 <= i < data.len() ==> #[trigger] write_seq(mem, m, vaddr, data)[translate_spec(
                m,
                (vaddr + i) as usize,
            )->Some_0] == data[i],
        forall|p: int|
            0 <= p < mem.len() && untouched_by_write(m, vaddr, data.len(), p)
                ==> #[trigger] write_seq(mem, m, vaddr, data)[p] == mem[p],
    decreases data.len(),
{
    if data.len() == 0 {
    } else {
        let n = data.len() as int;
        let head = data.drop_last();
        let last_addr = (vaddr + n - 1) as usize;
        let prev = write_seq(mem, m, vaddr, head);
        lemma_write_bytes_land(mem, m, vaddr, head);
        assert(m.dom().contains(vpn_of(last_addr)));
        let pa = translate_spec(m, last_addr)->Some_0;
        assert(0 <= pa < mem.len()) by {
            assert((m[vpn_of(last_addr)].ppn + 1) * PAGE_SIZE <= mem.len());
            assert(0 <= last_addr % PAGE_SIZE < PAGE_SIZE);
        }
        assert(write_seq(mem, m, vaddr, data) == prev.update(pa, data.last()));
        assert forall|i: int|
            0 <= i < data.len() implies #[trigger] write_seq(mem, m, vaddr, data)[translate_spec(
            m,
            (vaddr + i) as usize,
        )->Some_0] == data[i] by {
            let pai = translate_spec(m, (vaddr + i) as usize)->Some_0;
            assert(m.dom().contains(vpn_of((vaddr + i) as usize)));
            assert(0 <= pai < mem.len()) by {
                assert((m[vpn_of((vaddr + i) as usize)].ppn + 1) * PAGE_SIZE <= mem.len());
                assert(0 <= (vaddr + i) as usize % PAGE_SIZE < PAGE_SIZE);
            }
            if i < n - 1 {
                lemma_translate_distinct(m, (vaddr + i) as usize, last_addr);
                assert(head[i] == data[i]);
            }
        }
        assert forall|p: int|
            0 <= p < mem.len() && untouched_by_write(m, vaddr, data.len(), p)
                implies #[trigger] write_seq(mem, m, vaddr, data)[p] == mem[p] by {
            assert(translate_spec(m, (vaddr + (n - 1)) as usize) != Some(p));
            assert(untouched_by_write(m, vaddr, head.len(), p));
            assert(p != pa);
        }
    }
}

/// Successive clock readings yield non-decreasing (seconds, microseconds)
/// pairs, compared lexicographically, and the microsecond part always lies
/// below one million.
pub proof fn lemma_time_pairs_nondecreasing(t1: u64, t2: u64)
    requires
        t1 <= t2,
    ensures
        time_usec(t1) < 1_000_000,
        time_usec(t2) < 1_000_000,
        time_sec(t1) <= time_sec(t2),
        time_sec(t1) == time_sec(t2) ==> time_usec(t1) <= time_usec(t2),
{
    lemma_div_is_ordered(t1 as int, t2 as int, USEC_PER_SEC as int);
    lemma_fundamental_div_mod(t1 as int, USEC_PER_SEC as int);
    lemma_fundamental_div_mod(t2 as int, USEC_PER_SEC as int);
}

} // verus!
