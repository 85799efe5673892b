//! A task's virtual address space: a table from virtual page numbers to the
//! physical frames backing them, together with the per-page permissions.

use vstd::prelude::*;
use std::collections::HashMap;
use crate::page::PAGE_SIZE;

verus! {

broadcast use vstd::std_specs::hash::group_hash_axioms;

/// Permission bit granting read access.
pub const PERM_READ: usize = 1;

/// Permission bit granting write access.
pub const PERM_WRITE: usize = 2;

/// Permission bit granting execute access.
pub const PERM_EXEC: usize = 4;

/// A permission word is valid when it uses only the read/write/execute bits
/// and requests at least one of them.
pub open spec fn valid_perm(perm: usize) -> bool {
    1 <= perm <= 7
}

/// One page-table entry: the physical frame backing a virtual page, and the
/// permissions the task holds on it.
#[derive(Clone, Copy, PartialEq, Eq, Structural, Debug)]
pub struct FrameEntry {
    /// Physical frame number backing the page.
    pub ppn: usize,
    /// Permission bits (read/write/execute) applied to the page.
    pub perm: usize,
}

/// The translation structure of one task's address space. Mathematically it
/// is the finite map from mapped virtual page numbers to frame entries.
pub struct AddressSpace {
    /// Mapped pages, keyed by virtual page number.
    pub table: HashMap<usize, FrameEntry>,
}

impl View for AddressSpace {
    type V = Map<usize, FrameEntry>;

    open spec fn view(&self) -> Map<usize, FrameEntry> {
        self.table@
    }
}

/// No two mapped virtual pages share a backing frame: every frame backs at
/// most one page of the space.
pub open spec fn space_injective(m: Map<usize, FrameEntry>) -> bool {
    forall|v1: usize, v2: usize|
        m.dom().contains(v1) && m.dom().contains(v2) && m[v1].ppn == m[v2].ppn ==> v1 == v2
}

impl AddressSpace {
    /// An empty address space, with no page mapped.
    pub fn new() -> (s: AddressSpace)
        ensures
            s@ == Map::<usize, FrameEntry>::empty(),
    {
        AddressSpace { table: HashMap::new() }
    }

    /// Whether the page numbered `vpn` is currently mapped.
    pub fn is_mapped(&self, vpn: usize) -> (r: bool)
        ensures
            r == self@.dom().contains(vpn),
    {
        self.table.contains_key(&vpn)
    }

    /// The entry backing page `vpn`, if that page is mapped.
    pub fn lookup(&self, vpn: usize) -> (r: Option<FrameEntry>)
        ensures
            r matches Some(e) ==> self@.dom().contains(vpn) && self@[vpn] == e,
            r is None ==> !self@.dom().contains(vpn),
    {
        match self.table.get(&vpn) {
            Some(e) => Some(*e),
            None => None,
        }
    }
}

/// Physical address backing virtual address `vaddr`, as the page-table walk
/// resolves it: the frame base of the containing page plus the in-page
/// offset. `None` when the page is unmapped.
pub open spec fn translate_spec(m: Map<usize, FrameEntry>, vaddr: usize) -> Option<int> {
    if m.dom().contains((vaddr / PAGE_SIZE) as usize) {
        Some(m[(vaddr / PAGE_SIZE) as usize].ppn * PAGE_SIZE + vaddr % PAGE_SIZE)
    } else {
        None
    }
}

} // verus!
