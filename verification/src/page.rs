//! Page geometry: the fixed 4096-byte page is the alignment and allocation
//! unit for both virtual and physical memory.

use vstd::prelude::*;

verus! {

/// Size in bytes of one page (and of one physical frame).
pub const PAGE_SIZE: usize = 4096;

/// An address is page-aligned when it is a multiple of the page size.
pub open spec fn page_aligned(addr: usize) -> bool {
    addr % PAGE_SIZE == 0
}

/// Virtual page number of the page containing `addr`.
pub open spec fn vpn_of(addr: usize) -> usize {
    addr / PAGE_SIZE
}

/// Byte offset of `addr` within its page.
pub open spec fn page_offset(addr: usize) -> usize {
    addr % PAGE_SIZE
}

/// Number of pages needed to cover `len` bytes, rounded up to page
/// granularity.
pub open spec fn pages_for(len: usize) -> nat {
    ((len + PAGE_SIZE - 1) / (PAGE_SIZE as int)) as nat
}

/// Executable page-alignment test.
pub fn is_page_aligned(addr: usize) -> (r: bool)
    ensures
        r == page_aligned(addr),
{
    addr % PAGE_SIZE == 0
}

/// Executable virtual page number of the page containing `addr`.
pub fn addr_to_vpn(addr: usize) -> (r: usize)
    ensures
        r == vpn_of(addr),
{
    addr / PAGE_SIZE
}

/// Executable page count covering `len` bytes, avoiding the overflow that a
/// naive `(len + PAGE_SIZE - 1) / PAGE_SIZE` would risk near `usize::MAX`.
pub fn page_count(len: usize) -> (r: usize)
    ensures
        r == pages_for(len),
{
    if len % PAGE_SIZE == 0 {
        len / PAGE_SIZE
    } else {
        len / PAGE_SIZE + 1
    }
}

} // verus!
