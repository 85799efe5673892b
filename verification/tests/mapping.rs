use kernel_boundary::kernel::Kernel;
use kernel_boundary::mapper::{MapError, UnmapError};
use kernel_boundary::facade::{sys_mmap, sys_munmap};
use kernel_boundary::space::{PERM_READ, PERM_WRITE, PERM_EXEC};

const PAGE: usize = 4096;

fn fresh(frames: usize) -> Kernel {
    Kernel::new(frames, 0x1_0000, 1_000_000)
}

#[test]
fn mmap_zero_length_is_noop_success() {
    // Zero bytes requested: returns 0 and creates no mapping, for any
    // alignment of start and any port value.
    let mut k = fresh(4);
    let r = sys_mmap(&mut k, 12345, 0, 0b1000);
    assert_eq!(r, 0);
    assert!(!k.space.is_mapped(12345 / PAGE));
    assert_eq!(k.pool.len(), 4);

    let r = sys_mmap(&mut k, PAGE, 0, 0);
    assert_eq!(r, 0);
    assert!(!k.space.is_mapped(1));
}

#[test]
fn mmap_port_bit_validation() {
    let mut k = fresh(4);
    // A bit outside read/write/execute is rejected.
    assert_eq!(sys_mmap(&mut k, 0, PAGE, 0b1000), -1);
    // Zero permissions are rejected.
    assert_eq!(sys_mmap(&mut k, 0, PAGE, 0), -1);
    assert!(!k.space.is_mapped(0));
    // Read-only succeeds.
    assert_eq!(sys_mmap(&mut k, 0, PAGE, 0b001), 0);
    assert!(k.space.is_mapped(0));
}

#[test]
fn mmap_rejects_unaligned_start() {
    let mut k = fresh(4);
    assert_eq!(sys_mmap(&mut k, 100, 10, 1), -1);
    assert_eq!(k.map_region(100, 10, 1), Err(MapError::Alignment));
}

#[test]
fn mmap_rejects_invalid_permission_before_alignment() {
    let mut k = fresh(4);
    assert_eq!(k.map_region(100, 10, 9), Err(MapError::PermissionEncoding));
}

#[test]
fn map_then_unmap_restores_state() {
    // Map two pages, unmap them: the address space and the frame pool come
    // back byte for byte to the pre-map state.
    let mut k = fresh(8);
    let pool_before = k.pool.clone();
    assert_eq!(sys_mmap(&mut k, 2 * PAGE, 2 * PAGE, PERM_READ | PERM_WRITE), 0);
    assert!(k.space.is_mapped(2));
    assert!(k.space.is_mapped(3));
    assert_eq!(k.pool.len(), 6);
    assert_eq!(sys_munmap(&mut k, 2 * PAGE, 2 * PAGE), 0);
    assert!(!k.space.is_mapped(2));
    assert!(!k.space.is_mapped(3));
    assert_eq!(k.pool, pool_before);
}

#[test]
fn map_overlap_fails_without_side_effect() {
    let mut k = fresh(8);
    assert_eq!(sys_mmap(&mut k, 0, 2 * PAGE, 1), 0);
    let pool_after_first = k.pool.clone();
    // Overlapping the second page of the existing mapping.
    assert_eq!(sys_mmap(&mut k, PAGE, 2 * PAGE, 1), -1);
    assert_eq!(k.map_region(PAGE, 2 * PAGE, 1), Err(MapError::Overlap));
    assert!(k.space.is_mapped(0));
    assert!(k.space.is_mapped(1));
    assert!(!k.space.is_mapped(2));
    assert_eq!(k.pool, pool_after_first);
}

#[test]
fn unmap_with_unmapped_page_fails_entirely() {
    // Map only [0, 4096); unmap(0, 8192) must fail and leave [0, 4096)
    // still mapped — no partial release.
    let mut k = fresh(8);
    assert_eq!(sys_mmap(&mut k, 0, PAGE, 1), 0);
    let pool_after_map = k.pool.clone();
    assert_eq!(sys_munmap(&mut k, 0, 2 * PAGE), -1);
    assert_eq!(k.unmap_region(0, 2 * PAGE), Err(UnmapError::NotMapped));
    assert!(k.space.is_mapped(0));
    assert_eq!(k.pool, pool_after_map);
}

#[test]
fn unmap_twice_fails_deterministically() {
    let mut k = fresh(8);
    assert_eq!(sys_mmap(&mut k, 0, PAGE, 1), 0);
    assert_eq!(sys_munmap(&mut k, 0, PAGE), 0);
    assert_eq!(sys_munmap(&mut k, 0, PAGE), -1);
    assert_eq!(sys_munmap(&mut k, 0, PAGE), -1);
}

#[test]
fn unmap_zero_length_is_noop_success() {
    let mut k = fresh(4);
    assert_eq!(sys_munmap(&mut k, 999, 0), 0);
}

#[test]
fn unmap_rejects_unaligned_start() {
    let mut k = fresh(4);
    assert_eq!(sys_mmap(&mut k, 0, PAGE, 1), 0);
    assert_eq!(sys_munmap(&mut k, 1, PAGE), -1);
    assert_eq!(k.unmap_region(1, PAGE), Err(UnmapError::Alignment));
    assert!(k.space.is_mapped(0));
}

#[test]
fn mmap_fails_when_frames_exhausted() {
    let mut k = fresh(1);
    assert_eq!(sys_mmap(&mut k, 0, 2 * PAGE, 1), -1);
    assert_eq!(k.map_region(0, 2 * PAGE, 1), Err(MapError::AllocationExhausted));
    assert!(!k.space.is_mapped(0));
    assert_eq!(k.pool.len(), 1);
    // A one-page request still fits.
    assert_eq!(sys_mmap(&mut k, 0, PAGE, 1), 0);
    assert_eq!(k.pool.len(), 0);
}

#[test]
fn mmap_length_rounds_up_to_pages() {
    let mut k = fresh(8);
    assert_eq!(sys_mmap(&mut k, 0, PAGE + 1, PERM_READ | PERM_WRITE | PERM_EXEC), 0);
    assert!(k.space.is_mapped(0));
    assert!(k.space.is_mapped(1));
    assert!(!k.space.is_mapped(2));
    assert_eq!(k.pool.len(), 6);
}

#[test]
fn translate_across_page_boundary_not_contiguous() {
    // Pages mapped in one call take consecutive frames from the pool tail,
    // so the byte after a page boundary does not follow the byte before it
    // in physical memory.
    let mut k = fresh(8);
    assert_eq!(sys_mmap(&mut k, 0, 2 * PAGE, 1), 0);
    // Page 0 got frame 7, page 1 got frame 6.
    let before = k.translate(PAGE - 1).unwrap();
    let after = k.translate(PAGE).unwrap();
    assert_eq!(before, 7 * PAGE + (PAGE - 1));
    assert_eq!(after, 6 * PAGE);
    assert_ne!(after, before + 1);
}

#[test]
fn buffer_larger_than_a_page_lands_in_both_fragments() {
    // A write longer than one page is split per physical fragment: every
    // byte lands at its own page's frame, not at a contiguous run after the
    // first byte's address.
    let mut k = fresh(8);
    assert_eq!(sys_mmap(&mut k, 0, 2 * PAGE, PERM_READ | PERM_WRITE), 0);
    let data: Vec<u8> = (0..PAGE + 1000).map(|i| (i % 251) as u8).collect();
    assert!(k.write_user_bytes(0, &data).is_ok());
    for (i, expected) in data.iter().enumerate() {
        let pa = k.translate(i).unwrap();
        assert_eq!(k.mem[pa], *expected);
    }
    // The fragments sit in different frames: page 0 in frame 7, page 1 in
    // frame 6.
    assert_eq!(k.mem[7 * PAGE], data[0]);
    assert_eq!(k.mem[6 * PAGE], data[PAGE]);
}

#[test]
fn write_fails_whole_when_range_leaves_mapping() {
    let mut k = fresh(8);
    assert_eq!(sys_mmap(&mut k, 0, PAGE, PERM_READ | PERM_WRITE), 0);
    let mem_before = k.mem.clone();
    let data: Vec<u8> = vec![0xabu8; PAGE + 1];
    assert!(k.write_user_bytes(0, &data).is_err());
    assert_eq!(k.mem, mem_before);
}

#[test]
fn translate_fails_on_unmapped_page() {
    let k = fresh(4);
    assert!(k.translate(0).is_none());
    assert!(k.translate(123 * PAGE).is_none());
}

#[test]
fn mmap_of_enormous_length_is_refused_cleanly() {
    let mut k = fresh(4);
    assert_eq!(sys_mmap(&mut k, 0, usize::MAX, 1), -1);
    assert_eq!(k.map_region(0, usize::MAX, 1), Err(MapError::AllocationExhausted));
    assert!(!k.space.is_mapped(0));
    assert_eq!(k.pool.len(), 4);
}
