//! Tests of addresses, entries, the frame allocator and the page table.

use hypocaust::addr::{PhysAddr, PhysPageNum, VirtAddr, VirtPageNum};
use hypocaust::error::PageTableError;
use hypocaust::frame_allocator::{FrameTracker, StackFrameAllocator};
use hypocaust::page_table::PageTableSv39;
use hypocaust::pte::{PageTableEntry, PTE_R, PTE_V, PTE_W, PTE_X};

fn allocator(start: u64, end: u64) -> StackFrameAllocator {
    let mut alloc = StackFrameAllocator::new();
    alloc.init(PhysPageNum(start), PhysPageNum(end));
    alloc
}

#[test]
fn address_floor_ceil() {
    assert_eq!(VirtAddr(0x8020_0000).floor().0, 0x80200);
    assert_eq!(VirtAddr(0x8020_0001).ceil().0, 0x80201);
    assert_eq!(VirtAddr(0x8020_0000).ceil().0, 0x80200);
    assert_eq!(VirtAddr(0x123).page_offset(), 0x123);
    assert_eq!(PhysAddr(0x8000_0FFF).floor().0, 0x80000);
    assert_eq!(PhysAddr(0x8000_0FFF).ceil().0, 0x80001);
}

#[test]
fn vpn_indexes() {
    // 0x80200 = 0b10_000000010_00000000 over the three 9-bit groups.
    let (i0, i1, i2) = VirtPageNum(0x80200).indexes();
    assert_eq!(i0, 2);
    assert_eq!(i1, 1);
    assert_eq!(i2, 0);
    // The trampoline page indexes the last slot at every level.
    let (t0, t1, t2) = VirtPageNum(0xf_ffff_ffff_ffff).indexes();
    assert_eq!(t0, 511);
    assert_eq!(t1, 511);
    assert_eq!(t2, 511);
}

#[test]
fn pte_packing() {
    let pte = PageTableEntry::new(PhysPageNum(0x80200), PTE_R | PTE_W | PTE_V);
    assert_eq!(pte.ppn().0, 0x80200);
    assert_eq!(pte.flags(), PTE_R | PTE_W | PTE_V);
    assert!(pte.is_valid());
    assert!(pte.readable());
    assert!(pte.writable());
    assert!(!pte.executable());
    assert!(pte.is_leaf());
    let empty = PageTableEntry::empty();
    assert!(!empty.is_valid());
    assert!(!empty.is_leaf());
}

#[test]
fn frame_allocator_reuses_frames() {
    let mut alloc = allocator(0x100, 0x105);
    let a = alloc.alloc_frame().unwrap();
    let b = alloc.alloc_frame().unwrap();
    assert_eq!(a.0, 0x100);
    assert_eq!(b.0, 0x101);
    alloc.dealloc_frame(a);
    let c = alloc.alloc_frame().unwrap();
    assert_eq!(c.0, 0x100);
    let d = alloc.alloc_frame().unwrap();
    assert_eq!(d.0, 0x102);
}

#[test]
fn frame_tracker_zeroes_page() {
    let frame = FrameTracker::new(PhysPageNum(0x200));
    assert_eq!(frame.data.len(), 4096);
    assert!(frame.data.iter().all(|b| *b == 0));
    assert_eq!(frame.ppn.0, 0x200);
}

#[test]
fn map_then_translate_returns_frame_and_valid() {
    let mut alloc = allocator(0x1000, 0x2000);
    let mut pt = PageTableSv39::new(&mut alloc);
    let vpn = VirtPageNum(0x80200);
    let ppn = PhysPageNum(0x88000);
    assert!(pt.map(vpn, ppn, PTE_R | PTE_X, &mut alloc).is_ok());
    let pte = pt.translate(vpn).expect("mapped page must translate");
    assert_eq!(pte.ppn().0, 0x88000);
    assert!(pte.is_valid());
    assert_eq!(pte.flags(), PTE_R | PTE_X | PTE_V);
    // An unmapped neighbour stays untranslated.
    assert!(pt.translate(VirtPageNum(0x80201)).is_none());
}

#[test]
fn unmap_then_translate_returns_none() {
    let mut alloc = allocator(0x1000, 0x2000);
    let mut pt = PageTableSv39::new(&mut alloc);
    let vpn = VirtPageNum(0x300);
    assert!(pt.map(vpn, PhysPageNum(0x40), PTE_R | PTE_W, &mut alloc).is_ok());
    assert!(pt.translate(vpn).is_some());
    assert!(pt.unmap(vpn).is_ok());
    assert!(pt.translate(vpn).is_none());
    // Unmapping again is rejected.
    assert_eq!(pt.unmap(vpn), Err(PageTableError::NotMapped));
}

#[test]
fn double_map_is_rejected() {
    let mut alloc = allocator(0x1000, 0x2000);
    let mut pt = PageTableSv39::new(&mut alloc);
    let vpn = VirtPageNum(0x80200);
    assert!(pt.map(vpn, PhysPageNum(0x88000), PTE_R | PTE_W, &mut alloc).is_ok());
    let again = pt.map(vpn, PhysPageNum(0x99000), PTE_R | PTE_W, &mut alloc);
    assert_eq!(again, Err(PageTableError::AlreadyMapped));
    // The first mapping survives untouched.
    let pte = pt.translate(vpn).unwrap();
    assert_eq!(pte.ppn().0, 0x88000);
}

#[test]
fn guest_root_is_sixteen_kib_aligned() {
    // A watermark just past an aligned frame forces rejected draws.
    let mut alloc = allocator(0x1001, 0x2000);
    let pt = PageTableSv39::new_guest(&mut alloc);
    assert_eq!(pt.root_ppn % 4, 0);
    assert_eq!(pt.root_ppn, 0x1004);
}

#[test]
fn token_encodes_mode_and_root() {
    let mut alloc = allocator(0x1000, 0x2000);
    let pt = PageTableSv39::new(&mut alloc);
    assert_eq!(pt.token(), (8u64 << 60) | pt.root_ppn);
}

#[test]
fn translate_va_appends_offset() {
    let mut alloc = allocator(0x1000, 0x2000);
    let mut pt = PageTableSv39::new(&mut alloc);
    assert!(pt.map(VirtPageNum(0x80200), PhysPageNum(0x88000), PTE_R, &mut alloc).is_ok());
    assert_eq!(pt.translate_va(0x8020_0123), Some(0x8800_0123));
    assert_eq!(pt.translate_va(0x8040_0123), None);
}

#[test]
fn map_without_frames_reports_exhaustion() {
    // One frame feeds the root; interior tables can no longer be built.
    let mut alloc = allocator(0x100, 0x101);
    let mut pt = PageTableSv39::new(&mut alloc);
    let r = pt.map(VirtPageNum(0x80200), PhysPageNum(0x88000), PTE_R, &mut alloc);
    assert_eq!(r, Err(PageTableError::OutOfFrames));
    assert!(pt.translate(VirtPageNum(0x80200)).is_none());
}
