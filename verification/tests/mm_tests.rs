//! Tests of map areas, memory sets and the boot-time builders.

use hypocaust::addr::{PhysAddr, PhysPageNum, VirtAddr, VirtPageNum};
use hypocaust::board::qemu_virt_mmio;
use hypocaust::frame_allocator::StackFrameAllocator;
use hypocaust::memory_set::{MapArea, MapType, TRAMPOLINE, TRAMP_VPN, TRAP_CONTEXT};
use hypocaust::mm::{
    hstack_position, GuestLayout, GuestMemorySet, HostMemorySet, HypervisorStack, KernelLayout,
};
use hypocaust::pte::{PTE_R, PTE_U, PTE_V, PTE_W, PTE_X};

fn allocator(start: u64, end: u64) -> StackFrameAllocator {
    let mut alloc = StackFrameAllocator::new();
    alloc.init(PhysPageNum(start), PhysPageNum(end));
    alloc
}

fn qemu_layout() -> KernelLayout {
    KernelLayout {
        stext: 0x8020_0000,
        etext: 0x8030_0000,
        srodata: 0x8030_0000,
        erodata: 0x8038_0000,
        sdata: 0x8038_0000,
        edata: 0x8040_0000,
        sbss_with_stack: 0x8040_0000,
        ebss: 0x8060_0000,
        ekernel: 0x8060_0000,
        memory_end: 0x8800_0000,
        strampoline: 0x8025_0000,
    }
}

fn guest_layout() -> GuestLayout {
    GuestLayout {
        dtb_start: 0x9000_0000,
        dtb_end: 0x9020_0000,
        bin_start: 0x9020_0000,
        bin_end: 0x9820_0000,
        strampoline: 0x8025_0000,
    }
}

#[test]
fn push_maps_every_page_of_the_area() {
    let mut alloc = allocator(0x1000, 0x8000);
    let mut set = HostMemorySet::new_bare(&mut alloc);
    let area = MapArea::new(
        VirtAddr(0x8020_0000),
        VirtAddr(0x8020_3000),
        Some(PhysAddr(0x8020_0000)),
        Some(PhysAddr(0x8020_3000)),
        MapType::Linear,
        PTE_R | PTE_W,
    );
    set.push(area, None, &mut alloc);
    for vpn in 0x80200..0x80203u64 {
        let pte = set.translate(VirtPageNum(vpn)).expect("area page must translate");
        assert_eq!(pte.flags(), PTE_R | PTE_W | PTE_V);
        assert_eq!(pte.ppn().0, vpn);
    }
    assert!(set.translate(VirtPageNum(0x80203)).is_none());
    assert!(set.translate(VirtPageNum(0x801ff)).is_none());
}

#[test]
fn framed_area_copies_payload() {
    let mut alloc = allocator(0x1000, 0x8000);
    let mut set = HostMemorySet::new_bare(&mut alloc);
    let area = MapArea::new(
        VirtAddr(0x1_0000),
        VirtAddr(0x1_2000),
        None,
        None,
        MapType::Framed,
        PTE_R | PTE_W,
    );
    let mut payload: Vec<u8> = Vec::new();
    for i in 0..5000usize {
        payload.push((i % 251) as u8);
    }
    set.push(area, Some(&payload), &mut alloc);
    let frames = &set.areas[0].data_frames;
    assert_eq!(frames.len(), 2);
    assert_eq!(frames[0].0, 0x10);
    assert_eq!(frames[1].0, 0x11);
    for i in 0..4096usize {
        assert_eq!(frames[0].1.data[i], (i % 251) as u8);
    }
    for i in 0..(5000 - 4096) {
        assert_eq!(frames[1].1.data[i], ((4096 + i) % 251) as u8);
    }
    // The tail of the second frame keeps its zero fill.
    assert_eq!(frames[1].1.data[5000 - 4096], 0);
}

#[test]
fn area_unmap_removes_every_page() {
    let mut alloc = allocator(0x1000, 0x8000);
    let mut pt = hypocaust::page_table::PageTableSv39::new(&mut alloc);
    let mut area = MapArea::new(
        VirtAddr(0x2000),
        VirtAddr(0x5000),
        Some(PhysAddr(0x2000)),
        Some(PhysAddr(0x5000)),
        MapType::Linear,
        PTE_R,
    );
    area.map(&mut pt, &mut alloc);
    assert!(pt.translate(VirtPageNum(3)).is_some());
    area.unmap(&mut pt, &mut alloc);
    for vpn in 2..5u64 {
        assert!(pt.translate(VirtPageNum(vpn)).is_none());
    }
}

#[test]
fn framed_unmap_returns_frames_to_the_allocator() {
    let mut alloc = allocator(0x1000, 0x8000);
    let mut pt = hypocaust::page_table::PageTableSv39::new(&mut alloc);
    let mut area = MapArea::new(
        VirtAddr(0x2000),
        VirtAddr(0x4000),
        None,
        None,
        MapType::Framed,
        PTE_R | PTE_W,
    );
    area.map(&mut pt, &mut alloc);
    assert_eq!(area.data_frames.len(), 2);
    let owned: Vec<u64> = area.data_frames.iter().map(|e| e.1.ppn.0).collect();
    area.unmap(&mut pt, &mut alloc);
    // The bookkeeping entries are gone and the frames circulate again.
    assert_eq!(area.data_frames.len(), 0);
    let again = alloc.alloc_frame().unwrap();
    assert_eq!(again.0, owned[1]);
    let again2 = alloc.alloc_frame().unwrap();
    assert_eq!(again2.0, owned[0]);
    assert!(pt.translate(VirtPageNum(2)).is_none());
}

#[test]
fn host_builder_maps_trampoline_with_exactly_rx() {
    let layout = qemu_layout();
    let mmio = qemu_virt_mmio();
    let mut alloc = allocator(0x90000, 0x100000);
    let set = HostMemorySet::new_host_vmm(&layout, &mmio, &mut alloc);
    let pte = set.translate(VirtPageNum(TRAMP_VPN)).expect("trampoline must be mapped");
    assert_eq!(pte.flags(), PTE_R | PTE_X | PTE_V);
    assert_eq!(pte.ppn().0, 0x8025_0000 >> 12);
}

#[test]
fn host_builder_maps_sections_and_trap_context() {
    let layout = qemu_layout();
    let mmio = qemu_virt_mmio();
    let mut alloc = allocator(0x90000, 0x100000);
    let set = HostMemorySet::new_host_vmm(&layout, &mmio, &mut alloc);
    // Text is R|X, rodata R, data R|W; all identity-mapped.
    let text = set.translate(VirtPageNum(0x80200)).unwrap();
    assert_eq!(text.flags(), PTE_R | PTE_X | PTE_V);
    assert_eq!(text.ppn().0, 0x80200);
    let ro = set.translate(VirtPageNum(0x80300)).unwrap();
    assert_eq!(ro.flags(), PTE_R | PTE_V);
    let data = set.translate(VirtPageNum(0x80380)).unwrap();
    assert_eq!(data.flags(), PTE_R | PTE_W | PTE_V);
    // The PLIC window is host-reachable.
    let plic = set.translate(VirtPageNum(0x0c000)).unwrap();
    assert_eq!(plic.flags(), PTE_R | PTE_W | PTE_V);
    // The trap context page sits below the trampoline, R|W on a fresh frame.
    let tc = set.translate(VirtAddr(TRAP_CONTEXT).floor()).unwrap();
    assert_eq!(tc.flags(), PTE_R | PTE_W | PTE_V);
    // Between the areas nothing is mapped.
    assert!(set.translate(VirtPageNum(0x7ffff)).is_none());
    assert!(set.translate(VirtPageNum(0x88000)).is_none());
}

#[test]
fn guest_builder_maps_trampoline_with_exactly_rx() {
    let layout = guest_layout();
    let mmio = qemu_virt_mmio();
    let mut alloc = allocator(0x90000, 0x100000);
    let set = GuestMemorySet::setup_gpm(&layout, &mmio, &mut alloc);
    assert_eq!(set.page_table.root_ppn % 4, 0);
    let pte = set.translate(VirtPageNum(TRAMP_VPN)).expect("trampoline must be mapped");
    assert_eq!(pte.flags(), PTE_R | PTE_X | PTE_V);
}

#[test]
fn guest_leaves_carry_user_bit() {
    let layout = guest_layout();
    let mmio = qemu_virt_mmio();
    let mut alloc = allocator(0x90000, 0x100000);
    let set = GuestMemorySet::setup_gpm(&layout, &mmio, &mut alloc);
    // The guest image is R|W|X|U, the DTB window R|W|U, MMIO R|W|U.
    let bin = set.translate(VirtPageNum(0x90200)).unwrap();
    assert_eq!(bin.flags(), PTE_R | PTE_W | PTE_X | PTE_U | PTE_V);
    let dtb = set.translate(VirtPageNum(0x90000)).unwrap();
    assert_eq!(dtb.flags(), PTE_R | PTE_W | PTE_U | PTE_V);
    let plic = set.translate(VirtPageNum(0x0c000)).unwrap();
    assert_eq!(plic.flags(), PTE_R | PTE_W | PTE_U | PTE_V);
    // Only the guest-visible slice of the PLIC window is passed through.
    assert!(set.translate(VirtPageNum(0x0c200)).is_none());
    // Sampled leaves besides the trampoline all carry U.
    for vpn in [0x90000u64, 0x90100, 0x90200, 0x95000, 0x0c000, 0x10000] {
        if let Some(pte) = set.translate(VirtPageNum(vpn)) {
            assert_eq!(pte.flags() & PTE_U, PTE_U);
        }
    }
    // The trampoline is the one exception.
    let tramp = set.translate(VirtPageNum(TRAMP_VPN)).unwrap();
    assert_eq!(tramp.flags() & PTE_U, 0);
}

#[test]
fn map_guest_installs_linear_window() {
    let layout = qemu_layout();
    let mmio = qemu_virt_mmio();
    let mut alloc = allocator(0x90000, 0x120000);
    let mut set = HostMemorySet::new_host_vmm(&layout, &mmio, &mut alloc);
    set.map_guest(0x8800_0000, 0x0800_0000, &mut alloc);
    let w = set.translate(VirtPageNum(0x88000)).unwrap();
    assert_eq!(w.flags(), PTE_R | PTE_W | PTE_V);
    assert_eq!(w.ppn().0, 0x88000);
    let dtb = set.translate(VirtPageNum(0x90000)).unwrap();
    assert_eq!(dtb.ppn().0, 0x90000);
}

#[test]
fn hypervisor_stack_positions_hang_below_trap_context() {
    let (bottom, top) = hstack_position(0);
    assert_eq!(top, TRAP_CONTEXT);
    assert_eq!(top - bottom, 0x4000);
    let (b1, t1) = hstack_position(1);
    assert_eq!(t1, TRAP_CONTEXT - 0x5000);
    assert_eq!(t1 - b1, 0x4000);
    assert_eq!(HypervisorStack(1).get_top(), t1);
    assert_eq!(TRAMPOLINE - TRAP_CONTEXT, 0x1000);
}
