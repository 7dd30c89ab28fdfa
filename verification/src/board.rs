//! Board description for the qemu virt machine.
//!
//! The configuration is entirely compile-time: the clock frequency, the
//! MMIO table, the bounds of physical memory and of the guest image.

use vstd::prelude::*;

verus! {

/// Timer ticks per second.
pub const CLOCK_FREQ: u64 = 12500000;

/// Start of physical memory.
pub const PHYS_MEM_BASE: u64 = 0x8000_0000;

/// Bytes of physical memory.
pub const PHYS_MEM_SIZE: u64 = 0xC000_0000;

/// Where the hypervisor image is linked.
pub const KERN_BASE_ADDR: u64 = 0x8020_0000;

/// End of the memory the frame allocator manages.
pub const MEMORY_END: u64 = 0x8800_0000;

/// Where the guest's device tree is placed.
pub const GUEST_DTB_ADDR: u64 = 0x9000_0000;

/// Where the guest image is placed.
pub const GUEST_BIN_ADDR: u64 = 0x9020_0000;

/// Bytes reserved for the guest image.
pub const GUEST_BIN_SIZE: u64 = 0x0800_0000;

/// The MMIO regions of the board, as base and size pairs: the test
/// finisher and rtc, the virtio window, the uart, the core-local
/// interruptor, the interrupt controller, and the pci window.
pub fn qemu_virt_mmio() -> (r: Vec<(u64, u64)>)
    ensures
        r@ =~= seq![
            (0x0010_0000u64, 0x2000u64),
            (0x1000_1000u64, 0x8000u64),
            (0x1000_0000u64, 0x1000u64),
            (0x0200_0000u64, 0x1_0000u64),
            (0x0c00_0000u64, 0x400_0000u64),
            (0x3000_0000u64, 0x1000_0000u64),
        ],
{
    let mut r: Vec<(u64, u64)> = Vec::new();
    r.push((0x0010_0000, 0x2000));
    r.push((0x1000_1000, 0x8000));
    r.push((0x1000_0000, 0x1000));
    r.push((0x0200_0000, 0x1_0000));
    r.push((0x0c00_0000, 0x400_0000));
    r.push((0x3000_0000, 0x1000_0000));
    r
}

} // verus!
