//! Platform constants and privilege-mode names.

use vstd::prelude::*;

verus! {

/// Bytes of one guest user stack.
pub const USER_STACK_SIZE: u64 = 0x2000;

/// Bytes of the hypervisor heap.
pub const KERNEL_HEAP_SIZE: u64 = 0x30_0000;

/// Harts one guest may occupy.
pub const MAX_GUEST_HARTS: u64 = 16;

/// Start of the memory the hypervisor manages.
pub const MEMORY_START: u64 = 0x8000_0000;

/// hedeleg bit: instruction address misaligned.
pub const HEDELEG_INST_ADDR_MISALIGN: u64 = 0x1;

/// hedeleg bit: breakpoint.
pub const HEDELEG_BREAKPOINT: u64 = 0x8;

/// hedeleg bit: environment call from U or VU mode.
pub const HEDELEG_ENV_CALL_FROM_U_OR_VU: u64 = 0x100;

/// hedeleg bit: instruction page fault.
pub const HEDELEG_INST_PAGE_FAULT: u64 = 0x1000;

/// hedeleg bit: load page fault.
pub const HEDELEG_LOAD_PAGE_FAULT: u64 = 0x2000;

/// hedeleg bit: store page fault.
pub const HEDELEG_STORE_PAGE_FAULT: u64 = 0x8000;

/// hideleg bit: virtual supervisor software interrupt.
pub const HIDELEG_VSSIP: u64 = 0x4;

/// hideleg bit: virtual supervisor timer interrupt.
pub const HIDELEG_VSTIP: u64 = 0x40;

/// hideleg bit: virtual supervisor external interrupt.
pub const HIDELEG_VSEIP: u64 = 0x400;

/// sip bit: supervisor software interrupt pending.
pub const SIP_SSIP: u64 = 0x2;

/// sip bit: supervisor timer interrupt pending.
pub const SIP_STIP: u64 = 0x20;

/// sip bit: supervisor external interrupt pending.
pub const SIP_SEIP: u64 = 0x200;

/// Whether the hart virtualizes its execution.
#[derive(Clone, Copy, PartialEq, Eq, Structural, Debug)]
pub enum VirtualzationMode {
    /// V = 0: the hypervisor itself.
    Host,
    /// V = 1: a guest.
    Guest,
}

/// The base privilege of the hart.
#[derive(Clone, Copy, PartialEq, Eq, Structural, Debug)]
pub enum CpuMode {
    /// Machine mode.
    M,
    /// Supervisor mode.
    S,
    /// User mode.
    U,
}

impl CpuMode {
    /// The two-bit encoding of the mode.
    pub fn encoding(self) -> (r: u64)
        ensures
            self == CpuMode::M ==> r == 3,
            self == CpuMode::S ==> r == 1,
            self == CpuMode::U ==> r == 0,
    {
        match self {
            CpuMode::M => 3,
            CpuMode::S => 1,
            CpuMode::U => 0,
        }
    }
}

/// The privilege levels visible with the hypervisor extension.
#[derive(Clone, Copy, PartialEq, Eq, Structural, Debug)]
pub enum PrevisorMode {
    /// Host user mode.
    U,
    /// Host supervisor mode, where the hypervisor runs.
    HS,
    /// Machine mode, where the firmware runs.
    M,
    /// Virtualized user mode.
    VU,
    /// Virtualized supervisor mode, where guest kernels run.
    VS,
}

} // verus!
