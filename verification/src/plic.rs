//! The emulated PLIC state.
//!
//! The hypervisor intercepts guest accesses to the PLIC's
//! threshold/claim/complete window and multiplexes real external
//! interrupts into virtual ones through a per-context shadow of the
//! claim/complete register.

use vstd::prelude::*;

verus! {

/// Contexts the PLIC serves: one M-mode and one S-mode context for each
/// of sixteen harts.
pub const MAX_CONTEXTS: usize = 32;

/// First byte offset of the threshold/claim/complete window inside the
/// PLIC.
pub const PLIC_CONTEXT_BASE: u64 = 0x20_0000;

/// Bytes of the window of one context.
pub const PLIC_CONTEXT_STRIDE: u64 = 0x1000;

/// The shadow state of the emulated PLIC.
pub struct PlicState {
    /// The physical base address of the device.
    pub base_addr: u64,
    /// The claim/complete shadow of each context: the interrupt claimed
    /// for it and not yet completed, zero when none.
    pub claim_complete: Vec<u32>,
}

impl PlicState {
    /// Well-formed: one shadow slot per context.
    pub open spec fn wf(self) -> bool {
        self.claim_complete.len() == MAX_CONTEXTS
    }

    /// A fresh shadow over the device at `base_addr`: nothing claimed.
    pub fn new(base_addr: u64) -> (r: PlicState)
        ensures
            r.wf(),
            r.base_addr == base_addr,
            forall|i: int| 0 <= i < MAX_CONTEXTS ==> r.claim_complete@[i] == 0u32,
    {
        let mut claim_complete: Vec<u32> = Vec::new();
        let mut i: usize = 0;
        while i < MAX_CONTEXTS
            invariant
                i <= MAX_CONTEXTS,
                claim_complete.len() == i,
                forall|j: int| 0 <= j < i ==> claim_complete@[j] == 0u32,
            decreases MAX_CONTEXTS - i,
        {
            claim_complete.push(0);
            i = i + 1;
        }
        PlicState { base_addr, claim_complete }
    }
}

/// Whether a guest physical address falls in the emulated PLIC window.
pub fn is_plic_access(addr: u64) -> (r: bool)
    ensures
        r == (0x0c00_0000 <= addr < 0x1000_0000),
{
    0x0c00_0000 <= addr && addr < 0x1000_0000
}

} // verus!
