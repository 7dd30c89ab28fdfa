//! Errors raised by the vmexit handlers and by the page tables.

use vstd::prelude::*;

verus! {

/// Errors a vmexit sub-handler can report; the dispatcher escalates each
/// of them to a fatal stop.
#[derive(Clone, Copy, PartialEq, Eq, Structural, Debug)]
pub enum VmmError {
    /// Feature outside the supported surface.
    NotSupported,
    /// A lookup found nothing.
    NoFound,
    /// Reached a path that is not implemented.
    Unimplemented,
    /// A guest virtual address could not be translated.
    TranslationError,
    /// A guest access fell outside every emulated device window.
    DeviceNotFound,
    /// `htinst` reported a fault taken during the guest's own page walk.
    PseudoInst,
    /// The faulting opcode was rejected by the decoder.
    DecodeInstError,
    /// The instruction class is not allowed for this device window.
    UnexpectedInst,
}

/// Errors from page-table map and unmap.
#[derive(Clone, Copy, PartialEq, Eq, Structural, Debug)]
pub enum PageTableError {
    /// The virtual page already has a valid mapping.
    AlreadyMapped,
    /// The virtual page has no valid mapping.
    NotMapped,
    /// The frame allocator ran out of frames.
    OutOfFrames,
}

} // verus!
