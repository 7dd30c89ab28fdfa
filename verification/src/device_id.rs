//! Device identifiers for the IOMMU device directory.
//!
//! A device id indexes the directory table; for PCI devices it is the
//! requester id. It is at most 24 bits wide: six bits index the leaf
//! table and nine bits each of the intermediate levels.

use vstd::prelude::*;

verus! {

/// Bits a device id may use.
pub const DEVICE_ID_BITS: u32 = 24;

/// Bits indexing the leaf table.
pub const LEAF_INDEX_BITS: u32 = 6;

/// Bits indexing an intermediate table.
pub const NON_LEAF_INDEX_BITS: u32 = 9;

/// A device id: at most 24 bits.
#[derive(Clone, Copy, PartialEq, Eq, Structural, Debug)]
pub struct DeviceId(u32);

impl DeviceId {
    /// The raw value.
    pub closed spec fn view(self) -> u32 {
        self.0
    }

    /// A device id from a raw value; none when a bit above the 24th is
    /// set.
    pub fn new(val: u32) -> (r: Option<DeviceId>)
        ensures
            val < 0x100_0000 ==> (r matches Some(d) && d.view() == val),
            val >= 0x100_0000 ==> r is None,
    {
        proof {
            assert(((val & 0xff00_0000u32) == 0) == (val < 0x100_0000u32)) by (bit_vector);
        }
        if (val & 0xff00_0000) == 0 {
            Some(DeviceId(val))
        } else {
            None
        }
    }

    /// The raw bits of this device id.
    pub fn bits(&self) -> (r: u32)
        ensures
            r == self.view(),
    {
        self.0
    }

    /// The bits of this id used to index a directory table at `level`:
    /// the low six bits at the leaf, nine-bit groups above it.
    pub fn level_index_bits(&self, level: u32) -> (r: u64)
        requires
            level <= 3,
        ensures
            level == 0 ==> r == self.view() & 0x3f,
            level > 0 ==> r == (self.view() as u64 >> ((6 + 9 * (level - 1)) as u64)) & 0x1ff,
    {
        if level == 0 {
            (self.0 & 0x3f) as u64
        } else {
            let shift: u64 = (6 + 9 * (level - 1)) as u64;
            ((self.0 as u64) >> shift) & 0x1ff
        }
    }
}

} // verus!
