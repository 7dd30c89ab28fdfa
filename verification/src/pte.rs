//! Sv39 page-table entries.
//!
//! An entry packs a 44-bit physical page number (bits 10..54) with eight
//! flag bits {Valid, Readable, Writable, eXecutable, User, Global,
//! Accessed, Dirty}. An entry is a leaf iff any of R/W/X is set; an entry
//! with W set but R clear is reserved and treated as invalid by a walk.

use vstd::prelude::*;

use crate::addr::PhysPageNum;

verus! {

/// Valid flag bit.
pub const PTE_V: u8 = 0x01;
/// Readable flag bit.
pub const PTE_R: u8 = 0x02;
/// Writable flag bit.
pub const PTE_W: u8 = 0x04;
/// Executable flag bit.
pub const PTE_X: u8 = 0x08;
/// User flag bit.
pub const PTE_U: u8 = 0x10;
/// Global flag bit.
pub const PTE_G: u8 = 0x20;
/// Accessed flag bit.
pub const PTE_A: u8 = 0x40;
/// Dirty flag bit.
pub const PTE_D: u8 = 0x80;

/// Largest physical page number plus one: ppns take 44 bits.
pub const PPN_LIMIT: u64 = 0x1000_0000_0000;

/// An Sv39 page-table entry, as its raw bits.
#[derive(Clone, Copy, PartialEq, Eq, Structural, Debug)]
pub struct PageTableEntry {
    pub bits: u64,
}

/// The raw bits of an entry built from a page number and flag bits.
pub open spec fn spec_pte_bits(ppn: u64, flags: u8) -> u64 {
    ((ppn << 10) | flags as u64) as u64
}

/// The page number packed in raw entry bits.
pub open spec fn spec_pte_ppn(bits: u64) -> u64 {
    ((bits >> 10) & 0xfff_ffff_ffff) as u64
}

/// The flag bits packed in raw entry bits.
pub open spec fn spec_pte_flags(bits: u64) -> u8 {
    (bits & 0xff) as u8
}

/// Whether raw entry bits carry the Valid flag.
pub open spec fn spec_pte_valid(bits: u64) -> bool {
    bits & 1 == 1
}

/// Packing a page number below 2^44 with flag bits loses nothing.
pub proof fn lemma_pte_roundtrip(ppn: u64, flags: u8)
    requires
        ppn < PPN_LIMIT,
    ensures
        spec_pte_ppn(spec_pte_bits(ppn, flags)) == ppn,
        spec_pte_flags(spec_pte_bits(ppn, flags)) == flags,
        spec_pte_valid(spec_pte_bits(ppn, flags)) == (flags & PTE_V == PTE_V),
{
    let f = flags as u64;
    assert(ppn < 0x1000_0000_0000 && f < 256 ==> ((ppn << 10) | f) >> 10 == ppn)
        by (bit_vector);
    assert(ppn < 0x1000_0000_0000u64 ==> ppn & 0xfff_ffff_ffffu64 == ppn) by (bit_vector);
    assert(f < 256 ==> ((ppn << 10) | f) & 0xff == f) by (bit_vector);
    assert((((ppn << 10) | f) & 1 == 1) == (f & 1 == 1)) by (bit_vector);
    assert(f & 1 == ((flags & 1) as u64));
}

impl PageTableEntry {
    /// Build an entry from a page number and flag bits.
    pub fn new(ppn: PhysPageNum, flags: u8) -> (r: PageTableEntry)
        requires
            ppn.0 < PPN_LIMIT,
        ensures
            r.bits == spec_pte_bits(ppn.0, flags),
            r.ppn_spec() == ppn.0,
            r.flags_spec() == flags,
    {
        proof {
            lemma_pte_roundtrip(ppn.0, flags);
        }
        PageTableEntry { bits: (ppn.0 << 10) | flags as u64 }
    }

    /// The all-zero entry: invalid.
    pub fn empty() -> (r: PageTableEntry)
        ensures
            r.bits == 0,
            !r.valid_spec(),
    {
        proof {
            assert(0u64 & 1 == 0) by (bit_vector);
        }
        PageTableEntry { bits: 0 }
    }

    /// The page number this entry points at.
    pub open spec fn ppn_spec(self) -> u64 {
        spec_pte_ppn(self.bits)
    }

    /// The flag bits of this entry.
    pub open spec fn flags_spec(self) -> u8 {
        spec_pte_flags(self.bits)
    }

    /// Whether the Valid flag is set.
    pub open spec fn valid_spec(self) -> bool {
        spec_pte_valid(self.bits)
    }

    /// The page number this entry points at.
    pub fn ppn(self) -> (r: PhysPageNum)
        ensures
            r.0 == self.ppn_spec(),
    {
        PhysPageNum((self.bits >> 10) & 0xfff_ffff_ffff)
    }

    /// The flag bits of this entry.
    pub fn flags(self) -> (r: u8)
        ensures
            r == self.flags_spec(),
    {
        (self.bits & 0xff) as u8
    }

    /// Whether the Valid flag is set.
    pub fn is_valid(self) -> (r: bool)
        ensures
            r == self.valid_spec(),
    {
        self.bits & 1 == 1
    }

    /// Whether the Readable flag is set.
    pub fn readable(self) -> (r: bool)
        ensures
            r == (self.flags_spec() & PTE_R == PTE_R),
    {
        proof {
            let b = self.bits;
            assert((b & 2 == 2) == ((b & 0xff) as u8 & 2 == 2)) by (bit_vector);
        }
        self.bits & 2 == 2
    }

    /// Whether the Writable flag is set.
    pub fn writable(self) -> (r: bool)
        ensures
            r == (self.flags_spec() & PTE_W == PTE_W),
    {
        proof {
            let b = self.bits;
            assert((b & 4 == 4) == ((b & 0xff) as u8 & 4 == 4)) by (bit_vector);
        }
        self.bits & 4 == 4
    }

    /// Whether the eXecutable flag is set.
    pub fn executable(self) -> (r: bool)
        ensures
            r == (self.flags_spec() & PTE_X == PTE_X),
    {
        proof {
            let b = self.bits;
            assert((b & 8 == 8) == ((b & 0xff) as u8 & 8 == 8)) by (bit_vector);
        }
        self.bits & 8 == 8
    }

    /// Whether the User flag is set.
    pub fn user(self) -> (r: bool)
        ensures
            r == (self.flags_spec() & PTE_U == PTE_U),
    {
        proof {
            let b = self.bits;
            assert((b & 16 == 16) == ((b & 0xff) as u8 & 16 == 16)) by (bit_vector);
        }
        self.bits & 16 == 16
    }

    /// Whether the entry is a leaf: any of R, W, X set.
    pub fn is_leaf(self) -> (r: bool)
        ensures
            r == (self.flags_spec() & (PTE_R | PTE_W | PTE_X) != 0),
    {
        proof {
            let b = self.bits;
            assert((b & 14u64 != 0) == ((b & 0xffu64) as u8 & 14u8 != 0)) by (bit_vector);
            assert(PTE_R | PTE_W | PTE_X == 14u8) by (bit_vector);
        }
        self.bits & 14 != 0
    }
}

} // verus!
