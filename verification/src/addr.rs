//! Physical and virtual addresses, page numbers, and page-number ranges.
//!
//! An Sv39 virtual address is 39 bits wide and a physical address 56 bits;
//! a page is 4 KiB, so a page number is the address shifted right by 12.
//! Page tables are indexed by the three 9-bit groups of a virtual page
//! number. Addresses and page numbers are carried as `u64`, the machine
//! word of the RV64 targets this design runs on.

use vstd::prelude::*;

verus! {

/// Bytes in one page.
pub const PAGE_SIZE: u64 = 0x1000;
/// log2 of the page size.
pub const PAGE_SIZE_BITS: u64 = 12;
/// Number of 9-bit index groups in an Sv39 virtual page number.
pub const VPN_INDEX_BITS: u64 = 27;

/// A physical address.
#[derive(Clone, Copy, PartialEq, Eq, Structural, Debug)]
pub struct PhysAddr(pub u64);

/// A virtual address.
#[derive(Clone, Copy, PartialEq, Eq, Structural, Debug)]
pub struct VirtAddr(pub u64);

/// A physical page number: a physical address shifted right by 12.
#[derive(Clone, Copy, PartialEq, Eq, Structural, Debug)]
pub struct PhysPageNum(pub u64);

/// A virtual page number: a virtual address shifted right by 12.
#[derive(Clone, Copy, PartialEq, Eq, Structural, Debug)]
pub struct VirtPageNum(pub u64);

impl PhysAddr {
    /// The page number of the page holding this address.
    pub fn floor(self) -> (r: PhysPageNum)
        ensures
            r.0 == self.0 / PAGE_SIZE as u64,
    {
        PhysPageNum(self.0 / PAGE_SIZE)
    }

    /// The lowest page number whose page starts at or above this address.
    pub fn ceil(self) -> (r: PhysPageNum)
        ensures
            r.0 == (self.0 + PAGE_SIZE - 1) / (PAGE_SIZE as int),
    {
        if self.0 % PAGE_SIZE == 0 {
            PhysPageNum(self.0 / PAGE_SIZE)
        } else {
            PhysPageNum(self.0 / PAGE_SIZE + 1)
        }
    }

    /// The offset of this address inside its page.
    pub fn page_offset(self) -> (r: u64)
        ensures
            r == self.0 % PAGE_SIZE as u64,
    {
        self.0 % PAGE_SIZE
    }
}

impl VirtAddr {
    /// The page number of the page holding this address.
    pub fn floor(self) -> (r: VirtPageNum)
        ensures
            r.0 == self.0 / PAGE_SIZE as u64,
    {
        VirtPageNum(self.0 / PAGE_SIZE)
    }

    /// The lowest page number whose page starts at or above this address.
    pub fn ceil(self) -> (r: VirtPageNum)
        ensures
            r.0 == (self.0 + PAGE_SIZE - 1) / (PAGE_SIZE as int),
    {
        if self.0 % PAGE_SIZE == 0 {
            VirtPageNum(self.0 / PAGE_SIZE)
        } else {
            VirtPageNum(self.0 / PAGE_SIZE + 1)
        }
    }

    /// The offset of this address inside its page.
    pub fn page_offset(self) -> (r: u64)
        ensures
            r == self.0 % PAGE_SIZE as u64,
    {
        self.0 % PAGE_SIZE
    }
}

/// The 27 low bits of a virtual page number: the part an Sv39 walk reads.
pub open spec fn vpn_key(vpn: u64) -> u64 {
    (vpn & 0x7ff_ffff) as u64
}

/// The three 9-bit page-table indexes of a virtual page number, highest
/// level first.
pub open spec fn spec_indexes(vpn: u64) -> (u64, u64, u64) {
    (((vpn >> 18) & 0x1ff) as u64, ((vpn >> 9) & 0x1ff) as u64, (vpn & 0x1ff) as u64)
}

/// Two virtual page numbers with the same three indexes have the same key.
pub proof fn lemma_indexes_injective(a: u64, b: u64)
    requires
        spec_indexes(a) == spec_indexes(b),
    ensures
        vpn_key(a) == vpn_key(b),
{
    assert((a >> 18) & 0x1ff == (b >> 18) & 0x1ff && (a >> 9) & 0x1ff == (b >> 9) & 0x1ff && a
        & 0x1ff == b & 0x1ff ==> a & 0x7ff_ffff == b & 0x7ff_ffff) by (bit_vector);
}

/// Index bounds: each of the three indexes is below 512.
pub proof fn lemma_indexes_bounded(vpn: u64)
    ensures
        spec_indexes(vpn).0 < 512,
        spec_indexes(vpn).1 < 512,
        spec_indexes(vpn).2 < 512,
{
    assert((vpn >> 18) & 0x1ff < 512 && (vpn >> 9) & 0x1ff < 512 && vpn & 0x1ff < 512)
        by (bit_vector);
}

/// Equal keys give equal indexes.
pub proof fn lemma_key_indexes(a: u64, b: u64)
    requires
        vpn_key(a) == vpn_key(b),
    ensures
        spec_indexes(a) == spec_indexes(b),
{
    assert(a & 0x7ff_ffff == b & 0x7ff_ffff ==> (a >> 18) & 0x1ff == (b >> 18) & 0x1ff && (a >> 9)
        & 0x1ff == (b >> 9) & 0x1ff && a & 0x1ff == b & 0x1ff) by (bit_vector);
}

impl VirtPageNum {
    /// The three page-table indexes of this page number, highest level
    /// first.
    pub fn indexes(self) -> (r: (u64, u64, u64))
        ensures
            r == spec_indexes(self.0),
            r.0 < 512,
            r.1 < 512,
            r.2 < 512,
    {
        proof {
            lemma_indexes_bounded(self.0);
        }
        (((self.0 >> 18) & 0x1ff), ((self.0 >> 9) & 0x1ff), (self.0 & 0x1ff))
    }

    /// The 27 low bits of this page number.
    pub fn key(self) -> (r: u64)
        ensures
            r == vpn_key(self.0),
    {
        self.0 & 0x7ff_ffff
    }

    /// Step to the next page number.
    pub fn step(&mut self)
        requires
            old(self).0 < u64::MAX,
        ensures
            final(self).0 == old(self).0 + 1,
    {
        self.0 = self.0 + 1;
    }
}

impl PhysPageNum {
    /// Step to the next page number.
    pub fn step(&mut self)
        requires
            old(self).0 < u64::MAX,
        ensures
            final(self).0 == old(self).0 + 1,
    {
        self.0 = self.0 + 1;
    }
}

/// A half-open range of virtual page numbers.
#[derive(Clone, Copy, PartialEq, Eq, Structural, Debug)]
pub struct VPNRange {
    pub start: VirtPageNum,
    pub end: VirtPageNum,
}

/// A half-open range of physical page numbers.
#[derive(Clone, Copy, PartialEq, Eq, Structural, Debug)]
pub struct PPNRange {
    pub start: PhysPageNum,
    pub end: PhysPageNum,
}

impl VPNRange {
    /// Build the half-open range `[start, end)`.
    pub fn new(start: VirtPageNum, end: VirtPageNum) -> (r: VPNRange)
        ensures
            r.start == start,
            r.end == end,
    {
        VPNRange { start, end }
    }

    /// First page number of the range.
    pub fn get_start(self) -> (r: VirtPageNum)
        ensures
            r == self.start,
    {
        self.start
    }

    /// One past the last page number of the range.
    pub fn get_end(self) -> (r: VirtPageNum)
        ensures
            r == self.end,
    {
        self.end
    }

    /// Whether a page number lies inside the range.
    pub open spec fn spec_contains(self, vpn: u64) -> bool {
        self.start.0 <= vpn < self.end.0
    }

    /// Whether a page number lies inside the range.
    pub fn contains(self, vpn: VirtPageNum) -> (r: bool)
        ensures
            r == self.spec_contains(vpn.0),
    {
        self.start.0 <= vpn.0 && vpn.0 < self.end.0
    }
}

impl PPNRange {
    /// Build the half-open range `[start, end)`.
    pub fn new(start: PhysPageNum, end: PhysPageNum) -> (r: PPNRange)
        ensures
            r.start == start,
            r.end == end,
    {
        PPNRange { start, end }
    }

    /// First page number of the range.
    pub fn get_start(self) -> (r: PhysPageNum)
        ensures
            r == self.start,
    {
        self.start
    }

    /// One past the last page number of the range.
    pub fn get_end(self) -> (r: PhysPageNum)
        ensures
            r == self.end,
    {
        self.end
    }
}

} // verus!
