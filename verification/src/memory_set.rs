//! Map areas and memory sets.
//!
//! A `MapArea` is a contiguous virtual region, optionally paired with an
//! equally long physical range (`Linear`) or backed by freshly allocated
//! frames it owns (`Framed`). A memory set is an ordered sequence of
//! areas plus the page table they are materialized in; the trampoline
//! page is mapped into every set at the top of the address space, with
//! R|X only, and belongs to no area.

use vstd::prelude::*;

use crate::addr::{vpn_key, PhysAddr, PhysPageNum, VPNRange, VirtAddr, VirtPageNum, PAGE_SIZE};
use crate::addr::PPNRange;
use crate::frame_allocator::{FrameTracker, StackFrameAllocator};
use crate::page_table::PageTableSv39;
use crate::pte::{spec_pte_bits, spec_pte_flags, PPN_LIMIT, PTE_V};

verus! {

/// How an area is backed: by fresh frames it owns, or by a caller-given
/// physical range.
#[derive(Clone, Copy, PartialEq, Eq, Structural, Debug)]
pub enum MapType {
    /// Fresh frames are allocated at map time and owned by the area.
    Framed,
    /// The caller supplies the physical backing.
    Linear,
}

/// The virtual address of the trampoline page: the top page of the
/// address space.
pub const TRAMPOLINE: u64 = 0xffff_ffff_ffff_f000;

/// The virtual address of the trap context page: one page below the
/// trampoline.
pub const TRAP_CONTEXT: u64 = 0xffff_ffff_ffff_e000;

/// The virtual page number of the trampoline page.
pub const TRAMP_VPN: u64 = 0xf_ffff_ffff_ffff;

/// The 27 index bits of the trampoline page number.
pub open spec fn tramp_key() -> u64 {
    vpn_key(TRAMP_VPN)
}

/// Whether some page number in `[start, end)` shares its 27 index bits
/// with `v`.
pub open spec fn range_has_key(start: u64, end: u64, v: u64) -> bool {
    exists|w: u64| start <= w < end && vpn_key(w) == vpn_key(v)
}

/// Distinct page numbers less than 2^27 apart have distinct index bits.
pub proof fn lemma_key_distinct(a: u64, b: u64)
    requires
        a < b,
        b - a < 0x800_0000,
    ensures
        vpn_key(a) != vpn_key(b),
{
    assert(a < b && b - a < 0x800_0000 ==> a & 0x7ff_ffff != b & 0x7ff_ffff) by (bit_vector);
}

/// Frames mapping the pages `[start, end)` can draw from the allocator:
/// one per page for a `Framed` backing, plus two interior tables per
/// 512-page boundary the range touches, with slack for the range ends.
pub open spec fn spec_area_frames(start: int, end: int, mt: MapType) -> int {
    (if mt == MapType::Framed {
        end - start
    } else {
        0
    }) + 2 * ((end - start) / 512) + 6
}

/// The 512-page boundaries a map of `[s, c)` crosses, counting the first
/// page.
pub open spec fn spec_boundaries(s: u64, c: u64) -> int {
    if c <= s {
        0
    } else {
        ((c - 1) as int / 512 - s as int / 512) + 1
    }
}

/// How dividing by 512 steps down across a decrement.
proof fn lemma_div512_step(c: u64)
    requires
        c >= 1,
    ensures
        c % 512 == 0 ==> (c - 1) as int / 512 == c as int / 512 - 1,
        c % 512 != 0 ==> (c - 1) as int / 512 == c as int / 512,
{
    let q = c as int / 512;
    let r = c as int % 512;
    vstd::arithmetic::div_mod::lemma_fundamental_div_mod(c as int, 512);
    if r == 0 {
        vstd::arithmetic::div_mod::lemma_fundamental_div_mod_converse(
            c as int - 1,
            512,
            q - 1,
            511,
        );
    } else {
        vstd::arithmetic::div_mod::lemma_fundamental_div_mod_converse(c as int - 1, 512, q, r - 1);
    }
}

/// Dividing a sum by 512 loses at most one against dividing the parts.
proof fn lemma_div512_sum(a: int, b: int)
    requires
        a >= 0,
        b >= 0,
    ensures
        (a + b) / 512 <= a / 512 + b / 512 + 1,
        (a + b) / 512 >= a / 512 + b / 512,
{
    vstd::arithmetic::div_mod::lemma_fundamental_div_mod(a, 512);
    vstd::arithmetic::div_mod::lemma_fundamental_div_mod(b, 512);
    let ra = a % 512;
    let rb = b % 512;
    if ra + rb < 512 {
        vstd::arithmetic::div_mod::lemma_fundamental_div_mod_converse(
            a + b,
            512,
            a / 512 + b / 512,
            ra + rb,
        );
    } else {
        vstd::arithmetic::div_mod::lemma_fundamental_div_mod_converse(
            a + b,
            512,
            a / 512 + b / 512 + 1,
            ra + rb - 512,
        );
    }
}

/// A contiguous virtual region with one backing and one permission set.
pub struct MapArea {
    /// The virtual page range the area covers.
    pub vpn_range: VPNRange,
    /// The physical range backing a `Linear` area.
    pub ppn_range: Option<PPNRange>,
    /// The frames a `Framed` area owns, each tagged with its page number.
    pub data_frames: Vec<(u64, FrameTracker)>,
    /// How the area is backed.
    pub map_type: MapType,
    /// The permission bits (R/W/X/U) every page of the area carries.
    pub map_perm: u8,
}

impl MapArea {
    /// Well-formed: an ordered range no longer than the 27-bit index
    /// space, and a `Linear` area has an equally long physical range
    /// that stays below the 44-bit page-number limit.
    pub open spec fn wf(self) -> bool {
        &&& self.vpn_range.start.0 <= self.vpn_range.end.0
        &&& self.vpn_range.end.0 - self.vpn_range.start.0 <= 0x800_0000
        &&& (self.map_type == MapType::Linear ==> (self.ppn_range matches Some(pr) && pr.start.0
            <= pr.end.0 && pr.end.0 - pr.start.0 == self.vpn_range.end.0 - self.vpn_range.start.0
            && pr.end.0 <= PPN_LIMIT))
    }

    /// Whether the area covers a virtual page number.
    pub open spec fn covers(self, v: u64) -> bool {
        self.vpn_range.start.0 <= v < self.vpn_range.end.0
    }

    /// Build an area over `[start_va, end_va)`; a physical range given
    /// with both bounds makes its backing explicit.
    pub fn new(
        start_va: VirtAddr,
        end_va: VirtAddr,
        start_pa: Option<PhysAddr>,
        end_pa: Option<PhysAddr>,
        map_type: MapType,
        map_perm: u8,
    ) -> (r: MapArea)
        ensures
            r.vpn_range.start.0 == start_va.0 / PAGE_SIZE as u64,
            r.vpn_range.end.0 == (end_va.0 + PAGE_SIZE - 1) / (PAGE_SIZE as int),
            r.map_type == map_type,
            r.map_perm == map_perm,
            r.data_frames.len() == 0,
            start_pa is Some && end_pa is Some ==> r.ppn_range is Some
                && r.ppn_range->Some_0.start.0 == start_pa->Some_0.0 / PAGE_SIZE as u64
                && r.ppn_range->Some_0.end.0 == (end_pa->Some_0.0 + PAGE_SIZE - 1) / (
            PAGE_SIZE as int),
            start_pa is None || end_pa is None ==> r.ppn_range is None,
    {
        let start_vpn: VirtPageNum = start_va.floor();
        let end_vpn: VirtPageNum = end_va.ceil();
        let ppn_range: Option<PPNRange> = match (start_pa, end_pa) {
            (Some(spa), Some(epa)) => Some(PPNRange::new(spa.floor(), epa.ceil())),
            _ => None,
        };
        MapArea {
            vpn_range: VPNRange::new(start_vpn, end_vpn),
            ppn_range,
            data_frames: Vec::new(),
            map_type,
            map_perm,
        }
    }

    /// Map one page of the area: a `Linear` page onto the given frame, a
    /// `Framed` page onto a fresh frame the area takes ownership of.
    pub fn map_one(
        &mut self,
        page_table: &mut PageTableSv39,
        vpn: VirtPageNum,
        ppn_arg: Option<PhysPageNum>,
        alloc: &mut StackFrameAllocator,
    )
        requires
            old(page_table).wf(),
            old(alloc).wf(),
            old(alloc).limit() <= PPN_LIMIT,
            old(alloc).avail() >= 2 + (if old(self).map_type == MapType::Framed {
                1int
            } else {
                0
            }) || (old(page_table).tables_ready(vpn.0) && old(alloc).avail() >= (
            if old(self).map_type == MapType::Framed {
                1int
            } else {
                0
            })),
            !old(page_table).mapped(vpn.0),
            old(self).map_type == MapType::Linear ==> (ppn_arg matches Some(p) && p.0 < PPN_LIMIT),
        ensures
            final(page_table).wf(),
            final(alloc).wf(),
            final(alloc).limit() == old(alloc).limit(),
            final(alloc).watermark() >= old(alloc).watermark(),
            forall|q: u64| final(alloc).is_free(q) ==> old(alloc).is_free(q),
            final(alloc).avail() >= old(alloc).avail() - 2 - (
            if old(self).map_type == MapType::Framed {
                1int
            } else {
                0
            }),
            old(page_table).tables_ready(vpn.0) ==> final(alloc).avail() >= old(alloc).avail() - (
            if old(self).map_type == MapType::Framed {
                1int
            } else {
                0
            }),
            final(page_table).tables_ready(vpn.0),
            forall|w: u64|
                old(page_table).tables_ready(w) ==> final(page_table).tables_ready(w),
            final(page_table).root() == old(page_table).root(),
            final(self).vpn_range == old(self).vpn_range,
            final(self).ppn_range == old(self).ppn_range,
            final(self).map_type == old(self).map_type,
            final(self).map_perm == old(self).map_perm,
            final(page_table).mapped(vpn.0),
            spec_pte_flags(final(page_table).pte_bits_for(vpn.0)) == old(self).map_perm | PTE_V,
            old(self).map_type == MapType::Linear ==> final(page_table).pte_bits_for(vpn.0)
                == spec_pte_bits(ppn_arg->Some_0.0, old(self).map_perm | PTE_V)
                && final(self).data_frames@ == old(self).data_frames@,
            old(self).map_type == MapType::Framed ==> final(self).data_frames@.len() == old(self).data_frames@.len() + 1 && final(self).data_frames@.subrange(
                0,
                old(self).data_frames@.len() as int,
            ) == old(self).data_frames@ && final(self).data_frames@.last().0 == vpn.0 && final(self).data_frames@.last().1.wf() && final(self).data_frames@.last().1.ppn.0
                == crate::pte::spec_pte_ppn(final(page_table).pte_bits_for(vpn.0)) && final(page_table).pte_bits_for(vpn.0) == spec_pte_bits(
                final(self).data_frames@.last().1.ppn.0,
                old(self).map_perm | PTE_V,
            ) && old(alloc).is_free(final(self).data_frames@.last().1.ppn.0) && !final(alloc).is_free(final(self).data_frames@.last().1.ppn.0) && final(self).data_frames@.last().1.ppn.0
                < final(alloc).watermark() && (forall|
                j: int
            |
                0 <= j < PAGE_SIZE ==> final(self).data_frames@.last().1.data@[j] == 0u8),
            forall|v2: u64|
                vpn_key(v2) != vpn_key(vpn.0) ==> #[trigger] final(page_table).pte_bits_for(v2)
                    == old(page_table).pte_bits_for(v2),
    {
        let ppn: PhysPageNum;
        match self.map_type {
            MapType::Linear => {
                ppn = ppn_arg.unwrap();
            },
            MapType::Framed => {
                let frame_ppn = alloc.alloc_frame().unwrap();
                let frame = FrameTracker::new(frame_ppn);
                ppn = frame.ppn;
                self.data_frames.push((vpn.0, frame));
                proof {
                    assert(self.data_frames@.subrange(0, old(self).data_frames@.len() as int)
                        =~= old(self).data_frames@);
                }
            },
        }
        let res = page_table.map(vpn, ppn, self.map_perm, alloc);
        proof {
            if old(page_table).tables_ready(vpn.0) {
                assert(res is Ok);
            } else {
                assert(old(alloc).avail() >= 2 + (if old(self).map_type == MapType::Framed {
                    1int
                } else {
                    0
                }));
                assert(res is Ok);
            }
            crate::pte::lemma_pte_roundtrip(ppn.0, self.map_perm | PTE_V);
        }
    }

    /// Unmap one page of the area; a `Framed` area releases the frame it
    /// held for that page back to the allocator.
    pub fn unmap_one(
        &mut self,
        page_table: &mut PageTableSv39,
        vpn: VirtPageNum,
        alloc: &mut StackFrameAllocator,
    )
        requires
            old(page_table).wf(),
            old(page_table).mapped(vpn.0),
            old(alloc).wf(),
            old(self).map_type == MapType::Framed ==> forall|i: int|
                0 <= i < old(self).data_frames@.len() ==> (#[trigger] old(self).data_frames@[i]).1.ppn.0
                    < old(alloc).watermark() && !old(alloc).is_free(
                    old(self).data_frames@[i].1.ppn.0,
                ),
        ensures
            final(page_table).wf(),
            final(page_table).root() == old(page_table).root(),
            !final(page_table).mapped(vpn.0),
            final(alloc).wf(),
            final(alloc).watermark() == old(alloc).watermark(),
            final(alloc).limit() == old(alloc).limit(),
            final(self).vpn_range == old(self).vpn_range,
            final(self).ppn_range == old(self).ppn_range,
            final(self).map_type == old(self).map_type,
            final(self).map_perm == old(self).map_perm,
            old(self).map_type == MapType::Linear ==> final(self).data_frames@ == old(self).data_frames@ && *final(alloc) == *old(alloc),
            old(self).map_type == MapType::Framed && (exists|j: int|
                0 <= j < old(self).data_frames@.len() && (#[trigger] old(self).data_frames@[j]).0
                    == vpn.0) ==> (exists|j: int|
                {
                    &&& 0 <= j < old(self).data_frames@.len()
                    &&& (#[trigger] old(self).data_frames@[j]).0 == vpn.0
                    &&& forall|k: int| 0 <= k < j ==> old(self).data_frames@[k].0 != vpn.0
                    &&& final(self).data_frames@ == old(self).data_frames@.remove(j)
                    &&& final(alloc).avail() == old(alloc).avail() + 1
                    &&& final(alloc).is_free(old(self).data_frames@[j].1.ppn.0)
                    &&& forall|q: u64|
                        q != old(self).data_frames@[j].1.ppn.0 ==> (final(alloc).is_free(q) <==> old(alloc).is_free(q))
                }),
            old(self).map_type == MapType::Framed && !(exists|j: int|
                0 <= j < old(self).data_frames@.len() && (#[trigger] old(self).data_frames@[j]).0
                    == vpn.0) ==> final(self).data_frames@ == old(self).data_frames@ && *final(alloc) == *old(alloc),
            forall|v2: u64|
                vpn_key(v2) != vpn_key(vpn.0) ==> #[trigger] final(page_table).pte_bits_for(v2)
                    == old(page_table).pte_bits_for(v2),
    {
        if matches!(self.map_type, MapType::Framed) {
            let mut i: usize = 0;
            let mut removed = false;
            while i < self.data_frames.len() && !removed
                invariant
                    old(self).map_type == MapType::Framed,
                    old(alloc).wf(),
                    forall|k: int|
                        0 <= k < old(self).data_frames@.len() ==> (#[trigger] old(self).data_frames@[k]).1.ppn.0
                            < old(alloc).watermark() && !old(alloc).is_free(
                            old(self).data_frames@[k].1.ppn.0,
                        ),
                    self.vpn_range == old(self).vpn_range,
                    self.ppn_range == old(self).ppn_range,
                    self.map_type == old(self).map_type,
                    self.map_perm == old(self).map_perm,
                    !removed ==> {
                        &&& self.data_frames@ == old(self).data_frames@
                        &&& *alloc == *old(alloc)
                        &&& i <= self.data_frames@.len()
                        &&& forall|k: int| 0 <= k < i ==> old(self).data_frames@[k].0 != vpn.0
                    },
                    removed ==> exists|j: int|
                        {
                            &&& 0 <= j < old(self).data_frames@.len()
                            &&& (#[trigger] old(self).data_frames@[j]).0 == vpn.0
                            &&& forall|k: int| 0 <= k < j ==> old(self).data_frames@[k].0 != vpn.0
                            &&& self.data_frames@ == old(self).data_frames@.remove(j)
                            &&& alloc.avail() == old(alloc).avail() + 1
                            &&& alloc.is_free(old(self).data_frames@[j].1.ppn.0)
                            &&& alloc.watermark() == old(alloc).watermark()
                            &&& alloc.limit() == old(alloc).limit()
                            &&& alloc.wf()
                            &&& forall|q: u64|
                                q != old(self).data_frames@[j].1.ppn.0 ==> (alloc.is_free(q)
                                    <==> old(alloc).is_free(q))
                        },
                decreases self.data_frames.len() - i + (if removed { 0int } else { 1int }),
            {
                if self.data_frames[i].0 == vpn.0 {
                    let entry = self.data_frames.remove(i);
                    alloc.dealloc_frame(entry.1.ppn);
                    proof {
                        let j = i as int;
                        assert(0 <= j < old(self).data_frames@.len() && old(self).data_frames@[j].0
                            == vpn.0 && (forall|k: int|
                            0 <= k < j ==> old(self).data_frames@[k].0 != vpn.0)
                            && self.data_frames@ == old(self).data_frames@.remove(j));
                    }
                    removed = true;
                } else {
                    i = i + 1;
                }
            }
        }
        let res = page_table.unmap(vpn);
        proof {
            assert(res is Ok);
        }
    }

    /// Materialize every page of the area in the page table.
    #[verifier::rlimit(60)]
    pub fn map(&mut self, page_table: &mut PageTableSv39, alloc: &mut StackFrameAllocator)
        requires
            old(self).wf(),
            old(page_table).wf(),
            old(alloc).wf(),
            old(alloc).limit() <= PPN_LIMIT,
            old(alloc).avail() >= spec_area_frames(
                old(self).vpn_range.start.0 as int,
                old(self).vpn_range.end.0 as int,
                old(self).map_type,
            ),
            forall|v: u64| old(self).covers(v) ==> !old(page_table).mapped(v),
            old(self).map_type == MapType::Framed ==> old(self).data_frames.len() == 0,
        ensures
            final(self).wf(),
            final(page_table).wf(),
            final(alloc).wf(),
            final(alloc).limit() == old(alloc).limit(),
            final(alloc).avail() >= old(alloc).avail() - spec_area_frames(
                old(self).vpn_range.start.0 as int,
                old(self).vpn_range.end.0 as int,
                old(self).map_type,
            ),
            final(page_table).root() == old(page_table).root(),
            final(self).vpn_range == old(self).vpn_range,
            final(self).ppn_range == old(self).ppn_range,
            final(self).map_type == old(self).map_type,
            final(self).map_perm == old(self).map_perm,
            forall|v: u64|
                old(self).covers(v) ==> #[trigger] final(page_table).mapped(v) && spec_pte_flags(
                    final(page_table).pte_bits_for(v),
                ) == old(self).map_perm | PTE_V,
            old(self).map_type == MapType::Linear ==> forall|v: u64|
                old(self).covers(v) ==> #[trigger] final(page_table).pte_bits_for(v)
                    == spec_pte_bits(
                    (old(self).ppn_range->Some_0.start.0 + (v - old(self).vpn_range.start.0)) as u64,
                    old(self).map_perm | PTE_V,
                ),
            old(self).map_type == MapType::Framed ==> final(self).data_frames@.len() == old(self).vpn_range.end.0 - old(self).vpn_range.start.0 && (forall|i: int|
                0 <= i < final(self).data_frames@.len() ==> (#[trigger] final(self).data_frames@[i]).0 == old(self).vpn_range.start.0 + i && final(self).data_frames@[i].1.wf()
                    && (forall|j: int|
                    0 <= j < PAGE_SIZE ==> final(self).data_frames@[i].1.data@[j] == 0u8) && final(page_table).pte_bits_for((old(self).vpn_range.start.0 + i) as u64) == spec_pte_bits(
                    final(self).data_frames@[i].1.ppn.0,
                    old(self).map_perm | PTE_V,
                ) && final(self).data_frames@[i].1.ppn.0 < final(alloc).watermark() && !final(alloc).is_free(final(self).data_frames@[i].1.ppn.0)) && (forall|i: int, i2: int|
                0 <= i < i2 < final(self).data_frames@.len() ==> (#[trigger] final(self).data_frames@[i]).1.ppn.0 != (#[trigger] final(self).data_frames@[i2]).1.ppn.0),
            forall|v2: u64|
                !range_has_key(old(self).vpn_range.start.0, old(self).vpn_range.end.0, v2)
                    ==> #[trigger] final(page_table).pte_bits_for(v2) == old(page_table).pte_bits_for(v2),
    {
        let start = self.vpn_range.get_start().0;
        let end = self.vpn_range.get_end().0;
        let mut cur: u64 = start;
        let ghost pt0 = *page_table;
        let ghost a0 = old(alloc).avail();
        while cur < end
            invariant
                start == old(self).vpn_range.start.0,
                end == old(self).vpn_range.end.0,
                pt0 == *old(page_table),
                a0 == old(alloc).avail(),
                a0 >= spec_area_frames(start as int, end as int, old(self).map_type),
                old(self).wf(),
                start <= cur <= end,
                self.wf(),
                page_table.wf(),
                alloc.wf(),
                alloc.limit() == old(alloc).limit(),
                alloc.limit() <= PPN_LIMIT,
                alloc.avail() >= a0 - (if old(self).map_type == MapType::Framed {
                    (cur - start) as int
                } else {
                    0
                }) - 2 * spec_boundaries(start, cur),
                cur > start ==> page_table.tables_ready((cur - 1) as u64),
                page_table.root() == pt0.root(),
                self.vpn_range == old(self).vpn_range,
                self.ppn_range == old(self).ppn_range,
                self.map_type == old(self).map_type,
                self.map_perm == old(self).map_perm,
                forall|v: u64|
                    start <= v < cur ==> #[trigger] page_table.mapped(v) && spec_pte_flags(
                        page_table.pte_bits_for(v),
                    ) == old(self).map_perm | PTE_V,
                old(self).map_type == MapType::Linear ==> forall|v: u64|
                    start <= v < cur ==> #[trigger] page_table.pte_bits_for(v) == spec_pte_bits(
                        (old(self).ppn_range->Some_0.start.0 + (v - start)) as u64,
                        old(self).map_perm | PTE_V,
                    ),
                forall|v: u64| cur <= v < end ==> !(#[trigger] page_table.mapped(v)),
                old(self).map_type == MapType::Framed ==> self.data_frames@.len() == cur - start
                    && (forall|i: int|
                    0 <= i < self.data_frames@.len() ==> (#[trigger] self.data_frames@[i]).0
                        == start + i && self.data_frames@[i].1.wf() && (forall|j: int|
                        0 <= j < PAGE_SIZE ==> self.data_frames@[i].1.data@[j] == 0u8)
                        && page_table.pte_bits_for((start + i) as u64) == spec_pte_bits(
                        self.data_frames@[i].1.ppn.0,
                        old(self).map_perm | PTE_V,
                    ) && self.data_frames@[i].1.ppn.0 < alloc.watermark() && !alloc.is_free(
                        self.data_frames@[i].1.ppn.0,
                    )) && (forall|i: int, i2: int|
                    0 <= i < i2 < self.data_frames@.len() ==> (#[trigger] self.data_frames@[i]).1.ppn.0
                        != (#[trigger] self.data_frames@[i2]).1.ppn.0),
                old(self).map_type == MapType::Linear ==> self.data_frames@ == old(self).data_frames@,
                forall|v2: u64|
                    !range_has_key(start, cur, v2) ==> #[trigger] page_table.pte_bits_for(v2)
                        == pt0.pte_bits_for(v2),
            decreases end - cur,
        {
            let ghost pt_before = *page_table;
            let ghost alloc_before = *alloc;
            proof {
                assert(forall|v: u64|
                    start <= v < cur ==> #[trigger] pt_before.mapped(v) && spec_pte_flags(
                        pt_before.pte_bits_for(v),
                    ) == (old(self).map_perm | PTE_V));
            }
            let ghost frames_before = self.data_frames@;
            let ghost fcost: int = if old(self).map_type == MapType::Framed {
                1
            } else {
                0
            };
            proof {
                // Budget: the boundaries crossed so far stay within the
                // allowance, so enough frames remain for this page.
                if cur > start {
                    lemma_div512_sum(start as int, (cur - 1 - start) as int);
                    vstd::arithmetic::div_mod::lemma_div_is_ordered(
                        (cur - 1 - start) as int,
                        (end - start) as int,
                        512,
                    );
                    assert(spec_boundaries(start, cur) <= (end - start) as int / 512 + 2);
                }
                if cur % 512 != 0 && cur > start {
                    assert(cur & 0x1ff != 0 ==> cur % 512 != 0 && (cur & 0x1ff == 0) == (cur % 512
                        == 0)) by (bit_vector);
                    assert(cur & 0x1ff != 0) by (bit_vector)
                        requires
                            cur % 512 != 0,
                    ;
                    page_table.lemma_tables_ready_neighbor(cur);
                }
            }
            let vpn = VirtPageNum(cur);
            let ppn_arg: Option<PhysPageNum> = match self.map_type {
                MapType::Linear => {
                    let pr = self.ppn_range.unwrap();
                    Some(PhysPageNum(pr.get_start().0 + (cur - start)))
                },
                MapType::Framed => None,
            };
            self.map_one(page_table, vpn, ppn_arg, alloc);
            proof {
                if cur > start {
                    lemma_div512_step(cur);
                }
                assert(spec_boundaries(start, (cur + 1) as u64) == spec_boundaries(start, cur) + (
                if cur == start || cur % 512 == 0 {
                    1int
                } else {
                    0
                }));
                assert forall|v: u64| start <= v < cur + 1 implies #[trigger] page_table.mapped(v)
                    && spec_pte_flags(page_table.pte_bits_for(v)) == (old(self).map_perm
                    | PTE_V) by {
                    if v < cur {
                        lemma_key_distinct(v, cur);
                        assert(pt_before.mapped(v) && spec_pte_flags(pt_before.pte_bits_for(v))
                            == (old(self).map_perm | PTE_V));
                        assert(page_table.pte_bits_for(v) == pt_before.pte_bits_for(v));
                    }
                }
                if old(self).map_type == MapType::Linear {
                    assert forall|v: u64| start <= v < cur + 1 implies #[trigger]
                        page_table.pte_bits_for(v) == spec_pte_bits(
                        (old(self).ppn_range->Some_0.start.0 + (v - start)) as u64,
                        old(self).map_perm | PTE_V,
                    ) by {
                        if v < cur {
                            lemma_key_distinct(v, cur);
                            assert(pt_before.pte_bits_for(v) == spec_pte_bits(
                                (old(self).ppn_range->Some_0.start.0 + (v - start)) as u64,
                                old(self).map_perm | PTE_V,
                            ));
                            assert(page_table.pte_bits_for(v) == pt_before.pte_bits_for(v));
                        }
                    }
                }
                assert forall|v: u64| cur + 1 <= v < end implies !(#[trigger] page_table.mapped(
                    v,
                )) by {
                    lemma_key_distinct(cur, v);
                    assert(!pt_before.mapped(v));
                    assert(page_table.pte_bits_for(v) == pt_before.pte_bits_for(v));
                }
                if self.map_type == MapType::Framed {
                    assert forall|i: int|
                        0 <= i < self.data_frames@.len() implies (#[trigger] self.data_frames@[i]).0
                        == start + i && self.data_frames@[i].1.wf() && (forall|j: int|
                        0 <= j < PAGE_SIZE ==> self.data_frames@[i].1.data@[j] == 0u8)
                        && page_table.pte_bits_for((start + i) as u64) == spec_pte_bits(
                        self.data_frames@[i].1.ppn.0,
                        old(self).map_perm | PTE_V,
                    ) && self.data_frames@[i].1.ppn.0 < alloc.watermark() && !alloc.is_free(
                        self.data_frames@[i].1.ppn.0,
                    ) by {
                        if i < frames_before.len() {
                            assert(self.data_frames@[i] == self.data_frames@.subrange(
                                0,
                                frames_before.len() as int,
                            )[i]);
                            assert(self.data_frames@[i] == frames_before[i]);
                            lemma_key_distinct((start + i) as u64, cur);
                            assert(page_table.pte_bits_for((start + i) as u64)
                                == pt_before.pte_bits_for((start + i) as u64));
                        }
                    }
                    assert forall|i: int, i2: int|
                        0 <= i < i2 < self.data_frames@.len() implies (#[trigger] self.data_frames@[i]).1.ppn.0
                        != (#[trigger] self.data_frames@[i2]).1.ppn.0 by {
                        if i2 < frames_before.len() {
                            assert(self.data_frames@[i] == frames_before[i]);
                            assert(self.data_frames@[i2] == frames_before[i2]);
                        } else {
                            assert(self.data_frames@[i] == frames_before[i]);
                            assert(alloc_before.is_free(self.data_frames@[i2].1.ppn.0));
                            assert(!alloc_before.is_free(self.data_frames@[i].1.ppn.0));
                        }
                    }
                }
                assert forall|v2: u64| !range_has_key(start, (cur + 1) as u64, v2) implies
                    #[trigger] page_table.pte_bits_for(v2) == pt0.pte_bits_for(v2) by {
                    assert(vpn_key(v2) != vpn_key(cur)) by {
                        if vpn_key(v2) == vpn_key(cur) {
                            assert(start <= cur < cur + 1 && vpn_key(cur) == vpn_key(v2));
                        }
                    }
                    assert(!range_has_key(start, cur, v2)) by {
                        if range_has_key(start, cur, v2) {
                            let w = choose|w: u64|
                                start <= w < cur && vpn_key(w) == vpn_key(v2);
                            assert(start <= w < cur + 1 && vpn_key(w) == vpn_key(v2));
                        }
                    }
                }
            }
            cur = cur + 1;
        }
    }

    /// Remove every page of the area from the page table; a `Framed`
    /// area sheds its bookkeeping entries and returns every frame it
    /// owned to the allocator.
    pub fn unmap(
        &mut self,
        page_table: &mut PageTableSv39,
        alloc: &mut StackFrameAllocator,
    )
        requires
            old(self).wf(),
            old(page_table).wf(),
            old(alloc).wf(),
            forall|v: u64| old(self).covers(v) ==> old(page_table).mapped(v),
            old(self).map_type == MapType::Framed ==> old(self).data_frames@.len() == old(self).vpn_range.end.0 - old(self).vpn_range.start.0 && (forall|i: int|
                0 <= i < old(self).data_frames@.len() ==> (#[trigger] old(self).data_frames@[i]).0
                    == old(self).vpn_range.start.0 + i && old(self).data_frames@[i].1.ppn.0 < old(alloc).watermark() && !old(alloc).is_free(
                    old(self).data_frames@[i].1.ppn.0,
                )) && (forall|i: int, i2: int|
                0 <= i < i2 < old(self).data_frames@.len() ==> (#[trigger] old(self).data_frames@[i]).1.ppn.0 != (#[trigger] old(self).data_frames@[i2]).1.ppn.0),
        ensures
            final(page_table).wf(),
            final(page_table).root() == old(page_table).root(),
            final(alloc).wf(),
            final(alloc).watermark() == old(alloc).watermark(),
            final(alloc).limit() == old(alloc).limit(),
            final(self).vpn_range == old(self).vpn_range,
            final(self).map_type == old(self).map_type,
            forall|v: u64| old(self).covers(v) ==> !(#[trigger] final(page_table).mapped(v)),
            old(self).map_type == MapType::Linear ==> final(self).data_frames@ == old(self).data_frames@ && *final(alloc) == *old(alloc),
            old(self).map_type == MapType::Framed ==> final(self).data_frames@.len() == 0 && final(alloc).avail() == old(alloc).avail() + (old(self).vpn_range.end.0 - old(self).vpn_range.start.0) && (forall|i: int|
                0 <= i < old(self).data_frames@.len() ==> final(alloc).is_free(
                    (#[trigger] old(self).data_frames@[i]).1.ppn.0,
                )),
            forall|v2: u64|
                !range_has_key(old(self).vpn_range.start.0, old(self).vpn_range.end.0, v2)
                    ==> #[trigger] final(page_table).pte_bits_for(v2) == old(page_table).pte_bits_for(v2),
    {
        let start = self.vpn_range.get_start().0;
        let end = self.vpn_range.get_end().0;
        let mut cur: u64 = start;
        let ghost pt0 = *page_table;
        let ghost oldf = old(self).data_frames@;
        let ghost a0 = old(alloc).avail();
        while cur < end
            invariant
                start == old(self).vpn_range.start.0,
                end == old(self).vpn_range.end.0,
                pt0 == *old(page_table),
                oldf == old(self).data_frames@,
                a0 == old(alloc).avail(),
                old(self).wf(),
                start <= cur <= end,
                page_table.wf(),
                alloc.wf(),
                alloc.watermark() == old(alloc).watermark(),
                alloc.limit() == old(alloc).limit(),
                page_table.root() == pt0.root(),
                self.vpn_range == old(self).vpn_range,
                self.map_type == old(self).map_type,
                old(self).map_type == MapType::Linear ==> self.data_frames@ == oldf && *alloc
                    == *old(alloc),
                old(self).map_type == MapType::Framed ==> {
                    &&& oldf.len() == end - start
                    &&& forall|i: int| 0 <= i < oldf.len() ==> (#[trigger] oldf[i]).0 == start + i
                    &&& forall|i: int, i2: int|
                        0 <= i < i2 < oldf.len() ==> (#[trigger] oldf[i]).1.ppn.0
                            != (#[trigger] oldf[i2]).1.ppn.0
                    &&& self.data_frames@ == oldf.subrange((cur - start) as int, oldf.len() as int)
                    &&& alloc.avail() == a0 + (cur - start)
                    &&& forall|i: int|
                        0 <= i < cur - start ==> alloc.is_free((#[trigger] oldf[i]).1.ppn.0)
                    &&& forall|i: int|
                        cur - start <= i < oldf.len() ==> (#[trigger] oldf[i]).1.ppn.0
                            < alloc.watermark() && !alloc.is_free(oldf[i].1.ppn.0)
                },
                forall|v: u64| start <= v < cur ==> !(#[trigger] page_table.mapped(v)),
                forall|v: u64| cur <= v < end ==> #[trigger] page_table.mapped(v),
                forall|v2: u64|
                    !range_has_key(start, cur, v2) ==> #[trigger] page_table.pte_bits_for(v2)
                        == pt0.pte_bits_for(v2),
            decreases end - cur,
        {
            let ghost pt_before = *page_table;
            let ghost frames_cur = self.data_frames@;
            let ghost alloc_cur = *alloc;
            let vpn = VirtPageNum(cur);
            proof {
                if old(self).map_type == MapType::Framed {
                    assert(frames_cur[0] == oldf[(cur - start) as int]);
                    assert(oldf[(cur - start) as int].0 == start + (cur - start));
                    assert(frames_cur[0].0 == cur);
                    assert forall|i: int|
                        0 <= i < frames_cur.len() implies (#[trigger] frames_cur[i]).1.ppn.0
                        < alloc.watermark() && !alloc.is_free(frames_cur[i].1.ppn.0) by {
                        assert(frames_cur[i] == oldf[(cur - start) as int + i]);
                    }
                }
            }
            self.unmap_one(page_table, vpn, alloc);
            proof {
                if old(self).map_type == MapType::Framed {
                    assert(frames_cur[0].0 == cur);
                    assert(exists|j: int|
                        0 <= j < frames_cur.len() && (#[trigger] frames_cur[j]).0 == vpn.0);
                    let j = choose|j: int|
                        {
                            &&& 0 <= j < frames_cur.len()
                            &&& (#[trigger] frames_cur[j]).0 == vpn.0
                            &&& forall|k: int| 0 <= k < j ==> frames_cur[k].0 != vpn.0
                            &&& self.data_frames@ == frames_cur.remove(j)
                            &&& alloc.avail() == alloc_cur.avail() + 1
                            &&& alloc.is_free(frames_cur[j].1.ppn.0)
                            &&& forall|q: u64|
                                q != frames_cur[j].1.ppn.0 ==> (alloc.is_free(q)
                                    <==> alloc_cur.is_free(q))
                        };
                    assert(j == 0);
                    assert(self.data_frames@ =~= oldf.subrange(
                        (cur + 1 - start) as int,
                        oldf.len() as int,
                    ));
                    assert forall|i: int|
                        0 <= i < cur + 1 - start implies alloc.is_free(
                        (#[trigger] oldf[i]).1.ppn.0,
                    ) by {
                        if i < cur - start {
                            assert(frames_cur[0] == oldf[(cur - start) as int]);
                            assert(oldf[i].1.ppn.0 != oldf[(cur - start) as int].1.ppn.0);
                        } else {
                            assert(oldf[i] == frames_cur[0]);
                        }
                    }
                    assert forall|i: int|
                        cur + 1 - start <= i < oldf.len() implies (#[trigger] oldf[i]).1.ppn.0
                        < alloc.watermark() && !alloc.is_free(oldf[i].1.ppn.0) by {
                        assert(frames_cur[0] == oldf[(cur - start) as int]);
                        assert(oldf[i].1.ppn.0 != oldf[(cur - start) as int].1.ppn.0);
                    }
                }
                assert forall|v: u64| start <= v < cur + 1 implies !(#[trigger] page_table.mapped(
                    v,
                )) by {
                    if v < cur {
                        lemma_key_distinct(v, cur);
                        assert(!pt_before.mapped(v));
                        assert(page_table.pte_bits_for(v) == pt_before.pte_bits_for(v));
                    }
                }
                assert forall|v: u64| cur + 1 <= v < end implies #[trigger] page_table.mapped(
                    v,
                ) by {
                    lemma_key_distinct(cur, v);
                    assert(pt_before.mapped(v));
                    assert(page_table.pte_bits_for(v) == pt_before.pte_bits_for(v));
                }
                assert forall|v2: u64| !range_has_key(start, (cur + 1) as u64, v2) implies
                    #[trigger] page_table.pte_bits_for(v2) == pt0.pte_bits_for(v2) by {
                    assert(vpn_key(v2) != vpn_key(cur)) by {
                        if vpn_key(v2) == vpn_key(cur) {
                            assert(start <= cur < cur + 1 && vpn_key(cur) == vpn_key(v2));
                        }
                    }
                    assert(!range_has_key(start, cur, v2)) by {
                        if range_has_key(start, cur, v2) {
                            let w = choose|w: u64|
                                start <= w < cur && vpn_key(w) == vpn_key(v2);
                            assert(start <= w < cur + 1 && vpn_key(w) == vpn_key(v2));
                        }
                    }
                }
            }
            cur = cur + 1;
        }
    }

    /// Copy a payload into the frames of a `Framed` area, page by page;
    /// the payload may be shorter than the area and the tail of each
    /// frame keeps its previous bytes.
    pub fn copy_data(&mut self, data: &Vec<u8>)
        requires
            old(self).wf(),
            old(self).map_type == MapType::Framed,
            old(self).data_frames@.len() == old(self).vpn_range.end.0 - old(self).vpn_range.start.0,
            forall|i: int|
                0 <= i < old(self).data_frames@.len() ==> (#[trigger] old(self).data_frames@[i]).1.wf(),
            data@.len() <= (old(self).vpn_range.end.0 - old(self).vpn_range.start.0) * (
            PAGE_SIZE as int),
        ensures
            final(self).vpn_range == old(self).vpn_range,
            final(self).ppn_range == old(self).ppn_range,
            final(self).map_type == old(self).map_type,
            final(self).map_perm == old(self).map_perm,
            final(self).data_frames@.len() == old(self).data_frames@.len(),
            forall|i: int|
                0 <= i < final(self).data_frames@.len() ==> (#[trigger] final(self).data_frames@[i]).0 == old(self).data_frames@[i].0 && final(self).data_frames@[i].1.ppn == old(self).data_frames@[i].1.ppn && final(self).data_frames@[i].1.wf(),
            forall|off: int|
                0 <= off < data@.len() ==> #[trigger] final(self).data_frames@[off / (
                PAGE_SIZE as int)].1.data@[off % (PAGE_SIZE as int)] == data@[off],
            forall|i: int, j: int|
                0 <= i < final(self).data_frames@.len() && 0 <= j < PAGE_SIZE && i * (
                PAGE_SIZE as int) + j >= data@.len() ==> #[trigger] final(self).data_frames@[i].1.data@[j] == old(self).data_frames@[i].1.data@[j],
    {
        let len = data.len();
        let mut off: usize = 0;
        while off < len
            invariant
                len == data@.len(),
                off <= len,
                old(self).wf(),
                old(self).map_type == MapType::Framed,
                self.vpn_range == old(self).vpn_range,
                self.ppn_range == old(self).ppn_range,
                self.map_type == old(self).map_type,
                self.map_perm == old(self).map_perm,
                self.data_frames@.len() == old(self).data_frames@.len(),
                data@.len() <= self.data_frames@.len() * (PAGE_SIZE as int),
                forall|i: int|
                    0 <= i < self.data_frames@.len() ==> (#[trigger] self.data_frames@[i]).0
                        == old(self).data_frames@[i].0 && self.data_frames@[i].1.ppn == old(self).data_frames@[i].1.ppn && self.data_frames@[i].1.wf(),
                forall|o: int|
                    0 <= o < off ==> #[trigger] self.data_frames@[o / (PAGE_SIZE as int)].1.data@[o
                        % (PAGE_SIZE as int)] == data@[o],
                forall|i: int, j: int|
                    0 <= i < self.data_frames@.len() && 0 <= j < PAGE_SIZE && i * (
                    PAGE_SIZE as int) + j >= off ==> #[trigger] self.data_frames@[i].1.data@[j]
                        == old(self).data_frames@[i].1.data@[j],
            decreases len - off,
        {
            let page: usize = off / (PAGE_SIZE as usize);
            let inner: usize = off % (PAGE_SIZE as usize);
            proof {
                assert(0 <= page < self.data_frames@.len()) by (nonlinear_arith)
                    requires
                        page == off as int / (PAGE_SIZE as int),
                        0 <= off < len,
                        len <= self.data_frames@.len() * (PAGE_SIZE as int),
                        PAGE_SIZE == 0x1000,
                ;
                assert(inner < PAGE_SIZE);
                assert(page * (PAGE_SIZE as int) + inner == off) by (nonlinear_arith)
                    requires
                        page == off as int / (PAGE_SIZE as int),
                        inner == off as int % (PAGE_SIZE as int),
                        PAGE_SIZE == 0x1000,
                        off >= 0,
                ;
            }
            let b = data[off];
            let entry = &mut self.data_frames[page];
            entry.1.data[inner] = b;
            proof {
                assert forall|i: int, j: int|
                    0 <= i < self.data_frames@.len() && 0 <= j < PAGE_SIZE && i * (
                    PAGE_SIZE as int) + j >= off + 1 implies #[trigger] self.data_frames@[i].1.data@[j]
                    == old(self).data_frames@[i].1.data@[j] by {
                    if i == page as int && j == inner as int {
                        assert(i * (PAGE_SIZE as int) + j == off);
                    }
                }
                assert forall|o: int|
                    0 <= o < off + 1 implies #[trigger] self.data_frames@[o / (
                PAGE_SIZE as int)].1.data@[o % (PAGE_SIZE as int)] == data@[o] by {
                    if o < off {
                        if o / (PAGE_SIZE as int) == page as int && o % (PAGE_SIZE as int)
                            == inner as int {
                            assert(o == page as int * (PAGE_SIZE as int) + o % (PAGE_SIZE as int))
                                by (nonlinear_arith)
                                requires
                                    o / (PAGE_SIZE as int) == page as int,
                                    o >= 0,
                                    PAGE_SIZE == 0x1000,
                            ;
                            assert(false);
                        }
                    }
                }
            }
            off = off + 1;
        }
    }
}

} // verus!
