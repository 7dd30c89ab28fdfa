//! Memory sets: ordered collections of map areas over one page table.
//!
//! `HostMemorySet` is the first-stage map of the hypervisor itself:
//! kernel sections, the trap-context page, host-reachable MMIO, and a
//! linear window over guest physical memory. `GuestMemorySet` is the
//! G-stage map of one guest: its RAM, DTB page and pass-through MMIO,
//! every leaf carrying the U bit. Both map the trampoline page at the
//! top of the address space with R|X only.
//!
//! The central invariant: a virtual page translates iff some area covers
//! it (or it is the trampoline page), and the leaf flags are exactly the
//! covering area's permission plus Valid.

use vstd::prelude::*;

use crate::addr::{vpn_key, PhysAddr, PhysPageNum, PPNRange, VirtAddr, VirtPageNum, PAGE_SIZE};
use crate::frame_allocator::StackFrameAllocator;
use crate::memory_set::{range_has_key, spec_area_frames, tramp_key, MapArea, MapType, TRAMPOLINE, TRAMP_VPN, TRAP_CONTEXT};
use crate::page_table::PageTableSv39;
use crate::pte::{
    spec_pte_bits, spec_pte_flags, PageTableEntry, PPN_LIMIT, PTE_R, PTE_U, PTE_V, PTE_W, PTE_X,
};

verus! {

/// The virtual page number of the trap-context page.
pub const TRAP_CONTEXT_VPN: u64 = 0xf_ffff_ffff_fffe;

/// Page numbers below 2^26 are their own walk key.
pub proof fn lemma_small_key(v: u64)
    requires
        v < 0x400_0000,
    ensures
        vpn_key(v) == v,
{
    assert(v < 0x400_0000 ==> v & 0x7ff_ffff == v) by (bit_vector);
}

/// A key is its own key, and never exceeds the 27-bit mask.
pub proof fn lemma_key_idem(v: u64)
    ensures
        vpn_key(vpn_key(v)) == vpn_key(v),
        vpn_key(v) <= 0x7ff_ffff,
{
    assert((v & 0x7ff_ffff) & 0x7ff_ffff == v & 0x7ff_ffff && v & 0x7ff_ffff <= 0x7ff_ffff)
        by (bit_vector);
}

/// The keys of the trampoline and trap-context pages, and of any page
/// number below 2^26, are pairwise distinct.
pub proof fn lemma_special_keys(v: u64)
    requires
        v < 0x400_0000,
    ensures
        vpn_key(v) != tramp_key(),
        vpn_key(v) != vpn_key(TRAP_CONTEXT_VPN),
        tramp_key() != vpn_key(TRAP_CONTEXT_VPN),
        vpn_key(TRAMP_VPN) == 0x7ff_ffff,
        vpn_key(TRAP_CONTEXT_VPN) == 0x7ff_fffe,
{
    lemma_small_key(v);
    assert(0xf_ffff_ffff_ffffu64 & 0x7ff_ffff == 0x7ff_ffff && 0xf_ffff_ffff_fffeu64 & 0x7ff_ffff
        == 0x7ff_fffe && v < 0x400_0000 ==> v != 0x7ff_ffff && v != 0x7ff_fffe) by (bit_vector);
    assert(0xf_ffff_ffff_ffffu64 & 0x7ff_ffff == 0x7ff_ffff) by (bit_vector);
    assert(0xf_ffff_ffff_fffeu64 & 0x7ff_ffff == 0x7ff_fffe) by (bit_vector);
}

/// Whether some area of the sequence covers a page sharing its walk key
/// with `v`.
pub open spec fn covered_key(areas: Seq<MapArea>, v: u64) -> bool {
    exists|i: int, w: u64|
        #![trigger areas[i].vpn_range, vpn_key(w)]
        0 <= i < areas.len() && areas[i].vpn_range.start.0 <= w < areas[i].vpn_range.end.0
            && vpn_key(w) == vpn_key(v)
}

/// The memory-set invariant over a page table and its areas: every page
/// of every area is mapped with the area's permission plus Valid, and
/// nothing else is mapped except the trampoline page.
pub open spec fn ms_inv(pt: PageTableSv39, areas: Seq<MapArea>) -> bool {
    &&& pt.wf()
    &&& forall|i: int| 0 <= i < areas.len() ==> (#[trigger] areas[i]).wf()
    &&& forall|i: int, v: u64|
        #![trigger areas[i], pt.mapped(v)]
        0 <= i < areas.len() && areas[i].covers(v) ==> pt.mapped(v) && spec_pte_flags(
            pt.pte_bits_for(v),
        ) == areas[i].map_perm | PTE_V
    &&& forall|v: u64|
        #[trigger] pt.mapped(v) ==> vpn_key(v) == tramp_key() || covered_key(areas, v)
}

/// A push of `area` into `pt` preserves the invariant.
proof fn lemma_push_inv(
    pt0: PageTableSv39,
    pt1: PageTableSv39,
    areas: Seq<MapArea>,
    area0: MapArea,
    area1: MapArea,
)
    requires
        ms_inv(pt0, areas),
        pt1.wf(),
        area1.wf(),
        area1.vpn_range == area0.vpn_range,
        area1.map_perm == area0.map_perm,
        forall|v: u64|
            area0.covers(v) ==> #[trigger] pt1.mapped(v) && spec_pte_flags(pt1.pte_bits_for(v))
                == area0.map_perm | PTE_V,
        forall|v2: u64|
            !range_has_key(area0.vpn_range.start.0, area0.vpn_range.end.0, v2)
                ==> #[trigger] pt1.pte_bits_for(v2) == pt0.pte_bits_for(v2),
        forall|v: u64| area0.covers(v) ==> !pt0.mapped(v),
    ensures
        ms_inv(pt1, areas.push(area1)),
{
    let newareas = areas.push(area1);
    assert forall|i: int, v: u64|
        #![trigger newareas[i], pt1.mapped(v)]
        0 <= i < newareas.len() && newareas[i].covers(v) implies pt1.mapped(v) && spec_pte_flags(
        pt1.pte_bits_for(v),
    ) == newareas[i].map_perm | PTE_V by {
        if i < areas.len() {
            assert(newareas[i] == areas[i]);
            assert(areas[i].covers(v));
            assert(pt0.mapped(v));
            assert(!range_has_key(area0.vpn_range.start.0, area0.vpn_range.end.0, v)) by {
                if range_has_key(area0.vpn_range.start.0, area0.vpn_range.end.0, v) {
                    let w = choose|w: u64|
                        area0.vpn_range.start.0 <= w < area0.vpn_range.end.0 && vpn_key(w)
                            == vpn_key(v);
                    pt0.lemma_translate_key(w, v);
                    assert(pt0.mapped(w));
                    assert(area0.covers(w));
                }
            }
            assert(pt1.pte_bits_for(v) == pt0.pte_bits_for(v));
        } else {
            assert(newareas[i] == area1);
            assert(area0.covers(v));
        }
        assert(pt1.mapped(v));
        assert(spec_pte_flags(pt1.pte_bits_for(v)) == newareas[i].map_perm | PTE_V);
    }
    assert forall|v: u64| #[trigger] pt1.mapped(v) implies vpn_key(v) == tramp_key()
        || covered_key(newareas, v) by {
        if !range_has_key(area0.vpn_range.start.0, area0.vpn_range.end.0, v) {
            assert(pt1.pte_bits_for(v) == pt0.pte_bits_for(v));
            assert(pt0.mapped(v));
            if vpn_key(v) != tramp_key() {
                assert(covered_key(areas, v));
                let (i, w) = choose|i: int, w: u64|
                    #![trigger areas[i].vpn_range, vpn_key(w)]
                    0 <= i < areas.len() && areas[i].vpn_range.start.0 <= w
                        < areas[i].vpn_range.end.0 && vpn_key(w) == vpn_key(v);
                assert(0 <= i < newareas.len() && newareas[i].vpn_range.start.0 <= w
                    < newareas[i].vpn_range.end.0 && vpn_key(w) == vpn_key(v));
            }
        } else {
            let w = choose|w: u64|
                area0.vpn_range.start.0 <= w < area0.vpn_range.end.0 && vpn_key(w) == vpn_key(v);
            let i = areas.len() as int;
            assert(0 <= i < newareas.len() && newareas[i].vpn_range.start.0 <= w
                < newareas[i].vpn_range.end.0 && vpn_key(w) == vpn_key(v));
        }
    }
}

/// The hypervisor's own first-stage memory set.
pub struct HostMemorySet {
    /// The first-stage page table.
    pub page_table: PageTableSv39,
    /// The mapped areas, in push order.
    pub areas: Vec<MapArea>,
}

/// A guest's G-stage memory set.
pub struct GuestMemorySet {
    /// The G-stage page table with its 16-KiB-aligned root.
    pub page_table: PageTableSv39,
    /// The mapped areas, in push order.
    pub areas: Vec<MapArea>,
}

impl HostMemorySet {
    /// The memory-set invariant.
    pub open spec fn inv(self) -> bool {
        ms_inv(self.page_table, self.areas@)
    }

    /// An empty set over a fresh page table.
    pub fn new_bare(alloc: &mut StackFrameAllocator) -> (r: HostMemorySet)
        requires
            old(alloc).wf(),
            old(alloc).avail() >= 1,
        ensures
            final(alloc).wf(),
            final(alloc).limit() == old(alloc).limit(),
            final(alloc).avail() >= old(alloc).avail() - 1,
            r.inv(),
            r.areas@.len() == 0,
            r.page_table.is_unmapped(),
    {
        let pt = PageTableSv39::new(alloc);
        HostMemorySet { page_table: pt, areas: Vec::new() }
    }

    /// The satp token of the set's page table.
    pub fn token(&self) -> (r: u64)
        ensures
            r == (8u64 << 60) | self.page_table.root(),
    {
        self.page_table.token()
    }

    /// The leaf entry of a virtual page if it is Valid.
    pub fn translate(&self, vpn: VirtPageNum) -> (r: Option<PageTableEntry>)
        requires
            self.inv(),
        ensures
            r == self.page_table.spec_translate(vpn.0),
    {
        self.page_table.translate(vpn)
    }

    /// Translate a virtual address through the set's page table.
    pub fn translate_va(&self, va: u64) -> (r: Option<u64>)
        requires
            self.inv(),
        ensures
            match self.page_table.spec_translate(va / PAGE_SIZE as u64) {
                Some(pte) => r == Some((pte.ppn_spec() * PAGE_SIZE + va % PAGE_SIZE) as u64),
                None => r is None,
            },
    {
        self.page_table.translate_va(va)
    }

    /// Map an area and append it, copying an optional payload into a
    /// `Framed` area's fresh frames.
    pub fn push(&mut self, area: MapArea, data: Option<&Vec<u8>>, alloc: &mut StackFrameAllocator)
        requires
            old(self).inv(),
            area.wf(),
            area.data_frames@.len() == 0,
            old(alloc).wf(),
            old(alloc).limit() <= PPN_LIMIT,
            old(alloc).avail() >= spec_area_frames(
                area.vpn_range.start.0 as int,
                area.vpn_range.end.0 as int,
                area.map_type,
            ),
            forall|v: u64| area.covers(v) ==> !old(self).page_table.mapped(v),
            data is Some ==> area.map_type == MapType::Framed && data->Some_0@.len() <= (
            area.vpn_range.end.0 - area.vpn_range.start.0) * (PAGE_SIZE as int),
        ensures
            final(self).inv(),
            final(alloc).wf(),
            final(alloc).limit() == old(alloc).limit(),
            final(alloc).avail() >= old(alloc).avail() - spec_area_frames(
                area.vpn_range.start.0 as int,
                area.vpn_range.end.0 as int,
                area.map_type,
            ),
            final(self).areas@.len() == old(self).areas@.len() + 1,
            final(self).areas@.subrange(0, old(self).areas@.len() as int) == old(self).areas@,
            final(self).areas@.last().vpn_range == area.vpn_range,
            final(self).areas@.last().map_perm == area.map_perm,
            final(self).areas@.last().map_type == area.map_type,
            final(self).areas@.last().ppn_range == area.ppn_range,
            area.map_type == MapType::Framed ==> final(self).areas@.last().data_frames@.len()
                == area.vpn_range.end.0 - area.vpn_range.start.0 && (forall|i: int|
                0 <= i < final(self).areas@.last().data_frames@.len() ==> (#[trigger] final(self).areas@.last().data_frames@[i]).0 == area.vpn_range.start.0 + i),
            data matches Some(payload) ==> forall|off: int|
                0 <= off < payload@.len() ==> #[trigger] final(self).areas@.last().data_frames@[off
                    / (PAGE_SIZE as int)].1.data@[off % (PAGE_SIZE as int)] == payload@[off],
            final(self).page_table.root() == old(self).page_table.root(),
            forall|v: u64|
                area.covers(v) ==> #[trigger] final(self).page_table.mapped(v) && spec_pte_flags(
                    final(self).page_table.pte_bits_for(v),
                ) == area.map_perm | PTE_V,
            area.map_type == MapType::Linear ==> forall|v: u64|
                area.covers(v) ==> #[trigger] final(self).page_table.pte_bits_for(v)
                    == spec_pte_bits(
                    (area.ppn_range->Some_0.start.0 + (v - area.vpn_range.start.0)) as u64,
                    area.map_perm | PTE_V,
                ),
            forall|v2: u64|
                !range_has_key(area.vpn_range.start.0, area.vpn_range.end.0, v2) ==> #[trigger]
                    final(self).page_table.pte_bits_for(v2) == old(self).page_table.pte_bits_for(
                    v2,
                ),
    {
        let mut map_area = area;
        let ghost area0 = area;
        let ghost pt0 = self.page_table;
        map_area.map(&mut self.page_table, alloc);
        if let Some(payload) = data {
            map_area.copy_data(payload);
        }
        proof {
            lemma_push_inv(pt0, self.page_table, old(self).areas@, area0, map_area);
        }
        self.areas.push(map_area);
        proof {
            assert(self.areas@ == old(self).areas@.push(map_area));
            assert(self.areas@.subrange(0, old(self).areas@.len() as int) =~= old(self).areas@);
        }
    }

    /// Map the trampoline page, R|X, onto the frame holding the
    /// trampoline code. The page belongs to no area.
    pub fn map_trampoline(&mut self, strampoline: PhysAddr, alloc: &mut StackFrameAllocator)
        requires
            old(self).inv(),
            old(alloc).wf(),
            old(alloc).limit() <= PPN_LIMIT,
            old(alloc).avail() >= 2,
            (strampoline.0 / PAGE_SIZE as u64) < PPN_LIMIT,
            !old(self).page_table.mapped(TRAMP_VPN),
        ensures
            final(self).inv(),
            final(alloc).wf(),
            final(alloc).limit() == old(alloc).limit(),
            final(alloc).avail() >= old(alloc).avail() - 2,
            final(self).areas@ == old(self).areas@,
            final(self).page_table.root() == old(self).page_table.root(),
            final(self).page_table.spec_translate(TRAMP_VPN) == Some(
                PageTableEntry {
                    bits: spec_pte_bits(strampoline.0 / PAGE_SIZE as u64, PTE_R | PTE_X | PTE_V),
                },
            ),
            forall|v2: u64|
                vpn_key(v2) != tramp_key() ==> #[trigger] final(self).page_table.pte_bits_for(v2)
                    == old(self).page_table.pte_bits_for(v2),
    {
        let ghost pt0 = self.page_table;
        let res = self.page_table.map(
            VirtPageNum(TRAMP_VPN),
            strampoline.floor(),
            PTE_R | PTE_X,
            alloc,
        );
        proof {
            assert(res is Ok);
            assert((PTE_R | PTE_X) | PTE_V == PTE_R | PTE_X | PTE_V) by (bit_vector);
            assert forall|i: int, v: u64|
                #![trigger self.areas@[i], self.page_table.mapped(v)]
                0 <= i < self.areas@.len() && self.areas@[i].covers(v) implies
                self.page_table.mapped(v) && spec_pte_flags(self.page_table.pte_bits_for(v))
                == self.areas@[i].map_perm | PTE_V by {
                assert(pt0.mapped(v));
                assert(vpn_key(v) != vpn_key(TRAMP_VPN)) by {
                    if vpn_key(v) == vpn_key(TRAMP_VPN) {
                        pt0.lemma_translate_key(v, TRAMP_VPN);
                    }
                }
            }
            assert forall|v: u64| #[trigger] self.page_table.mapped(v) implies vpn_key(v)
                == tramp_key() || covered_key(self.areas@, v) by {
                if vpn_key(v) != vpn_key(TRAMP_VPN) {
                    assert(self.page_table.pte_bits_for(v) == pt0.pte_bits_for(v));
                    assert(pt0.mapped(v));
                }
            }
        }
    }
}

impl GuestMemorySet {
    /// The memory-set invariant.
    pub open spec fn inv(self) -> bool {
        ms_inv(self.page_table, self.areas@)
    }

    /// An empty set over a fresh G-stage page table, its root frame
    /// 16-KiB-aligned.
    pub fn new_guest_bare(alloc: &mut StackFrameAllocator) -> (r: GuestMemorySet)
        requires
            old(alloc).wf(),
            old(alloc).recycled_empty(),
            old(alloc).avail() >= 7,
        ensures
            final(alloc).wf(),
            final(alloc).limit() == old(alloc).limit(),
            final(alloc).avail() >= old(alloc).avail() - 7,
            r.inv(),
            r.areas@.len() == 0,
            r.page_table.is_unmapped(),
            r.page_table.root() % 4 == 0,
    {
        let pt = PageTableSv39::new_guest(alloc);
        GuestMemorySet { page_table: pt, areas: Vec::new() }
    }

    /// The hgatp token of the set's page table.
    pub fn token(&self) -> (r: u64)
        ensures
            r == (8u64 << 60) | self.page_table.root(),
    {
        self.page_table.token()
    }

    /// The leaf entry of a guest-physical page if it is Valid.
    pub fn translate(&self, vpn: VirtPageNum) -> (r: Option<PageTableEntry>)
        requires
            self.inv(),
        ensures
            r == self.page_table.spec_translate(vpn.0),
    {
        self.page_table.translate(vpn)
    }

    /// Translate a guest-physical address through the G-stage table.
    pub fn translate_va(&self, va: u64) -> (r: Option<u64>)
        requires
            self.inv(),
        ensures
            match self.page_table.spec_translate(va / PAGE_SIZE as u64) {
                Some(pte) => r == Some((pte.ppn_spec() * PAGE_SIZE + va % PAGE_SIZE) as u64),
                None => r is None,
            },
    {
        self.page_table.translate_va(va)
    }

    /// Map an area and append it, copying an optional payload into a
    /// `Framed` area's fresh frames.
    pub fn push(&mut self, area: MapArea, data: Option<&Vec<u8>>, alloc: &mut StackFrameAllocator)
        requires
            old(self).inv(),
            area.wf(),
            area.data_frames@.len() == 0,
            old(alloc).wf(),
            old(alloc).limit() <= PPN_LIMIT,
            old(alloc).avail() >= spec_area_frames(
                area.vpn_range.start.0 as int,
                area.vpn_range.end.0 as int,
                area.map_type,
            ),
            forall|v: u64| area.covers(v) ==> !old(self).page_table.mapped(v),
            data is Some ==> area.map_type == MapType::Framed && data->Some_0@.len() <= (
            area.vpn_range.end.0 - area.vpn_range.start.0) * (PAGE_SIZE as int),
        ensures
            final(self).inv(),
            final(alloc).wf(),
            final(alloc).limit() == old(alloc).limit(),
            final(alloc).avail() >= old(alloc).avail() - spec_area_frames(
                area.vpn_range.start.0 as int,
                area.vpn_range.end.0 as int,
                area.map_type,
            ),
            final(self).areas@.len() == old(self).areas@.len() + 1,
            final(self).areas@.subrange(0, old(self).areas@.len() as int) == old(self).areas@,
            final(self).areas@.last().vpn_range == area.vpn_range,
            final(self).areas@.last().map_perm == area.map_perm,
            final(self).areas@.last().map_type == area.map_type,
            final(self).areas@.last().ppn_range == area.ppn_range,
            area.map_type == MapType::Framed ==> final(self).areas@.last().data_frames@.len()
                == area.vpn_range.end.0 - area.vpn_range.start.0 && (forall|i: int|
                0 <= i < final(self).areas@.last().data_frames@.len() ==> (#[trigger] final(self).areas@.last().data_frames@[i]).0 == area.vpn_range.start.0 + i),
            data matches Some(payload) ==> forall|off: int|
                0 <= off < payload@.len() ==> #[trigger] final(self).areas@.last().data_frames@[off
                    / (PAGE_SIZE as int)].1.data@[off % (PAGE_SIZE as int)] == payload@[off],
            final(self).page_table.root() == old(self).page_table.root(),
            forall|v: u64|
                area.covers(v) ==> #[trigger] final(self).page_table.mapped(v) && spec_pte_flags(
                    final(self).page_table.pte_bits_for(v),
                ) == area.map_perm | PTE_V,
            area.map_type == MapType::Linear ==> forall|v: u64|
                area.covers(v) ==> #[trigger] final(self).page_table.pte_bits_for(v)
                    == spec_pte_bits(
                    (area.ppn_range->Some_0.start.0 + (v - area.vpn_range.start.0)) as u64,
                    area.map_perm | PTE_V,
                ),
            forall|v2: u64|
                !range_has_key(area.vpn_range.start.0, area.vpn_range.end.0, v2) ==> #[trigger]
                    final(self).page_table.pte_bits_for(v2) == old(self).page_table.pte_bits_for(
                    v2,
                ),
    {
        let mut map_area = area;
        let ghost area0 = area;
        let ghost pt0 = self.page_table;
        map_area.map(&mut self.page_table, alloc);
        if let Some(payload) = data {
            map_area.copy_data(payload);
        }
        proof {
            lemma_push_inv(pt0, self.page_table, old(self).areas@, area0, map_area);
        }
        self.areas.push(map_area);
        proof {
            assert(self.areas@ == old(self).areas@.push(map_area));
            assert(self.areas@.subrange(0, old(self).areas@.len() as int) =~= old(self).areas@);
        }
    }

    /// Map the trampoline page, R|X, onto the frame holding the
    /// trampoline code. The page belongs to no area.
    pub fn map_trampoline(&mut self, strampoline: PhysAddr, alloc: &mut StackFrameAllocator)
        requires
            old(self).inv(),
            old(alloc).wf(),
            old(alloc).limit() <= PPN_LIMIT,
            old(alloc).avail() >= 2,
            (strampoline.0 / PAGE_SIZE as u64) < PPN_LIMIT,
            !old(self).page_table.mapped(TRAMP_VPN),
        ensures
            final(self).inv(),
            final(alloc).wf(),
            final(alloc).limit() == old(alloc).limit(),
            final(alloc).avail() >= old(alloc).avail() - 2,
            final(self).areas@ == old(self).areas@,
            final(self).page_table.root() == old(self).page_table.root(),
            final(self).page_table.spec_translate(TRAMP_VPN) == Some(
                PageTableEntry {
                    bits: spec_pte_bits(strampoline.0 / PAGE_SIZE as u64, PTE_R | PTE_X | PTE_V),
                },
            ),
            forall|v2: u64|
                vpn_key(v2) != tramp_key() ==> #[trigger] final(self).page_table.pte_bits_for(v2)
                    == old(self).page_table.pte_bits_for(v2),
    {
        let ghost pt0 = self.page_table;
        let res = self.page_table.map(
            VirtPageNum(TRAMP_VPN),
            strampoline.floor(),
            PTE_R | PTE_X,
            alloc,
        );
        proof {
            assert(res is Ok);
            assert((PTE_R | PTE_X) | PTE_V == PTE_R | PTE_X | PTE_V) by (bit_vector);
            assert forall|i: int, v: u64|
                #![trigger self.areas@[i], self.page_table.mapped(v)]
                0 <= i < self.areas@.len() && self.areas@[i].covers(v) implies
                self.page_table.mapped(v) && spec_pte_flags(self.page_table.pte_bits_for(v))
                == self.areas@[i].map_perm | PTE_V by {
                assert(pt0.mapped(v));
                assert(vpn_key(v) != vpn_key(TRAMP_VPN)) by {
                    if vpn_key(v) == vpn_key(TRAMP_VPN) {
                        pt0.lemma_translate_key(v, TRAMP_VPN);
                    }
                }
            }
            assert forall|v: u64| #[trigger] self.page_table.mapped(v) implies vpn_key(v)
                == tramp_key() || covered_key(self.areas@, v) by {
                if vpn_key(v) != vpn_key(TRAMP_VPN) {
                    assert(self.page_table.pte_bits_for(v) == pt0.pte_bits_for(v));
                    assert(pt0.mapped(v));
                }
            }
        }
    }
}

// Builders for the two memory sets.

/// Whether a byte address sits on a page boundary.
pub open spec fn aligned(a: u64) -> bool {
    a % PAGE_SIZE == 0
}

/// The linker-provided bounds of the hypervisor image, as byte
/// addresses on page boundaries, in link order.
pub struct KernelLayout {
    /// Start of the text section.
    pub stext: u64,
    /// End of the text section.
    pub etext: u64,
    /// Start of read-only data.
    pub srodata: u64,
    /// End of read-only data.
    pub erodata: u64,
    /// Start of mutable data.
    pub sdata: u64,
    /// End of mutable data.
    pub edata: u64,
    /// Start of zero-initialized data and the boot stack.
    pub sbss_with_stack: u64,
    /// End of zero-initialized data.
    pub ebss: u64,
    /// End of the loaded image.
    pub ekernel: u64,
    /// End of physical memory the hypervisor manages.
    pub memory_end: u64,
    /// Physical address of the trampoline code page.
    pub strampoline: u64,
}

impl KernelLayout {
    /// Well-formed: aligned, ordered, below 2^38, trampoline frame
    /// addressable.
    pub open spec fn wf(self) -> bool {
        &&& aligned(self.stext) && aligned(self.etext) && aligned(self.srodata) && aligned(
            self.erodata,
        ) && aligned(self.sdata) && aligned(self.edata) && aligned(self.sbss_with_stack)
            && aligned(self.ebss) && aligned(self.ekernel) && aligned(self.memory_end)
        &&& self.stext <= self.etext <= self.srodata <= self.erodata <= self.sdata <= self.edata
            <= self.sbss_with_stack <= self.ebss <= self.ekernel <= self.memory_end
        &&& self.memory_end <= 0x40_0000_0000
        &&& (self.strampoline / PAGE_SIZE) < PPN_LIMIT
    }

    /// Frames the five section areas may draw together.
    pub open spec fn seg_frames(self) -> int {
        region_frames(self.stext, self.etext) + region_frames(self.srodata, self.erodata)
            + region_frames(self.sdata, self.edata) + region_frames(
            self.sbss_with_stack,
            self.ebss,
        ) + region_frames(self.ekernel, self.memory_end)
    }

    /// Whether the walk key of `v` falls in one of the five section
    /// ranges.
    pub open spec fn seg_covers(self, v: u64) -> bool {
        ||| self.stext / PAGE_SIZE <= vpn_key(v) < self.etext / PAGE_SIZE
        ||| self.srodata / PAGE_SIZE <= vpn_key(v) < self.erodata / PAGE_SIZE
        ||| self.sdata / PAGE_SIZE <= vpn_key(v) < self.edata / PAGE_SIZE
        ||| self.sbss_with_stack / PAGE_SIZE <= vpn_key(v) < self.ebss / PAGE_SIZE
        ||| self.ekernel / PAGE_SIZE <= vpn_key(v) < self.memory_end / PAGE_SIZE
    }
}

/// Well-formed MMIO table: page-aligned non-wrapping regions, pairwise
/// disjoint, all below `lo`.
pub open spec fn mmio_wf(m: Seq<(u64, u64)>, lo: u64) -> bool {
    &&& forall|i: int|
        0 <= i < m.len() ==> aligned((#[trigger] m[i]).0) && aligned(m[i].1) && m[i].0 + m[i].1
            <= lo
    &&& forall|i: int, j: int|
        0 <= i < j < m.len() ==> (#[trigger] m[i]).0 + m[i].1 <= (#[trigger] m[j]).0 || m[j].0
            + m[j].1 <= m[i].0
}

/// Frames the linear identity area over the byte range `[sa, ea)` may
/// draw: its interior-table allowance.
pub open spec fn region_frames(sa: u64, ea: u64) -> int {
    spec_area_frames((sa / PAGE_SIZE) as int, (ea / PAGE_SIZE) as int, MapType::Linear)
}

/// A frame allowance is never negative.
pub proof fn lemma_region_frames_nonneg(sa: u64, ea: u64)
    requires
        sa / PAGE_SIZE as u64 <= ea / PAGE_SIZE as u64,
    ensures
        region_frames(sa, ea) >= 0,
{
    vstd::arithmetic::div_mod::lemma_div_pos_is_pos(
        (ea / PAGE_SIZE as u64 - sa / PAGE_SIZE as u64) as int,
        512,
    );
}

/// Frames the first `n` MMIO regions may draw together.
pub open spec fn mmio_frames(m: Seq<(u64, u64)>, n: int) -> int
    decreases n,
{
    if n <= 0 {
        0
    } else {
        mmio_frames(m, n - 1) + region_frames(m[n - 1].0, (m[n - 1].0 + m[n - 1].1) as u64)
    }
}

/// Every prefix of an MMIO table has a nonnegative frame allowance,
/// monotone in the prefix length.
pub proof fn lemma_mmio_frames_bounds(m: Seq<(u64, u64)>, n: int)
    requires
        0 <= n <= m.len(),
        forall|i: int| 0 <= i < m.len() ==> (#[trigger] m[i]).0 + m[i].1 <= u64::MAX,
    ensures
        0 <= mmio_frames(m, n) <= mmio_frames(m, m.len() as int),
    decreases m.len() + n,
{
    if n > 0 {
        lemma_mmio_frames_bounds(m, n - 1);
        lemma_mmio_region_frames_nonneg(m, n - 1);
    }
    if n < m.len() {
        lemma_mmio_frames_monotone(m, n, m.len() as int);
    }
}

/// One region's frame allowance is nonnegative.
proof fn lemma_mmio_region_frames_nonneg(m: Seq<(u64, u64)>, i: int)
    requires
        0 <= i < m.len(),
        m[i].0 + m[i].1 <= u64::MAX,
    ensures
        region_frames(m[i].0, (m[i].0 + m[i].1) as u64) >= 0,
{
    vstd::arithmetic::div_mod::lemma_div_is_ordered(
        m[i].0 as int,
        ((m[i].0 + m[i].1) as u64) as int,
        PAGE_SIZE as int,
    );
    lemma_region_frames_nonneg(m[i].0, (m[i].0 + m[i].1) as u64);
}

/// Prefix frame allowances grow with the prefix.
proof fn lemma_mmio_frames_monotone(m: Seq<(u64, u64)>, a: int, b: int)
    requires
        0 <= a <= b <= m.len(),
        forall|i: int| 0 <= i < m.len() ==> (#[trigger] m[i]).0 + m[i].1 <= u64::MAX,
    ensures
        mmio_frames(m, a) <= mmio_frames(m, b),
    decreases b - a,
{
    if a < b {
        lemma_mmio_frames_monotone(m, a, b - 1);
        lemma_mmio_region_frames_nonneg(m, b - 1);
    }
}

/// Whether the walk key of `v` falls in one of the first `k` MMIO
/// regions.
pub open spec fn mmio_covers(m: Seq<(u64, u64)>, k: int, v: u64) -> bool {
    exists|i: int| 0 <= i < k && (#[trigger] m[i]).0 / PAGE_SIZE <= vpn_key(v) < (m[i].0 + m[i].1) / (PAGE_SIZE as int)
}

/// A page range that ends below 2^26 holds no page sharing its key with
/// `v` unless the key itself falls in the range.
pub proof fn lemma_no_key_small(s: u64, e: u64, v: u64)
    requires
        e <= 0x400_0000,
        !(s <= vpn_key(v) < e),
    ensures
        !range_has_key(s, e, v),
{
    if range_has_key(s, e, v) {
        let w = choose|w: u64| s <= w < e && vpn_key(w) == vpn_key(v);
        lemma_small_key(w);
    }
}

/// The trap-context page range holds no page sharing its key with `v`
/// unless `v` carries the trap-context key.
pub proof fn lemma_no_key_trapctx(v: u64)
    requires
        vpn_key(v) != vpn_key(TRAP_CONTEXT_VPN),
    ensures
        !range_has_key(TRAP_CONTEXT_VPN, TRAMP_VPN, v),
{
    if range_has_key(TRAP_CONTEXT_VPN, TRAMP_VPN, v) {
        let w = choose|w: u64|
            TRAP_CONTEXT_VPN <= w < TRAMP_VPN && vpn_key(w) == vpn_key(v);
        assert(w == TRAP_CONTEXT_VPN);
    }
}

// Step lemmas for chaining pushes in the builders.

/// After touching only keys of a range ending below 2^26, every mapped
/// page was mapped before or carries a key of that range.
pub proof fn lemma_mapped_step(pt0: PageTableSv39, pt1: PageTableSv39, s: u64, e: u64)
    requires
        e <= 0x400_0000,
        forall|v2: u64|
            !range_has_key(s, e, v2) ==> #[trigger] pt1.pte_bits_for(v2) == pt0.pte_bits_for(v2),
    ensures
        forall|v: u64| #[trigger] pt1.mapped(v) ==> pt0.mapped(v) || s <= vpn_key(v) < e,
{
    assert forall|v: u64| #[trigger] pt1.mapped(v) implies pt0.mapped(v) || s <= vpn_key(v)
        < e by {
        if !(s <= vpn_key(v) < e) {
            lemma_no_key_small(s, e, v);
            assert(pt1.pte_bits_for(v) == pt0.pte_bits_for(v));
            assert(pt0.mapped(v));
        }
    }
}

/// A push touching only keys of `[s, e)` leaves every page of a
/// disjoint range `[s0, e0)` unchanged, both ranges ending below 2^26.
pub proof fn lemma_range_preserved(
    pt0: PageTableSv39,
    pt1: PageTableSv39,
    s0: u64,
    e0: u64,
    s: u64,
    e: u64,
)
    requires
        e <= 0x400_0000,
        e0 <= 0x400_0000,
        e0 <= s || e <= s0,
        forall|v2: u64|
            !range_has_key(s, e, v2) ==> #[trigger] pt1.pte_bits_for(v2) == pt0.pte_bits_for(v2),
    ensures
        forall|v: u64| s0 <= v < e0 ==> #[trigger] pt1.pte_bits_for(v) == pt0.pte_bits_for(v),
{
    assert forall|v: u64| s0 <= v < e0 implies #[trigger] pt1.pte_bits_for(v)
        == pt0.pte_bits_for(v) by {
        lemma_small_key(v);
        lemma_no_key_small(s, e, v);
    }
}

/// A push touching only keys of a range ending below 2^26 leaves the
/// trampoline and trap-context pages unchanged.
pub proof fn lemma_special_preserved(pt0: PageTableSv39, pt1: PageTableSv39, s: u64, e: u64)
    requires
        e <= 0x400_0000,
        forall|v2: u64|
            !range_has_key(s, e, v2) ==> #[trigger] pt1.pte_bits_for(v2) == pt0.pte_bits_for(v2),
    ensures
        pt1.pte_bits_for(TRAMP_VPN) == pt0.pte_bits_for(TRAMP_VPN),
        pt1.pte_bits_for(TRAP_CONTEXT_VPN) == pt0.pte_bits_for(TRAP_CONTEXT_VPN),
        pt1.spec_translate(TRAMP_VPN) == pt0.spec_translate(TRAMP_VPN),
    {
    lemma_special_keys(0);
    lemma_no_key_small(s, e, TRAMP_VPN);
    lemma_no_key_small(s, e, TRAP_CONTEXT_VPN);
}

/// The page numbers of a well-formed layout are ordered and below 2^26.
pub proof fn lemma_layout_bounds(l: KernelLayout)
    requires
        l.wf(),
    ensures
        l.stext / PAGE_SIZE as u64 <= l.etext / PAGE_SIZE as u64,
        l.etext / PAGE_SIZE as u64 <= l.srodata / PAGE_SIZE as u64,
        l.srodata / PAGE_SIZE as u64 <= l.erodata / PAGE_SIZE as u64,
        l.erodata / PAGE_SIZE as u64 <= l.sdata / PAGE_SIZE as u64,
        l.sdata / PAGE_SIZE as u64 <= l.edata / PAGE_SIZE as u64,
        l.edata / PAGE_SIZE as u64 <= l.sbss_with_stack / PAGE_SIZE as u64,
        l.sbss_with_stack / PAGE_SIZE as u64 <= l.ebss / PAGE_SIZE as u64,
        l.ebss / PAGE_SIZE as u64 <= l.ekernel / PAGE_SIZE as u64,
        l.ekernel / PAGE_SIZE as u64 <= l.memory_end / PAGE_SIZE as u64,
        l.memory_end / PAGE_SIZE as u64 <= 0x400_0000,
{
    lemma_div_ordered(l.stext, l.etext);
    lemma_div_ordered(l.etext, l.srodata);
    lemma_div_ordered(l.srodata, l.erodata);
    lemma_div_ordered(l.erodata, l.sdata);
    lemma_div_ordered(l.sdata, l.edata);
    lemma_div_ordered(l.edata, l.sbss_with_stack);
    lemma_div_ordered(l.sbss_with_stack, l.ebss);
    lemma_div_ordered(l.ebss, l.ekernel);
    lemma_div_ordered(l.ekernel, l.memory_end);
    lemma_div_ordered(l.memory_end, 0x40_0000_0000);
    vstd::arithmetic::div_mod::lemma_fundamental_div_mod_converse(
        0x40_0000_0000,
        PAGE_SIZE as int,
        0x400_0000,
        0,
    );
}

/// Dividing keeps order.
pub proof fn lemma_div_ordered(a: u64, b: u64)
    requires
        a <= b,
    ensures
        a / PAGE_SIZE as u64 <= b / PAGE_SIZE as u64,
{
    vstd::arithmetic::div_mod::lemma_div_is_ordered(a as int, b as int, PAGE_SIZE as int);
}

/// Dividing keeps order, over unbounded integers.
pub proof fn lemma_div_ordered_int(a: int, b: int)
    requires
        0 <= a <= b,
    ensures
        a / (PAGE_SIZE as int) <= b / (PAGE_SIZE as int),
{
    vstd::arithmetic::div_mod::lemma_div_is_ordered(a, b, PAGE_SIZE as int);
}

/// On a page boundary, rounding up to a page is the same as rounding
/// down.
pub proof fn lemma_ceil_aligned(e: u64)
    requires
        aligned(e),
        e <= 0xffff_ffff_ffff_efff,
    ensures
        (e + PAGE_SIZE - 1) / (PAGE_SIZE as int) == e / PAGE_SIZE as u64,
{
    let q = e as int / PAGE_SIZE as int;
    vstd::arithmetic::div_mod::lemma_fundamental_div_mod(e as int, PAGE_SIZE as int);
    vstd::arithmetic::div_mod::lemma_fundamental_div_mod_converse(
        e as int + PAGE_SIZE - 1,
        PAGE_SIZE as int,
        q,
        PAGE_SIZE as int - 1,
    );
}

// The host builder.

impl HostMemorySet {
    /// Push a linear identity-mapped area over the byte range
    /// `[sa, ea)`.
    pub fn push_identity(&mut self, sa: u64, ea: u64, perm: u8, alloc: &mut StackFrameAllocator)
        requires
            old(self).inv(),
            aligned(sa),
            aligned(ea),
            sa <= ea,
            ea <= 0x40_0000_0000,
            old(alloc).wf(),
            old(alloc).limit() <= PPN_LIMIT,
            old(alloc).avail() >= region_frames(sa, ea),
            forall|v: u64| sa / PAGE_SIZE as u64 <= v < ea / PAGE_SIZE as u64 ==> !old(self).page_table.mapped(v),
        ensures
            final(self).inv(),
            final(alloc).wf(),
            final(alloc).limit() == old(alloc).limit(),
            final(alloc).avail() >= old(alloc).avail() - region_frames(sa, ea),
            final(self).areas@.len() == old(self).areas@.len() + 1,
            final(self).areas@.subrange(0, old(self).areas@.len() as int) == old(self).areas@,
            final(self).areas@.last().vpn_range.start.0 == sa / PAGE_SIZE as u64,
            final(self).areas@.last().vpn_range.end.0 == ea / PAGE_SIZE as u64,
            final(self).areas@.last().map_type == MapType::Linear,
            final(self).areas@.last().map_perm == perm,
            final(self).areas@.last().ppn_range matches Some(pr) && pr.start.0 == sa
                / PAGE_SIZE as u64 && pr.end.0 == ea / PAGE_SIZE as u64,
            final(self).page_table.root() == old(self).page_table.root(),
            forall|v: u64|
                sa / PAGE_SIZE as u64 <= v < ea / PAGE_SIZE as u64 ==> #[trigger] final(self).page_table.pte_bits_for(v) == spec_pte_bits(v, perm | PTE_V),
            forall|v2: u64|
                !range_has_key(sa / PAGE_SIZE as u64, ea / PAGE_SIZE as u64, v2) ==> #[trigger] final(self).page_table.pte_bits_for(v2) == old(self).page_table.pte_bits_for(v2),
    {
        proof {
            lemma_ceil_aligned(ea);
            lemma_div_ordered(sa, ea);
            lemma_div_ordered(ea, 0x40_0000_0000);
        }
        let area = MapArea::new(
            VirtAddr(sa),
            VirtAddr(ea),
            Some(PhysAddr(sa)),
            Some(PhysAddr(ea)),
            MapType::Linear,
            perm,
        );
        self.push(area, None, alloc);
    }

    /// The host memory set the boot path builds: the trampoline page,
    /// the trap-context page, the five kernel sections identity-mapped
    /// with their natural permissions, and every MMIO region
    /// identity-mapped read-write.
    pub fn new_host_vmm(
        layout: &KernelLayout,
        mmio: &Vec<(u64, u64)>,
        alloc: &mut StackFrameAllocator,
    ) -> (r: HostMemorySet)
        requires
            old(alloc).wf(),
            old(alloc).limit() <= PPN_LIMIT,
            layout.wf(),
            mmio_wf(mmio@, layout.stext),
            old(alloc).avail() >= layout.seg_frames() + mmio_frames(mmio@, mmio@.len() as int)
                + 16,
        ensures
            final(alloc).wf(),
            final(alloc).limit() == old(alloc).limit(),
            r.inv(),
            r.page_table.spec_translate(TRAMP_VPN) == Some(
                PageTableEntry {
                    bits: spec_pte_bits(layout.strampoline / PAGE_SIZE as u64, PTE_R | PTE_X | PTE_V),
                },
            ),
            r.page_table.mapped(TRAP_CONTEXT_VPN) && spec_pte_flags(
                r.page_table.pte_bits_for(TRAP_CONTEXT_VPN),
            ) == PTE_R | PTE_W | PTE_V,
            forall|v: u64|
                layout.stext / PAGE_SIZE as u64 <= v < layout.etext / PAGE_SIZE as u64 ==> #[trigger]
                    r.page_table.pte_bits_for(v) == spec_pte_bits(v, PTE_R | PTE_X | PTE_V),
            forall|v: u64|
                layout.srodata / PAGE_SIZE as u64 <= v < layout.erodata / PAGE_SIZE as u64 ==> #[trigger]
                    r.page_table.pte_bits_for(v) == spec_pte_bits(v, PTE_R | PTE_V),
            forall|v: u64|
                layout.sdata / PAGE_SIZE as u64 <= v < layout.edata / PAGE_SIZE as u64 ==> #[trigger]
                    r.page_table.pte_bits_for(v) == spec_pte_bits(v, PTE_R | PTE_W | PTE_V),
            forall|v: u64|
                layout.sbss_with_stack / PAGE_SIZE as u64 <= v < layout.ebss / PAGE_SIZE as u64 ==> #[trigger]
                    r.page_table.pte_bits_for(v) == spec_pte_bits(v, PTE_R | PTE_W | PTE_V),
            forall|v: u64|
                layout.ekernel / PAGE_SIZE as u64 <= v < layout.memory_end / PAGE_SIZE as u64 ==> #[trigger]
                    r.page_table.pte_bits_for(v) == spec_pte_bits(v, PTE_R | PTE_W | PTE_V),
            forall|i: int, v: u64|
                0 <= i < mmio@.len() && (#[trigger] mmio@[i]).0 / PAGE_SIZE as u64 <= v < (mmio@[i].0
                    + mmio@[i].1) / (PAGE_SIZE as int) ==> #[trigger] r.page_table.pte_bits_for(v)
                    == spec_pte_bits(v, PTE_R | PTE_W | PTE_V),
            forall|v: u64|
                #[trigger] r.page_table.mapped(v) ==> vpn_key(v) == tramp_key() || vpn_key(v)
                    == vpn_key(TRAP_CONTEXT_VPN) || layout.seg_covers(v) || mmio_covers(
                    mmio@,
                    mmio@.len() as int,
                    v,
                ),
    {
        proof {
            lemma_mmio_frames_bounds(mmio@, mmio@.len() as int);
            vstd::arithmetic::div_mod::lemma_fundamental_div_mod_converse(1, 512, 0, 1);
            lemma_layout_bounds(*layout);
            lemma_region_frames_nonneg(layout.stext, layout.etext);
            lemma_region_frames_nonneg(layout.srodata, layout.erodata);
            lemma_region_frames_nonneg(layout.sdata, layout.edata);
            lemma_region_frames_nonneg(layout.sbss_with_stack, layout.ebss);
            lemma_region_frames_nonneg(layout.ekernel, layout.memory_end);
        }
        let mut hpm = HostMemorySet::new_bare(alloc);
        let ghost pt_bare = hpm.page_table;
        hpm.map_trampoline(PhysAddr(layout.strampoline), alloc);
        let ghost pt_tramp = hpm.page_table;
        proof {
            lemma_special_keys(0);
            assert forall|v: u64| #[trigger] pt_tramp.mapped(v) implies vpn_key(v)
                == tramp_key() by {
                if vpn_key(v) != tramp_key() {
                    assert(pt_tramp.pte_bits_for(v) == pt_bare.pte_bits_for(v));
                    assert(pt_bare.mapped(v));
                }
            }
        }
        // The trap-context page, one page below the trampoline, kept in
        // every address space because the trap path never switches page
        // tables before reaching it.
        let tc_area = MapArea::new(
            VirtAddr(TRAP_CONTEXT),
            VirtAddr(TRAMPOLINE),
            None,
            None,
            MapType::Framed,
            PTE_R | PTE_W,
        );
        proof {
            assert(TRAP_CONTEXT / PAGE_SIZE as u64 == TRAP_CONTEXT_VPN);
            assert((TRAMPOLINE + PAGE_SIZE - 1) / (PAGE_SIZE as int) == TRAMP_VPN);
            assert forall|v: u64| tc_area.covers(v) implies !pt_tramp.mapped(v) by {
                assert(v == TRAP_CONTEXT_VPN);
            }
            assert(spec_area_frames(TRAP_CONTEXT_VPN as int, TRAMP_VPN as int, MapType::Framed) == 7);
            assert(alloc.avail() >= 13);
        }
        hpm.push(tc_area, None, alloc);
        let ghost pt_tc = hpm.page_table;
        proof {
            assert forall|v: u64| #[trigger] pt_tc.mapped(v) implies vpn_key(v) == tramp_key()
                || vpn_key(v) == vpn_key(TRAP_CONTEXT_VPN) by {
                if vpn_key(v) != vpn_key(TRAP_CONTEXT_VPN) {
                    lemma_no_key_trapctx(v);
                    assert(pt_tc.pte_bits_for(v) == pt_tramp.pte_bits_for(v));
                    assert(pt_tramp.mapped(v));
                }
            }
            lemma_no_key_trapctx(TRAMP_VPN);
            assert(pt_tc.spec_translate(TRAMP_VPN) == pt_tramp.spec_translate(TRAMP_VPN));
            assert(tc_area.covers(TRAP_CONTEXT_VPN));
            assert(hpm.page_table.mapped(TRAP_CONTEXT_VPN));
            assert(spec_pte_flags(hpm.page_table.pte_bits_for(TRAP_CONTEXT_VPN)) == (PTE_R
                | PTE_W) | PTE_V);
            assert(pt_tc.mapped(TRAP_CONTEXT_VPN) && spec_pte_flags(
                pt_tc.pte_bits_for(TRAP_CONTEXT_VPN),
            ) == (PTE_R | PTE_W) | PTE_V);
        }
        let ghost m = mmio@;
        let ghost mlen = mmio@.len() as int;
        proof {
            lemma_layout_bounds(*layout);
            assert forall|v: u64|
                layout.stext / PAGE_SIZE as u64 <= v < layout.etext / PAGE_SIZE as u64 implies !pt_tc.mapped(
                v,
            ) by {
                lemma_small_key(v);
                lemma_special_keys(v);
            }
        }
        hpm.push_identity(layout.stext, layout.etext, PTE_R | PTE_X, alloc);
        let ghost pt_text = hpm.page_table;
        proof {
            lemma_builder_step(
                pt_tc,
                pt_text,
                layout.stext / PAGE_SIZE as u64,
                layout.etext / PAGE_SIZE as u64,
            );
        }
        proof {
            assert forall|v: u64|
                layout.srodata / PAGE_SIZE as u64 <= v < layout.erodata / PAGE_SIZE as u64 implies
                !pt_text.mapped(v) by {
                lemma_small_key(v);
                lemma_special_keys(v);
            }
        }
        hpm.push_identity(layout.srodata, layout.erodata, PTE_R, alloc);
        let ghost pt_ro = hpm.page_table;
        proof {
            lemma_builder_step(
                pt_text,
                pt_ro,
                layout.srodata / PAGE_SIZE as u64,
                layout.erodata / PAGE_SIZE as u64,
            );
            lemma_range_preserved(
                pt_text,
                pt_ro,
                layout.stext / PAGE_SIZE as u64,
                layout.etext / PAGE_SIZE as u64,
                layout.srodata / PAGE_SIZE as u64,
                layout.erodata / PAGE_SIZE as u64,
            );
            lemma_div_ordered(layout.etext, layout.srodata);
        }
        proof {
            assert forall|v: u64|
                layout.sdata / PAGE_SIZE as u64 <= v < layout.edata / PAGE_SIZE as u64 implies !pt_ro.mapped(
                v,
            ) by {
                lemma_small_key(v);
                lemma_special_keys(v);
            }
        }
        hpm.push_identity(layout.sdata, layout.edata, PTE_R | PTE_W, alloc);
        let ghost pt_da = hpm.page_table;
        proof {
            lemma_builder_step(pt_ro, pt_da, layout.sdata / PAGE_SIZE as u64, layout.edata / PAGE_SIZE as u64);
            lemma_seg_preserved(*layout, pt_ro, pt_da, layout.sdata / PAGE_SIZE as u64, layout.edata / PAGE_SIZE as u64);
        }
        proof {
            assert forall|v: u64|
                layout.sbss_with_stack / PAGE_SIZE as u64 <= v < layout.ebss / PAGE_SIZE as u64 implies
                !pt_da.mapped(v) by {
                lemma_small_key(v);
                lemma_special_keys(v);
            }
        }
        hpm.push_identity(layout.sbss_with_stack, layout.ebss, PTE_R | PTE_W, alloc);
        let ghost pt_bss = hpm.page_table;
        proof {
            lemma_builder_step(
                pt_da,
                pt_bss,
                layout.sbss_with_stack / PAGE_SIZE as u64,
                layout.ebss / PAGE_SIZE as u64,
            );
            lemma_seg_preserved(*layout, pt_da, pt_bss, layout.sbss_with_stack / PAGE_SIZE as u64, layout.ebss / PAGE_SIZE as u64);
        }
        proof {
            assert forall|v: u64|
                layout.ekernel / PAGE_SIZE as u64 <= v < layout.memory_end / PAGE_SIZE as u64 implies
                !pt_bss.mapped(v) by {
                lemma_small_key(v);
                lemma_special_keys(v);
            }
        }
        hpm.push_identity(layout.ekernel, layout.memory_end, PTE_R | PTE_W, alloc);
        let ghost pt_ek = hpm.page_table;
        proof {
            lemma_builder_step(
                pt_bss,
                pt_ek,
                layout.ekernel / PAGE_SIZE as u64,
                layout.memory_end / PAGE_SIZE as u64,
            );
            lemma_seg_preserved(*layout, pt_bss, pt_ek, layout.ekernel / PAGE_SIZE as u64, layout.memory_end / PAGE_SIZE as u64);
        }
        let ghost pt_segs = hpm.page_table;
        let ghost avail_segs = alloc.avail();
        proof {
            lemma_mmio_frames_bounds(m, 0);
            assert forall|v: u64| #[trigger] pt_segs.mapped(v) implies vpn_key(v) == tramp_key()
                || vpn_key(v) == vpn_key(TRAP_CONTEXT_VPN) || layout.seg_covers(v)
                || mmio_covers(m, 0, v) by {}
        }
        let mut k: usize = 0;
        while k < mmio.len()
            invariant
                m == mmio@,
                mlen == mmio@.len() as int,
                layout.wf(),
                mmio_wf(m, layout.stext),
                k <= mmio@.len(),
                hpm.inv(),
                alloc.wf(),
                alloc.limit() == old(alloc).limit(),
                alloc.limit() <= PPN_LIMIT,
                avail_segs >= mmio_frames(m, mlen),
                alloc.avail() >= avail_segs - mmio_frames(m, k as int),
                hpm.page_table.spec_translate(TRAMP_VPN) == Some(
                    PageTableEntry {
                        bits: spec_pte_bits(layout.strampoline / PAGE_SIZE as u64, PTE_R | PTE_X | PTE_V),
                    },
                ),
                hpm.page_table.mapped(TRAP_CONTEXT_VPN) && spec_pte_flags(
                    hpm.page_table.pte_bits_for(TRAP_CONTEXT_VPN),
                ) == PTE_R | PTE_W | PTE_V,
                forall|v: u64|
                    layout.stext / PAGE_SIZE as u64 <= v < layout.etext / PAGE_SIZE as u64 ==> #[trigger]
                        hpm.page_table.pte_bits_for(v) == spec_pte_bits(v, PTE_R | PTE_X | PTE_V),
                forall|v: u64|
                    layout.srodata / PAGE_SIZE as u64 <= v < layout.erodata / PAGE_SIZE as u64 ==> #[trigger]
                        hpm.page_table.pte_bits_for(v) == spec_pte_bits(v, PTE_R | PTE_V),
                forall|v: u64|
                    layout.sdata / PAGE_SIZE as u64 <= v < layout.edata / PAGE_SIZE as u64 ==> #[trigger]
                        hpm.page_table.pte_bits_for(v) == spec_pte_bits(v, PTE_R | PTE_W | PTE_V),
                forall|v: u64|
                    layout.sbss_with_stack / PAGE_SIZE as u64 <= v < layout.ebss / PAGE_SIZE as u64
                        ==> #[trigger] hpm.page_table.pte_bits_for(v) == spec_pte_bits(
                        v,
                        PTE_R | PTE_W | PTE_V,
                    ),
                forall|v: u64|
                    layout.ekernel / PAGE_SIZE as u64 <= v < layout.memory_end / PAGE_SIZE as u64 ==> #[trigger]
                        hpm.page_table.pte_bits_for(v) == spec_pte_bits(v, PTE_R | PTE_W | PTE_V),
                forall|i: int, v: u64|
                    0 <= i < k && (#[trigger] m[i]).0 / PAGE_SIZE as u64 <= v < (m[i].0 + m[i].1) / (
                    PAGE_SIZE as int) ==> #[trigger] hpm.page_table.pte_bits_for(v) == spec_pte_bits(
                        v,
                        PTE_R | PTE_W | PTE_V,
                    ),
                forall|v: u64|
                    #[trigger] hpm.page_table.mapped(v) ==> vpn_key(v) == tramp_key() || vpn_key(v)
                        == vpn_key(TRAP_CONTEXT_VPN) || layout.seg_covers(v) || mmio_covers(
                        m,
                        k as int,
                        v,
                    ),
            decreases mmio@.len() - k,
        {
            let (base, size) = mmio[k];
            proof {
                assert(aligned((mmio@[k as int]).0) && aligned(mmio@[k as int].1) && mmio@[
                    k as int].0 + mmio@[k as int].1 <= layout.stext);
            }
            let bend = base + size;
            let ghost pt_pre = hpm.page_table;
            proof {
                lemma_mmio_frames_bounds(m, k as int);
                lemma_mmio_frames_bounds(m, k as int + 1);
                lemma_mmio_region_frames_nonneg(m, k as int);
                assert(mmio_frames(m, k as int + 1) == mmio_frames(m, k as int) + region_frames(
                    base,
                    bend,
                ));
                assert forall|v: u64|
                    base / PAGE_SIZE as u64 <= v < (base + size) / (PAGE_SIZE as int) implies !pt_pre.mapped(
                    v,
                ) by {
                    lemma_small_key(v);
                    lemma_div_ordered_int(base as int + size, layout.stext as int);
                    lemma_host_region_free(*layout, m, k as int, v, base, size);
                }
            }
            hpm.push_identity(base, bend, PTE_R | PTE_W, alloc);
            proof {
                let pt_post = hpm.page_table;
                lemma_builder_step(pt_pre, pt_post, base / PAGE_SIZE as u64, bend / PAGE_SIZE as u64);
                lemma_div_ordered(bend, layout.stext);
                lemma_div_ordered(layout.stext, layout.etext);
                lemma_seg_preserved(*layout, pt_pre, pt_post, base / PAGE_SIZE as u64, bend / PAGE_SIZE as u64);
                assert forall|i: int, v: u64|
                    0 <= i < k + 1 && (#[trigger] m[i]).0 / PAGE_SIZE as u64 <= v < (m[i].0 + m[i].1) / (
                PAGE_SIZE as int) implies #[trigger] pt_post.pte_bits_for(v) == spec_pte_bits(
                    v,
                    PTE_R | PTE_W | PTE_V,
                ) by {
                    if i < k {
                        lemma_small_key(v);
                        lemma_mmio_key_disjoint(m, i, k as int, v, layout.stext);
                        lemma_no_key_small(base / PAGE_SIZE as u64, bend / PAGE_SIZE as u64, v);
                    }
                }
                assert forall|v: u64| #[trigger] pt_post.mapped(v) implies vpn_key(v)
                    == tramp_key() || vpn_key(v) == vpn_key(TRAP_CONTEXT_VPN) || layout.seg_covers(
                    v,
                ) || mmio_covers(m, k as int + 1, v) by {
                    if pt_pre.mapped(v) {
                        if mmio_covers(m, k as int, v) {
                            let i = choose|i: int|
                                0 <= i < k && (#[trigger] m[i]).0 / PAGE_SIZE as u64 <= vpn_key(v) < (
                                m[i].0 + m[i].1) / (PAGE_SIZE as int);
                            assert(0 <= i < k + 1 && m[i].0 / PAGE_SIZE as u64 <= vpn_key(v) < (m[i].0
                                + m[i].1) / (PAGE_SIZE as int));
                        }
                    } else {
                        assert(base / PAGE_SIZE as u64 <= vpn_key(v) < bend / PAGE_SIZE as u64);
                        let i = k as int;
                        assert(0 <= i < k + 1 && m[i].0 / PAGE_SIZE as u64 <= vpn_key(v) < (m[i].0
                            + m[i].1) / (PAGE_SIZE as int));
                    }
                }
            }
            k = k + 1;
        }
        hpm
    }
}

/// After a push over `[s, e)` every mapped page was mapped before or
/// carries a key of the pushed range; packaged for the builder chain.
pub proof fn lemma_builder_step(pt0: PageTableSv39, pt1: PageTableSv39, s: u64, e: u64)
    requires
        e <= 0x400_0000,
        forall|v2: u64|
            !range_has_key(s, e, v2) ==> #[trigger] pt1.pte_bits_for(v2) == pt0.pte_bits_for(v2),
    ensures
        forall|v: u64| #[trigger] pt1.mapped(v) ==> pt0.mapped(v) || s <= vpn_key(v) < e,
        pt1.pte_bits_for(TRAMP_VPN) == pt0.pte_bits_for(TRAMP_VPN),
        pt1.pte_bits_for(TRAP_CONTEXT_VPN) == pt0.pte_bits_for(TRAP_CONTEXT_VPN),
        pt1.spec_translate(TRAMP_VPN) == pt0.spec_translate(TRAMP_VPN),
        pt1.spec_translate(TRAP_CONTEXT_VPN) == pt0.spec_translate(TRAP_CONTEXT_VPN),
        pt1.mapped(TRAP_CONTEXT_VPN) == pt0.mapped(TRAP_CONTEXT_VPN),
{
    lemma_mapped_step(pt0, pt1, s, e);
    lemma_special_preserved(pt0, pt1, s, e);
}

/// A push whose range lies at or above `etext` leaves every earlier
/// kernel-section page unchanged; one whose range lies below `stext`
/// leaves all of them unchanged.
pub proof fn lemma_seg_preserved(
    layout: KernelLayout,
    pt0: PageTableSv39,
    pt1: PageTableSv39,
    s: u64,
    e: u64,
)
    requires
        layout.wf(),
        e <= 0x400_0000,
        e <= layout.stext / PAGE_SIZE as u64 || s >= layout.etext / PAGE_SIZE as u64,
        forall|v2: u64|
            !range_has_key(s, e, v2) ==> #[trigger] pt1.pte_bits_for(v2) == pt0.pte_bits_for(v2),
    ensures
        forall|v: u64|
            layout.stext / PAGE_SIZE as u64 <= v < layout.etext / PAGE_SIZE as u64 ==> #[trigger]
                pt1.pte_bits_for(v) == pt0.pte_bits_for(v),
        e <= layout.stext / PAGE_SIZE as u64 || s >= layout.erodata / PAGE_SIZE as u64 ==> forall|v: u64|
            layout.srodata / PAGE_SIZE as u64 <= v < layout.erodata / PAGE_SIZE as u64 ==> #[trigger]
                pt1.pte_bits_for(v) == pt0.pte_bits_for(v),
        e <= layout.stext / PAGE_SIZE as u64 || s >= layout.edata / PAGE_SIZE as u64 ==> forall|v: u64|
            layout.sdata / PAGE_SIZE as u64 <= v < layout.edata / PAGE_SIZE as u64 ==> #[trigger]
                pt1.pte_bits_for(v) == pt0.pte_bits_for(v),
        e <= layout.stext / PAGE_SIZE as u64 || s >= layout.ebss / PAGE_SIZE as u64 ==> forall|v: u64|
            layout.sbss_with_stack / PAGE_SIZE as u64 <= v < layout.ebss / PAGE_SIZE as u64 ==> #[trigger]
                pt1.pte_bits_for(v) == pt0.pte_bits_for(v),
        e <= layout.stext / PAGE_SIZE as u64 || s >= layout.memory_end / PAGE_SIZE as u64 ==> forall|v: u64|
            layout.ekernel / PAGE_SIZE as u64 <= v < layout.memory_end / PAGE_SIZE as u64 ==> #[trigger]
                pt1.pte_bits_for(v) == pt0.pte_bits_for(v),
{
    lemma_div_ordered(layout.stext, layout.etext);
    lemma_div_ordered(layout.etext, layout.srodata);
    lemma_div_ordered(layout.srodata, layout.erodata);
    lemma_div_ordered(layout.erodata, layout.sdata);
    lemma_div_ordered(layout.sdata, layout.edata);
    lemma_div_ordered(layout.edata, layout.sbss_with_stack);
    lemma_div_ordered(layout.sbss_with_stack, layout.ebss);
    lemma_div_ordered(layout.ebss, layout.ekernel);
    lemma_div_ordered(layout.ekernel, layout.memory_end);
    lemma_div_ordered(layout.memory_end, 0x40_0000_0000);
    lemma_range_preserved(pt0, pt1, layout.stext / PAGE_SIZE as u64, layout.etext / PAGE_SIZE as u64, s, e);
    if e <= layout.stext / PAGE_SIZE as u64 || s >= layout.erodata / PAGE_SIZE as u64 {
        lemma_range_preserved(
            pt0,
            pt1,
            layout.srodata / PAGE_SIZE as u64,
            layout.erodata / PAGE_SIZE as u64,
            s,
            e,
        );
    }
    if e <= layout.stext / PAGE_SIZE as u64 || s >= layout.edata / PAGE_SIZE as u64 {
        lemma_range_preserved(pt0, pt1, layout.sdata / PAGE_SIZE as u64, layout.edata / PAGE_SIZE as u64, s, e);
    }
    if e <= layout.stext / PAGE_SIZE as u64 || s >= layout.ebss / PAGE_SIZE as u64 {
        lemma_range_preserved(
            pt0,
            pt1,
            layout.sbss_with_stack / PAGE_SIZE as u64,
            layout.ebss / PAGE_SIZE as u64,
            s,
            e,
        );
    }
    if e <= layout.stext / PAGE_SIZE as u64 || s >= layout.memory_end / PAGE_SIZE as u64 {
        lemma_range_preserved(
            pt0,
            pt1,
            layout.ekernel / PAGE_SIZE as u64,
            layout.memory_end / PAGE_SIZE as u64,
            s,
            e,
        );
    }
}

/// A page of a fresh MMIO region carries no key already in use: its key
/// lies below every kernel section and outside every earlier MMIO
/// region.
pub proof fn lemma_host_region_free(
    layout: KernelLayout,
    m: Seq<(u64, u64)>,
    k: int,
    v: u64,
    base: u64,
    size: u64,
)
    requires
        layout.wf(),
        mmio_wf(m, layout.stext),
        0 <= k < m.len(),
        m[k] == (base, size),
        base / PAGE_SIZE as u64 <= v < (base + size) / (PAGE_SIZE as int),
        vpn_key(v) == v,
    ensures
        vpn_key(v) != tramp_key(),
        vpn_key(v) != vpn_key(TRAP_CONTEXT_VPN),
        !layout.seg_covers(v),
        !mmio_covers(m, k, v),
{
    lemma_div_ordered_int(base as int + size, layout.stext as int);
    lemma_div_ordered(layout.stext, layout.etext);
    lemma_div_ordered(layout.etext, layout.srodata);
    lemma_div_ordered(layout.srodata, layout.erodata);
    lemma_div_ordered(layout.erodata, layout.sdata);
    lemma_div_ordered(layout.sdata, layout.edata);
    lemma_div_ordered(layout.edata, layout.sbss_with_stack);
    lemma_div_ordered(layout.sbss_with_stack, layout.ebss);
    lemma_div_ordered(layout.ebss, layout.ekernel);
    lemma_div_ordered(layout.ekernel, layout.memory_end);
    lemma_div_ordered(layout.memory_end, 0x40_0000_0000);
    lemma_special_keys(v);
    if mmio_covers(m, k, v) {
        let i = choose|i: int|
            0 <= i < k && (#[trigger] m[i]).0 / PAGE_SIZE as u64 <= vpn_key(v) < (m[i].0 + m[i].1) / (
            PAGE_SIZE as int);
        lemma_mmio_key_disjoint(m, i, k, v, layout.stext);
    }
}

/// Pages of two distinct MMIO regions never share a key.
pub proof fn lemma_mmio_key_disjoint(m: Seq<(u64, u64)>, i: int, k: int, v: u64, lo: u64)
    requires
        mmio_wf(m, lo),
        0 <= i < k < m.len(),
        m[i].0 / PAGE_SIZE as u64 <= vpn_key(v) < (m[i].0 + m[i].1) / (PAGE_SIZE as int),
    ensures
        !(m[k].0 / PAGE_SIZE as u64 <= vpn_key(v) < (m[k].0 + m[k].1) / (PAGE_SIZE as int)),
{
    if m[i].0 + m[i].1 <= m[k].0 {
        lemma_div_ordered_int(m[i].0 as int + m[i].1, m[k].0 as int);
    } else {
        lemma_div_ordered_int(m[k].0 as int + m[k].1, m[i].0 as int);
    }
}

// The guest builder.

/// The base of the PLIC window; only its threshold/claim/complete pages
/// are passed through to a guest.
pub const PLIC_BASE: u64 = 0x0c00_0000;

/// The span of the PLIC window a guest sees.
pub const PLIC_GUEST_SPAN: u64 = 0x20_0000;

/// The guest-visible span of an MMIO region: the PLIC window is cut to
/// its first pages, everything else passes through whole.
pub open spec fn guest_span(r: (u64, u64)) -> u64 {
    if r.0 == PLIC_BASE {
        PLIC_GUEST_SPAN
    } else {
        r.1
    }
}

/// Whether the walk key of `v` falls in one of the first `k` MMIO
/// regions as a guest sees them.
pub open spec fn guest_mmio_covers(m: Seq<(u64, u64)>, k: int, v: u64) -> bool {
    exists|i: int|
        0 <= i < k && (#[trigger] m[i]).0 / PAGE_SIZE as u64 <= vpn_key(v) < (m[i].0 + guest_span(m[i]))
            / (PAGE_SIZE as int)
}

/// The layout of one guest's physical address space.
pub struct GuestLayout {
    /// Start of the guest device-tree window.
    pub dtb_start: u64,
    /// End of the guest device-tree window.
    pub dtb_end: u64,
    /// Start of the guest kernel image.
    pub bin_start: u64,
    /// End of the guest kernel image.
    pub bin_end: u64,
    /// Physical address of the trampoline code page.
    pub strampoline: u64,
}

impl GuestLayout {
    /// Well-formed: aligned, ordered, below 2^38, trampoline frame
    /// addressable.
    pub open spec fn wf(self) -> bool {
        &&& aligned(self.dtb_start) && aligned(self.dtb_end) && aligned(self.bin_start) && aligned(
            self.bin_end,
        )
        &&& self.dtb_start <= self.dtb_end <= self.bin_start <= self.bin_end <= 0x40_0000_0000
        &&& (self.strampoline / PAGE_SIZE) < PPN_LIMIT
    }

    /// Frames the two guest RAM areas may draw together.
    pub open spec fn ram_frames(self) -> int {
        region_frames(self.dtb_start, self.dtb_end) + region_frames(self.bin_start, self.bin_end)
    }

}

/// The page numbers of a well-formed guest layout are ordered and below
/// 2^26.
pub proof fn lemma_guest_layout_bounds(l: GuestLayout)
    requires
        l.wf(),
    ensures
        l.dtb_start / PAGE_SIZE as u64 <= l.dtb_end / PAGE_SIZE as u64,
        l.dtb_end / PAGE_SIZE as u64 <= l.bin_start / PAGE_SIZE as u64,
        l.bin_start / PAGE_SIZE as u64 <= l.bin_end / PAGE_SIZE as u64,
        l.bin_end / PAGE_SIZE as u64 <= 0x400_0000,
{
    lemma_div_ordered(l.dtb_start, l.dtb_end);
    lemma_div_ordered(l.dtb_end, l.bin_start);
    lemma_div_ordered(l.bin_start, l.bin_end);
    lemma_div_ordered(l.bin_end, 0x40_0000_0000);
    vstd::arithmetic::div_mod::lemma_fundamental_div_mod_converse(
        0x40_0000_0000,
        PAGE_SIZE as int,
        0x400_0000,
        0,
    );
}

/// A page of a fresh guest MMIO region carries no key already in use.
pub proof fn lemma_guest_region_free(
    layout: GuestLayout,
    m: Seq<(u64, u64)>,
    k: int,
    v: u64,
    base: u64,
    gspan: u64,
)
    requires
        layout.wf(),
        mmio_wf(m, layout.dtb_start),
        forall|i: int|
            0 <= i < m.len() && (#[trigger] m[i]).0 == PLIC_BASE ==> m[i].1 >= PLIC_GUEST_SPAN,
        0 <= k < m.len(),
        m[k].0 == base,
        gspan == guest_span(m[k]),
        gspan <= m[k].1,
        base / PAGE_SIZE as u64 <= v < (base + gspan) / (PAGE_SIZE as int),
        vpn_key(v) == v,
    ensures
        vpn_key(v) != tramp_key(),
        !(layout.dtb_start / PAGE_SIZE as u64 <= vpn_key(v) < layout.dtb_end / PAGE_SIZE as u64),
        !(layout.bin_start / PAGE_SIZE as u64 <= vpn_key(v) < layout.bin_end / PAGE_SIZE as u64),
        !guest_mmio_covers(m, k, v),
{
    lemma_div_ordered_int(base as int + gspan, base as int + m[k].1);
    lemma_div_ordered_int(base as int + m[k].1, layout.dtb_start as int);
    lemma_guest_layout_bounds(layout);
    lemma_special_keys(v);
    if guest_mmio_covers(m, k, v) {
        let i = choose|i: int|
            0 <= i < k && (#[trigger] m[i]).0 / PAGE_SIZE as u64 <= vpn_key(v) < (m[i].0 + guest_span(
                m[i],
            )) / (PAGE_SIZE as int);
        lemma_div_ordered_int(m[i].0 as int + guest_span(m[i]), m[i].0 as int + m[i].1);
        if m[i].0 + m[i].1 <= m[k].0 {
            lemma_div_ordered_int(m[i].0 as int + m[i].1, m[k].0 as int);
        } else {
            lemma_div_ordered_int(m[k].0 as int + m[k].1, m[i].0 as int);
            lemma_div_ordered_int(base as int + gspan, base as int + m[k].1);
        }
    }
}

impl GuestMemorySet {
    /// Push a linear identity-mapped area over the byte range
    /// `[sa, ea)`.
    pub fn push_identity(&mut self, sa: u64, ea: u64, perm: u8, alloc: &mut StackFrameAllocator)
        requires
            old(self).inv(),
            aligned(sa),
            aligned(ea),
            sa <= ea,
            ea <= 0x40_0000_0000,
            old(alloc).wf(),
            old(alloc).limit() <= PPN_LIMIT,
            old(alloc).avail() >= region_frames(sa, ea),
            forall|v: u64| sa / PAGE_SIZE as u64 <= v < ea / PAGE_SIZE as u64 ==> !old(self).page_table.mapped(v),
        ensures
            final(self).inv(),
            final(alloc).wf(),
            final(alloc).limit() == old(alloc).limit(),
            final(alloc).avail() >= old(alloc).avail() - region_frames(sa, ea),
            final(self).areas@.len() == old(self).areas@.len() + 1,
            final(self).areas@.subrange(0, old(self).areas@.len() as int) == old(self).areas@,
            final(self).areas@.last().vpn_range.start.0 == sa / PAGE_SIZE as u64,
            final(self).areas@.last().vpn_range.end.0 == ea / PAGE_SIZE as u64,
            final(self).areas@.last().map_type == MapType::Linear,
            final(self).areas@.last().ppn_range matches Some(pr) && pr.start.0 == sa
                / PAGE_SIZE as u64 && pr.end.0 == ea / PAGE_SIZE as u64,
            final(self).areas@.last().map_perm == perm,
            final(self).page_table.root() == old(self).page_table.root(),
            forall|v: u64|
                sa / PAGE_SIZE as u64 <= v < ea / PAGE_SIZE as u64 ==> #[trigger] final(self).page_table.pte_bits_for(v) == spec_pte_bits(v, perm | PTE_V),
            forall|v2: u64|
                !range_has_key(sa / PAGE_SIZE as u64, ea / PAGE_SIZE as u64, v2) ==> #[trigger] final(self).page_table.pte_bits_for(v2) == old(self).page_table.pte_bits_for(v2),
    {
        proof {
            lemma_ceil_aligned(ea);
            lemma_div_ordered(sa, ea);
            lemma_div_ordered(ea, 0x40_0000_0000);
        }
        let area = MapArea::new(
            VirtAddr(sa),
            VirtAddr(ea),
            Some(PhysAddr(sa)),
            Some(PhysAddr(ea)),
            MapType::Linear,
            perm,
        );
        self.push(area, None, alloc);
    }

    /// The guest physical map the boot path builds: the DTB window and
    /// the guest image identity-mapped with U set, the trampoline page,
    /// and each MMIO region passed through with U set, the PLIC window
    /// cut to its guest-visible pages. Every leaf but the trampoline's
    /// carries the U bit.
    #[verifier::spinoff_prover]
    #[verifier::rlimit(100)]
    pub fn setup_gpm(
        layout: &GuestLayout,
        mmio: &Vec<(u64, u64)>,
        alloc: &mut StackFrameAllocator,
    ) -> (r: GuestMemorySet)
        requires
            old(alloc).wf(),
            old(alloc).limit() <= PPN_LIMIT,
            old(alloc).recycled_empty(),
            layout.wf(),
            mmio_wf(mmio@, layout.dtb_start),
            forall|i: int|
                0 <= i < mmio@.len() && (#[trigger] mmio@[i]).0 == PLIC_BASE ==> mmio@[i].1
                    >= PLIC_GUEST_SPAN,
            old(alloc).avail() >= layout.ram_frames() + mmio_frames(mmio@, mmio@.len() as int)
                + 16,
        ensures
            final(alloc).wf(),
            final(alloc).limit() == old(alloc).limit(),
            r.inv(),
            r.page_table.root() % 4 == 0,
            r.page_table.spec_translate(TRAMP_VPN) == Some(
                PageTableEntry {
                    bits: spec_pte_bits(layout.strampoline / PAGE_SIZE as u64, PTE_R | PTE_X | PTE_V),
                },
            ),
            forall|v: u64|
                layout.dtb_start / PAGE_SIZE as u64 <= v < layout.dtb_end / PAGE_SIZE as u64 ==> #[trigger]
                    r.page_table.pte_bits_for(v) == spec_pte_bits(
                    v,
                    PTE_R | PTE_W | PTE_U | PTE_V,
                ),
            forall|v: u64|
                layout.bin_start / PAGE_SIZE as u64 <= v < layout.bin_end / PAGE_SIZE as u64 ==> #[trigger]
                    r.page_table.pte_bits_for(v) == spec_pte_bits(
                    v,
                    PTE_R | PTE_W | PTE_X | PTE_U | PTE_V,
                ),
            forall|i: int, v: u64|
                0 <= i < mmio@.len() && (#[trigger] mmio@[i]).0 / PAGE_SIZE as u64 <= v < (mmio@[i].0
                    + guest_span(mmio@[i])) / (PAGE_SIZE as int) ==> #[trigger] r.page_table.pte_bits_for(
                    v,
                ) == spec_pte_bits(v, PTE_R | PTE_W | PTE_U | PTE_V),
            forall|v: u64|
                #[trigger] r.page_table.mapped(v) && vpn_key(v) != tramp_key() ==> spec_pte_flags(
                    r.page_table.pte_bits_for(v),
                ) & PTE_U == PTE_U,
            forall|v: u64|
                #[trigger] r.page_table.mapped(v) ==> vpn_key(v) == tramp_key() || (
                layout.dtb_start / PAGE_SIZE as u64 <= vpn_key(v) < layout.dtb_end / PAGE_SIZE as u64) || (
                layout.bin_start / PAGE_SIZE as u64 <= vpn_key(v) < layout.bin_end / PAGE_SIZE as u64)
                    || guest_mmio_covers(mmio@, mmio@.len() as int, v),
            r.areas@.len() == 2 + mmio@.len(),
            ({
                let a = r.areas@[0];
                &&& a.vpn_range.start.0 == layout.dtb_start / PAGE_SIZE as u64
                &&& a.vpn_range.end.0 == layout.dtb_end / PAGE_SIZE as u64
                &&& a.map_type == MapType::Linear
                &&& a.map_perm == (PTE_R | PTE_W | PTE_U)
                &&& (a.ppn_range matches Some(pr) && pr.start.0 == layout.dtb_start
                    / PAGE_SIZE as u64 && pr.end.0 == layout.dtb_end / PAGE_SIZE as u64)
            }),
            ({
                let a = r.areas@[1];
                &&& a.vpn_range.start.0 == layout.bin_start / PAGE_SIZE as u64
                &&& a.vpn_range.end.0 == layout.bin_end / PAGE_SIZE as u64
                &&& a.map_type == MapType::Linear
                &&& a.map_perm == (PTE_R | PTE_W | PTE_X | PTE_U)
                &&& (a.ppn_range matches Some(pr) && pr.start.0 == layout.bin_start
                    / PAGE_SIZE as u64 && pr.end.0 == layout.bin_end / PAGE_SIZE as u64)
            }),
            forall|i: int|
                #![trigger r.areas@[2 + i]]
                0 <= i < mmio@.len() ==> r.areas@[2 + i].vpn_range.start.0 == mmio@[i].0
                    / PAGE_SIZE as u64 && r.areas@[2 + i].vpn_range.end.0 == (mmio@[i].0
                    + guest_span(mmio@[i])) / (PAGE_SIZE as int),
            forall|i: int|
                #![trigger r.areas@[2 + i]]
                0 <= i < mmio@.len() ==> r.areas@[2 + i].map_type == MapType::Linear,
            forall|i: int|
                #![trigger r.areas@[2 + i]]
                0 <= i < mmio@.len() ==> r.areas@[2 + i].map_perm == (PTE_R | PTE_W | PTE_U),
            forall|i: int|
                #![trigger r.areas@[2 + i]]
                0 <= i < mmio@.len() ==> (r.areas@[2 + i].ppn_range matches Some(pr) && pr.start.0
                    == mmio@[i].0 / PAGE_SIZE as u64 && pr.end.0 == (mmio@[i].0 + guest_span(
                    mmio@[i],
                )) / (PAGE_SIZE as int)),
    {
        proof {
            lemma_mmio_frames_bounds(mmio@, mmio@.len() as int);
            lemma_guest_layout_bounds(*layout);
            lemma_region_frames_nonneg(layout.dtb_start, layout.dtb_end);
            lemma_region_frames_nonneg(layout.bin_start, layout.bin_end);
        }
        let mut gpm = GuestMemorySet::new_guest_bare(alloc);
        let ghost pt_bare = gpm.page_table;
        let ghost m = mmio@;
        let ghost mlen = mmio@.len() as int;
        proof {
            assert forall|v: u64|
                layout.dtb_start / PAGE_SIZE as u64 <= v < layout.dtb_end / PAGE_SIZE as u64 implies
                !pt_bare.mapped(v) by {}
        }
        gpm.push_identity(layout.dtb_start, layout.dtb_end, PTE_R | PTE_W | PTE_U, alloc);
        let ghost pt_dtb = gpm.page_table;
        proof {
            lemma_builder_step(
                pt_bare,
                pt_dtb,
                layout.dtb_start / PAGE_SIZE as u64,
                layout.dtb_end / PAGE_SIZE as u64,
            );
            assert forall|v: u64|
                layout.bin_start / PAGE_SIZE as u64 <= v < layout.bin_end / PAGE_SIZE as u64 implies
                !pt_dtb.mapped(v) by {
                lemma_small_key(v);
            }
        }
        gpm.push_identity(layout.bin_start, layout.bin_end, PTE_R | PTE_W | PTE_X | PTE_U, alloc);
        let ghost pt_bin = gpm.page_table;
        proof {
            lemma_builder_step(
                pt_dtb,
                pt_bin,
                layout.bin_start / PAGE_SIZE as u64,
                layout.bin_end / PAGE_SIZE as u64,
            );
            lemma_range_preserved(
                pt_dtb,
                pt_bin,
                layout.dtb_start / PAGE_SIZE as u64,
                layout.dtb_end / PAGE_SIZE as u64,
                layout.bin_start / PAGE_SIZE as u64,
                layout.bin_end / PAGE_SIZE as u64,
            );
            lemma_special_keys(0);
            assert(!pt_bin.mapped(TRAMP_VPN));
        }
        gpm.map_trampoline(PhysAddr(layout.strampoline), alloc);
        let ghost pt_tr = gpm.page_table;
        proof {
            assert forall|v: u64| #[trigger] pt_tr.mapped(v) implies pt_bin.mapped(v) || vpn_key(
                v,
            ) == tramp_key() by {
                if vpn_key(v) != tramp_key() {
                    assert(pt_tr.pte_bits_for(v) == pt_bin.pte_bits_for(v));
                }
            }
            assert forall|v: u64|
                layout.dtb_start / PAGE_SIZE as u64 <= v < layout.dtb_end / PAGE_SIZE as u64 implies #[trigger]
                pt_tr.pte_bits_for(v) == spec_pte_bits(v, PTE_R | PTE_W | PTE_U | PTE_V) by {
                lemma_small_key(v);
                lemma_special_keys(v);
            }
            assert forall|v: u64|
                layout.bin_start / PAGE_SIZE as u64 <= v < layout.bin_end / PAGE_SIZE as u64 implies #[trigger]
                pt_tr.pte_bits_for(v) == spec_pte_bits(
                v,
                PTE_R | PTE_W | PTE_X | PTE_U | PTE_V,
            ) by {
                lemma_small_key(v);
                lemma_special_keys(v);
            }
        }
        let ghost avail_ram = alloc.avail();
        proof {
            lemma_mmio_frames_bounds(m, 0);
        }
        let mut k: usize = 0;
        while k < mmio.len()
            invariant
                m == mmio@,
                mlen == mmio@.len() as int,
                layout.wf(),
                mmio_wf(m, layout.dtb_start),
                forall|i: int|
                    0 <= i < m.len() && (#[trigger] m[i]).0 == PLIC_BASE ==> m[i].1
                        >= PLIC_GUEST_SPAN,
                k <= mmio@.len(),
                gpm.inv(),
                alloc.wf(),
                alloc.limit() == old(alloc).limit(),
                alloc.limit() <= PPN_LIMIT,
                avail_ram >= mmio_frames(m, mlen),
                alloc.avail() >= avail_ram - mmio_frames(m, k as int),
                gpm.page_table.root() % 4 == 0,
                gpm.areas@.len() == 2 + k,
                ({
                    let a = gpm.areas@[0];
                    &&& a.vpn_range.start.0 == layout.dtb_start / PAGE_SIZE as u64
                    &&& a.vpn_range.end.0 == layout.dtb_end / PAGE_SIZE as u64
                    &&& a.map_type == MapType::Linear
                    &&& a.map_perm == (PTE_R | PTE_W | PTE_U)
                    &&& (a.ppn_range matches Some(pr) && pr.start.0 == layout.dtb_start
                        / PAGE_SIZE as u64 && pr.end.0 == layout.dtb_end / PAGE_SIZE as u64)
                }),
                ({
                    let a = gpm.areas@[1];
                    &&& a.vpn_range.start.0 == layout.bin_start / PAGE_SIZE as u64
                    &&& a.vpn_range.end.0 == layout.bin_end / PAGE_SIZE as u64
                    &&& a.map_type == MapType::Linear
                    &&& a.map_perm == (PTE_R | PTE_W | PTE_X | PTE_U)
                    &&& (a.ppn_range matches Some(pr) && pr.start.0 == layout.bin_start
                        / PAGE_SIZE as u64 && pr.end.0 == layout.bin_end / PAGE_SIZE as u64)
                }),
                forall|i: int|
                    #![trigger gpm.areas@[2 + i]]
                    0 <= i < k ==> gpm.areas@[2 + i].vpn_range.start.0 == m[i].0
                        / PAGE_SIZE as u64 && gpm.areas@[2 + i].vpn_range.end.0 == (m[i].0
                        + guest_span(m[i])) / (PAGE_SIZE as int),
                forall|i: int|
                    #![trigger gpm.areas@[2 + i]]
                    0 <= i < k ==> gpm.areas@[2 + i].map_type == MapType::Linear,
                forall|i: int|
                    #![trigger gpm.areas@[2 + i]]
                    0 <= i < k ==> gpm.areas@[2 + i].map_perm == (PTE_R | PTE_W | PTE_U),
                forall|i: int|
                    #![trigger gpm.areas@[2 + i]]
                    0 <= i < k ==> (gpm.areas@[2 + i].ppn_range matches Some(pr) && pr.start.0
                        == m[i].0 / PAGE_SIZE as u64 && pr.end.0 == (m[i].0 + guest_span(m[i]))
                        / (PAGE_SIZE as int)),
                gpm.page_table.spec_translate(TRAMP_VPN) == Some(
                    PageTableEntry {
                        bits: spec_pte_bits(layout.strampoline / PAGE_SIZE as u64, PTE_R | PTE_X | PTE_V),
                    },
                ),
                forall|v: u64|
                    layout.dtb_start / PAGE_SIZE as u64 <= v < layout.dtb_end / PAGE_SIZE as u64 ==> #[trigger]
                        gpm.page_table.pte_bits_for(v) == spec_pte_bits(
                        v,
                        PTE_R | PTE_W | PTE_U | PTE_V,
                    ),
                forall|v: u64|
                    layout.bin_start / PAGE_SIZE as u64 <= v < layout.bin_end / PAGE_SIZE as u64 ==> #[trigger]
                        gpm.page_table.pte_bits_for(v) == spec_pte_bits(
                        v,
                        PTE_R | PTE_W | PTE_X | PTE_U | PTE_V,
                    ),
                forall|i: int, v: u64|
                    0 <= i < k && (#[trigger] m[i]).0 / PAGE_SIZE as u64 <= v < (m[i].0 + guest_span(
                        m[i],
                    )) / (PAGE_SIZE as int) ==> #[trigger] gpm.page_table.pte_bits_for(v)
                        == spec_pte_bits(v, PTE_R | PTE_W | PTE_U | PTE_V),
                forall|v: u64|
                    #[trigger] gpm.page_table.mapped(v) ==> vpn_key(v) == tramp_key() || (
                    layout.dtb_start / PAGE_SIZE as u64 <= vpn_key(v) < layout.dtb_end / PAGE_SIZE as u64) || (
                    layout.bin_start / PAGE_SIZE as u64 <= vpn_key(v) < layout.bin_end / PAGE_SIZE as u64)
                        || guest_mmio_covers(m, k as int, v),
            decreases mmio@.len() - k,
        {
            let (base, size) = mmio[k];
            proof {
                assert(aligned((m[k as int]).0) && aligned(m[k as int].1) && m[k as int].0 + m[
                    k as int].1 <= layout.dtb_start);
            }
            let gspan: u64 = if base == PLIC_BASE {
                PLIC_GUEST_SPAN
            } else {
                size
            };
            let bend = base + gspan;
            let ghost pt_pre = gpm.page_table;
            proof {
                assert(gspan == guest_span(m[k as int]));
                assert(gspan <= m[k as int].1);
                lemma_mmio_frames_bounds(m, k as int);
                lemma_mmio_frames_bounds(m, k as int + 1);
                lemma_mmio_region_frames_nonneg(m, k as int);
                lemma_div_ordered_int(base as int + gspan, base as int + size);
                assert(mmio_frames(m, k as int + 1) == mmio_frames(m, k as int) + region_frames(
                    base,
                    (base + size) as u64,
                ));
                lemma_div_ordered_int(bend as int, base as int + size);
                vstd::arithmetic::div_mod::lemma_div_is_ordered(
                    (bend / PAGE_SIZE as u64 - base / PAGE_SIZE as u64) as int,
                    ((base + size) as u64 / PAGE_SIZE as u64 - base / PAGE_SIZE as u64) as int,
                    512,
                );
                lemma_div_ordered(base, bend);
                assert forall|v: u64|
                    base / PAGE_SIZE as u64 <= v < bend / PAGE_SIZE as u64 implies !pt_pre.mapped(v) by {
                    lemma_small_key(v);
                    lemma_guest_region_free(*layout, m, k as int, v, base, gspan);
                    lemma_div_ordered_int(base as int + size, layout.dtb_start as int);
                }
            }
            let ghost areas_pre = gpm.areas@;
            gpm.push_identity(base, bend, PTE_R | PTE_W | PTE_U, alloc);
            proof {
                assert(gpm.areas@.subrange(0, areas_pre.len() as int) == areas_pre);
                assert(gpm.areas@[0] == areas_pre[0]) by {
                    assert(gpm.areas@[0] == gpm.areas@.subrange(0, areas_pre.len() as int)[0]);
                }
                assert(gpm.areas@[1] == areas_pre[1]) by {
                    assert(gpm.areas@[1] == gpm.areas@.subrange(0, areas_pre.len() as int)[1]);
                }
                assert forall|i: int| #![trigger gpm.areas@[2 + i]] 0 <= i < k + 1 implies
                    gpm.areas@[2 + i].vpn_range.start.0 == m[i].0 / PAGE_SIZE as u64 && gpm.areas@[2
                    + i].vpn_range.end.0 == (m[i].0 + guest_span(m[i])) / (PAGE_SIZE as int)
                    && gpm.areas@[2 + i].map_type == MapType::Linear && gpm.areas@[2
                    + i].map_perm == (PTE_R | PTE_W | PTE_U) && (gpm.areas@[2 + i].ppn_range
                    matches Some(pr) && pr.start.0 == m[i].0 / PAGE_SIZE as u64 && pr.end.0 == (
                m[i].0 + guest_span(m[i])) / (PAGE_SIZE as int)) by {
                    if i < k {
                        assert(gpm.areas@[2 + i] == gpm.areas@.subrange(
                            0,
                            areas_pre.len() as int,
                        )[2 + i]);
                        assert(gpm.areas@[2 + i] == areas_pre[2 + i]);
                    } else {
                        assert(gpm.areas@[2 + i] == gpm.areas@.last());
                        assert(bend == m[i].0 + guest_span(m[i]));
                        assert(bend / PAGE_SIZE as u64 == (m[i].0 + guest_span(m[i])) / (
                        PAGE_SIZE as int));
                        assert(base / PAGE_SIZE as u64 == m[i].0 / PAGE_SIZE as u64);
                    }
                    assert(gpm.areas@[2 + i].vpn_range.start.0 == m[i].0 / PAGE_SIZE as u64);
                    assert(gpm.areas@[2 + i].vpn_range.end.0 == (m[i].0 + guest_span(m[i])) / (
                    PAGE_SIZE as int));
                    assert(gpm.areas@[2 + i].map_type == MapType::Linear);
                    assert(gpm.areas@[2 + i].map_perm == (PTE_R | PTE_W | PTE_U));
                    assert(gpm.areas@[2 + i].ppn_range matches Some(pr) && pr.start.0 == m[i].0
                        / PAGE_SIZE as u64 && pr.end.0 == (m[i].0 + guest_span(m[i])) / (
                    PAGE_SIZE as int));
                }
                assert forall|i: int| #![trigger gpm.areas@[2 + i]] 0 <= i < k + 1 implies
                    gpm.areas@[2 + i].map_type == MapType::Linear by {
                    assert(m[i] == m[i]);
                }
                assert forall|i: int| #![trigger gpm.areas@[2 + i]] 0 <= i < k + 1 implies
                    gpm.areas@[2 + i].map_perm == (PTE_R | PTE_W | PTE_U) by {
                    assert(m[i] == m[i]);
                }
                assert forall|i: int| #![trigger gpm.areas@[2 + i]] 0 <= i < k + 1 implies (
                gpm.areas@[2 + i].ppn_range matches Some(pr) && pr.start.0 == m[i].0
                    / PAGE_SIZE as u64 && pr.end.0 == (m[i].0 + guest_span(m[i])) / (
                PAGE_SIZE as int)) by {
                    assert(m[i] == m[i]);
                }
                let pt_post = gpm.page_table;
                lemma_builder_step(pt_pre, pt_post, base / PAGE_SIZE as u64, bend / PAGE_SIZE as u64);
                lemma_div_ordered_int(base as int + size, layout.dtb_start as int);
                lemma_range_preserved(
                    pt_pre,
                    pt_post,
                    layout.dtb_start / PAGE_SIZE as u64,
                    layout.dtb_end / PAGE_SIZE as u64,
                    base / PAGE_SIZE as u64,
                    bend / PAGE_SIZE as u64,
                );
                lemma_range_preserved(
                    pt_pre,
                    pt_post,
                    layout.bin_start / PAGE_SIZE as u64,
                    layout.bin_end / PAGE_SIZE as u64,
                    base / PAGE_SIZE as u64,
                    bend / PAGE_SIZE as u64,
                );
                assert forall|i: int, v: u64|
                    0 <= i < k + 1 && (#[trigger] m[i]).0 / PAGE_SIZE as u64 <= v < (m[i].0 + guest_span(
                        m[i],
                    )) / (PAGE_SIZE as int) implies #[trigger] pt_post.pte_bits_for(v) == spec_pte_bits(
                    v,
                    PTE_R | PTE_W | PTE_U | PTE_V,
                ) by {
                    if i < k {
                        lemma_small_key(v);
                        lemma_div_ordered_int(m[i].0 as int + guest_span(m[i]), m[i].0 as int + m[
                            i].1);
                        if m[i].0 + m[i].1 <= m[k as int].0 {
                            lemma_div_ordered_int(m[i].0 as int + m[i].1, m[k as int].0 as int);
                        } else {
                            lemma_div_ordered_int(
                                m[k as int].0 as int + m[k as int].1,
                                m[i].0 as int,
                            );
                        }
                        lemma_no_key_small(base / PAGE_SIZE as u64, bend / PAGE_SIZE as u64, v);
                    }
                }
                assert forall|v: u64| #[trigger] pt_post.mapped(v) implies vpn_key(v)
                    == tramp_key() || (layout.dtb_start / PAGE_SIZE as u64 <= vpn_key(v) < layout.dtb_end
                    / PAGE_SIZE as u64) || (layout.bin_start / PAGE_SIZE as u64 <= vpn_key(v) < layout.bin_end
                    / PAGE_SIZE as u64) || guest_mmio_covers(m, k as int + 1, v) by {
                    if pt_pre.mapped(v) {
                        if guest_mmio_covers(m, k as int, v) {
                            let i = choose|i: int|
                                0 <= i < k && (#[trigger] m[i]).0 / PAGE_SIZE as u64 <= vpn_key(v) < (
                                m[i].0 + guest_span(m[i])) / (PAGE_SIZE as int);
                            assert(0 <= i < k + 1 && m[i].0 / PAGE_SIZE as u64 <= vpn_key(v) < (m[i].0
                                + guest_span(m[i])) / (PAGE_SIZE as int));
                        }
                    } else {
                        assert(base / PAGE_SIZE as u64 <= vpn_key(v) < bend / PAGE_SIZE as u64);
                        let i = k as int;
                        assert(0 <= i < k + 1 && m[i].0 / PAGE_SIZE as u64 <= vpn_key(v) < (m[i].0
                            + guest_span(m[i])) / (PAGE_SIZE as int));
                    }
                }
            }
            k = k + 1;
        }
        proof {
            assert forall|v: u64|
                #[trigger] gpm.page_table.mapped(v) && vpn_key(v) != tramp_key() implies
                spec_pte_flags(gpm.page_table.pte_bits_for(v)) & PTE_U == PTE_U by {
                let pt = gpm.page_table;
                let w = vpn_key(v);
                lemma_key_idem(v);
                pt.lemma_translate_key(v, w);
                assert(((PTE_R | PTE_W | PTE_U) | PTE_V) & PTE_U == PTE_U) by (bit_vector);
                assert(((PTE_R | PTE_W | PTE_X | PTE_U) | PTE_V) & PTE_U == PTE_U)
                    by (bit_vector);
                if layout.dtb_start / PAGE_SIZE as u64 <= w < layout.dtb_end / PAGE_SIZE as u64 {
                    crate::pte::lemma_pte_roundtrip(w, (PTE_R | PTE_W | PTE_U) | PTE_V);
                } else if layout.bin_start / PAGE_SIZE as u64 <= w < layout.bin_end / PAGE_SIZE as u64 {
                    crate::pte::lemma_pte_roundtrip(w, (PTE_R | PTE_W | PTE_X | PTE_U) | PTE_V);
                } else {
                    assert(guest_mmio_covers(m, mlen, v));
                    let i = choose|i: int|
                        0 <= i < mlen && (#[trigger] m[i]).0 / PAGE_SIZE as u64 <= vpn_key(v) < (m[i].0
                            + guest_span(m[i])) / (PAGE_SIZE as int);
                    assert(m[i].0 / PAGE_SIZE as u64 <= w < (m[i].0 + guest_span(m[i])) / (PAGE_SIZE as int));
                    crate::pte::lemma_pte_roundtrip(w, (PTE_R | PTE_W | PTE_U) | PTE_V);
                }
            }
        }
        gpm
    }
}

// Remaining host-set operations and the per-guest hypervisor stack.

/// Bytes of one hypervisor kernel stack.
pub const KERNEL_STACK_SIZE: u64 = 0x4000;

/// Frames mirroring the first `n` areas of a guest map into the host's
/// linear window may draw.
pub open spec fn gpm_frames(areas: Seq<MapArea>, n: int) -> int
    decreases n,
{
    if n <= 0 {
        0
    } else {
        gpm_frames(areas, n - 1) + spec_area_frames(
            areas[n - 1].ppn_range->Some_0.start.0 as int,
            areas[n - 1].ppn_range->Some_0.end.0 as int,
            MapType::Linear,
        )
    }
}

impl HostMemorySet {
    /// Map a fresh-frame area over `[start_va, end_va)`; used for the
    /// per-guest hypervisor stacks.
    pub fn insert_framed_area(
        &mut self,
        start_va: VirtAddr,
        end_va: VirtAddr,
        permission: u8,
        alloc: &mut StackFrameAllocator,
    )
        requires
            old(self).inv(),
            old(alloc).wf(),
            old(alloc).limit() <= PPN_LIMIT,
            start_va.0 / PAGE_SIZE as u64 <= (end_va.0 + PAGE_SIZE - 1) / (PAGE_SIZE as int),
            (end_va.0 + PAGE_SIZE - 1) / (PAGE_SIZE as int) - start_va.0 / PAGE_SIZE as u64 <= 0x800_0000,
            old(alloc).avail() >= spec_area_frames(
                (start_va.0 / PAGE_SIZE) as int,
                (end_va.0 + PAGE_SIZE - 1) / (PAGE_SIZE as int),
                MapType::Framed,
            ),
            forall|v: u64|
                start_va.0 / PAGE_SIZE as u64 <= v < (end_va.0 + PAGE_SIZE - 1) / (PAGE_SIZE as int) ==> !old(self).page_table.mapped(v),
        ensures
            final(self).inv(),
            final(alloc).wf(),
            final(alloc).limit() == old(alloc).limit(),
            final(self).page_table.root() == old(self).page_table.root(),
            forall|v: u64|
                start_va.0 / PAGE_SIZE as u64 <= v < (end_va.0 + PAGE_SIZE - 1) / (PAGE_SIZE as int) ==> #[trigger]
                    final(self).page_table.mapped(v) && spec_pte_flags(
                    final(self).page_table.pte_bits_for(v),
                ) == permission | PTE_V,
            forall|v2: u64|
                !range_has_key(
                    start_va.0 / PAGE_SIZE as u64,
                    ((end_va.0 + PAGE_SIZE - 1) / (PAGE_SIZE as int)) as u64,
                    v2,
                ) ==> #[trigger] final(self).page_table.pte_bits_for(v2) == old(self).page_table.pte_bits_for(v2),
    {
        let area = MapArea::new(start_va, end_va, None, None, MapType::Framed, permission);
        self.push(area, None, alloc);
    }

    /// Install the linear window over one guest's physical memory, and
    /// over the guest DTB pages, so the hypervisor can read and write
    /// guest RAM through its own map.
    pub fn map_guest(&mut self, start_pa: u64, gpm_size: u64, alloc: &mut StackFrameAllocator)
        requires
            old(self).inv(),
            old(alloc).wf(),
            old(alloc).limit() <= PPN_LIMIT,
            aligned(start_pa),
            aligned(gpm_size),
            start_pa + gpm_size <= 0x40_0000_0000,
            old(alloc).avail() >= region_frames(0x9000_0000, 0x9020_0000) + region_frames(
                start_pa,
                (start_pa + gpm_size) as u64,
            ),
            forall|v: u64|
                #![trigger vpn_key(v)]
                0x9_0000 <= v < 0x9_0200 ==> !old(self).page_table.mapped(v),
            forall|v: u64|
                #![trigger vpn_key(v)]
                start_pa / PAGE_SIZE as u64 <= v < (start_pa + gpm_size) / (PAGE_SIZE as int) ==> !old(self).page_table.mapped(v) && !(0x9_0000 <= v < 0x9_0200),
        ensures
            final(self).inv(),
            final(alloc).wf(),
            final(alloc).limit() == old(alloc).limit(),
            final(self).page_table.root() == old(self).page_table.root(),
            forall|v: u64|
                0x9_0000 <= v < 0x9_0200 ==> #[trigger] final(self).page_table.pte_bits_for(v)
                    == spec_pte_bits(v, PTE_R | PTE_W | PTE_V),
            forall|v: u64|
                start_pa / PAGE_SIZE as u64 <= v < (start_pa + gpm_size) / (PAGE_SIZE as int) ==> #[trigger]
                    final(self).page_table.pte_bits_for(v) == spec_pte_bits(
                    v,
                    PTE_R | PTE_W | PTE_V,
                ),
            final(self).areas@.len() == old(self).areas@.len() + 2,
            final(self).areas@.subrange(0, old(self).areas@.len() as int) == old(self).areas@,
            ({
                let a = final(self).areas@[final(self).areas@.len() - 2];
                a.vpn_range.start.0 == 0x9_0000 && a.vpn_range.end.0 == 0x9_0200 && a.map_type
                    == MapType::Linear && a.map_perm == (PTE_R | PTE_W) && (a.ppn_range matches
                Some(pr) && pr.start.0 == 0x9_0000 && pr.end.0 == 0x9_0200)
            }),
            ({
                let a = final(self).areas@.last();
                a.vpn_range.start.0 == start_pa / PAGE_SIZE as u64 && a.vpn_range.end.0 == (
                start_pa + gpm_size) / (PAGE_SIZE as int) && a.map_type == MapType::Linear
                    && a.map_perm == (PTE_R | PTE_W) && (a.ppn_range matches Some(pr)
                    && pr.start.0 == start_pa / PAGE_SIZE as u64 && pr.end.0 == (start_pa
                    + gpm_size) / (PAGE_SIZE as int))
            }),
    {
        let ghost pt0 = self.page_table;
        proof {
            assert forall|v: u64|
                0x9000_0000u64 / PAGE_SIZE as u64 <= v < 0x9020_0000u64 / PAGE_SIZE as u64 implies
                !old(self).page_table.mapped(v) by {
                lemma_small_key(v);
            }
        }
        self.push_identity(0x9000_0000, 0x9020_0000, PTE_R | PTE_W, alloc);
        let ghost pt1 = self.page_table;
        let wend = start_pa + gpm_size;
        proof {
            assert(wend / PAGE_SIZE as u64 == (start_pa + gpm_size) / (PAGE_SIZE as int));
        }
        proof {
            vstd::arithmetic::div_mod::lemma_fundamental_div_mod_converse(
                0x9000_0000,
                PAGE_SIZE as int,
                0x9_0000,
                0,
            );
            vstd::arithmetic::div_mod::lemma_fundamental_div_mod_converse(
                0x9020_0000,
                PAGE_SIZE as int,
                0x9_0200,
                0,
            );
        }
        proof {
            lemma_div_ordered(start_pa, wend);
            lemma_div_ordered(wend, 0x40_0000_0000);
            vstd::arithmetic::div_mod::lemma_fundamental_div_mod_converse(
                0x40_0000_0000,
                PAGE_SIZE as int,
                0x400_0000,
                0,
            );
            assert forall|v: u64|
                start_pa / PAGE_SIZE as u64 <= v < wend / PAGE_SIZE as u64 implies !pt1.mapped(v) by {
                lemma_small_key(v);
                assert(!old(self).page_table.mapped(v) || old(self).page_table.mapped(v));
                assert(!(0x9_0000 <= v < 0x9_0200));
                lemma_no_key_small(0x9_0000, 0x9_0200, v);
            }
        }
        self.push_identity(start_pa, wend, PTE_R | PTE_W, alloc);
        proof {
            lemma_div_ordered(start_pa, wend);
            lemma_div_ordered(wend, 0x40_0000_0000);
            vstd::arithmetic::div_mod::lemma_fundamental_div_mod_converse(
                0x40_0000_0000,
                PAGE_SIZE as int,
                0x400_0000,
                0,
            );
            assert forall|v: u64| 0x9_0000 <= v < 0x9_0200 implies #[trigger]
                self.page_table.pte_bits_for(v) == spec_pte_bits(v, PTE_R | PTE_W | PTE_V) by {
                lemma_small_key(v);
                assert(!old(self).page_table.mapped(v) || old(self).page_table.mapped(v));
                assert(!(start_pa / PAGE_SIZE as u64 <= v < wend / PAGE_SIZE as u64));
                lemma_no_key_small(start_pa / PAGE_SIZE as u64, wend / PAGE_SIZE as u64, v);
            }
        }
    }

    /// Mirror every area of a guest map into this set at its physical
    /// addresses, so guest frames are reachable from the host map.
    pub fn map_gpm(&mut self, gpm: &GuestMemorySet, alloc: &mut StackFrameAllocator)
        requires
            old(self).inv(),
            old(alloc).wf(),
            old(alloc).limit() <= PPN_LIMIT,
            forall|i: int|
                0 <= i < gpm.areas@.len() ==> (#[trigger] gpm.areas@[i]).ppn_range is Some
                    && gpm.areas@[i].ppn_range->Some_0.start.0
                    <= gpm.areas@[i].ppn_range->Some_0.end.0
                    && gpm.areas@[i].ppn_range->Some_0.end.0 <= 0x400_0000,
            forall|i: int, v: u64|
                #![trigger gpm.areas@[i], old(self).page_table.mapped(v)]
                0 <= i < gpm.areas@.len() && gpm.areas@[i].ppn_range->Some_0.start.0 <= v
                    < gpm.areas@[i].ppn_range->Some_0.end.0 ==> !old(self).page_table.mapped(v),
            forall|i: int, j: int|
                0 <= i < j < gpm.areas@.len() ==> (#[trigger] gpm.areas@[i]).ppn_range->Some_0.end.0
                    <= (#[trigger] gpm.areas@[j]).ppn_range->Some_0.start.0
                    || gpm.areas@[j].ppn_range->Some_0.end.0
                    <= gpm.areas@[i].ppn_range->Some_0.start.0,
            old(alloc).avail() >= gpm_frames(gpm.areas@, gpm.areas@.len() as int),
        ensures
            final(self).inv(),
            final(alloc).wf(),
            final(alloc).limit() == old(alloc).limit(),
            final(self).page_table.root() == old(self).page_table.root(),
            forall|i: int, v: u64|
                #![trigger gpm.areas@[i], final(self).page_table.pte_bits_for(v)]
                0 <= i < gpm.areas@.len() && gpm.areas@[i].ppn_range->Some_0.start.0 <= v
                    < gpm.areas@[i].ppn_range->Some_0.end.0 ==> final(self).page_table.pte_bits_for(v) == spec_pte_bits(v, gpm.areas@[i].map_perm | PTE_V),
            final(self).areas@.len() == old(self).areas@.len() + gpm.areas@.len(),
            final(self).areas@.subrange(0, old(self).areas@.len() as int) == old(self).areas@,
            forall|i: int|
                #![trigger gpm.areas@[i]]
                0 <= i < gpm.areas@.len() ==> ({
                    let a = final(self).areas@[old(self).areas@.len() + i];
                    &&& a.vpn_range.start.0 == gpm.areas@[i].ppn_range->Some_0.start.0
                    &&& a.vpn_range.end.0 == gpm.areas@[i].ppn_range->Some_0.end.0
                    &&& a.map_type == MapType::Linear
                    &&& a.map_perm == gpm.areas@[i].map_perm
                    &&& (a.ppn_range matches Some(pr) && pr.start.0
                        == gpm.areas@[i].ppn_range->Some_0.start.0 && pr.end.0
                        == gpm.areas@[i].ppn_range->Some_0.end.0)
                }),
    {
        let ghost glen = gpm.areas@.len() as int;
        let ghost areas0 = self.areas@;
        let ghost pt0 = self.page_table;
        let ghost a0 = old(alloc).avail();
        proof {
            lemma_gpm_frames_bounds(gpm.areas@, gpm.areas@.len() as int);
        }
        let mut k: usize = 0;
        while k < gpm.areas.len()
            invariant
                glen == gpm.areas@.len() as int,
                pt0 == old(self).page_table,
                a0 >= gpm_frames(gpm.areas@, glen),
                k <= gpm.areas@.len(),
                self.inv(),
                alloc.wf(),
                alloc.limit() == old(alloc).limit(),
                alloc.limit() <= PPN_LIMIT,
                alloc.avail() >= a0 - gpm_frames(gpm.areas@, k as int),
                self.page_table.root() == pt0.root(),
                areas0 == old(self).areas@,
                self.areas@.len() == areas0.len() + k,
                self.areas@.subrange(0, areas0.len() as int) == areas0,
                forall|i: int|
                    #![trigger gpm.areas@[i]]
                    0 <= i < k ==> ({
                        let a = self.areas@[areas0.len() + i];
                        &&& a.vpn_range.start.0 == gpm.areas@[i].ppn_range->Some_0.start.0
                        &&& a.vpn_range.end.0 == gpm.areas@[i].ppn_range->Some_0.end.0
                        &&& a.map_type == MapType::Linear
                        &&& a.map_perm == gpm.areas@[i].map_perm
                        &&& (a.ppn_range matches Some(pr) && pr.start.0
                            == gpm.areas@[i].ppn_range->Some_0.start.0 && pr.end.0
                            == gpm.areas@[i].ppn_range->Some_0.end.0)
                    }),
                forall|i: int|
                    0 <= i < gpm.areas@.len() ==> (#[trigger] gpm.areas@[i]).ppn_range is Some
                        && gpm.areas@[i].ppn_range->Some_0.start.0 <= gpm.areas@[i].ppn_range->Some_0.end.0 && gpm.areas@[
                    i].ppn_range->Some_0.end.0 <= 0x400_0000,
                forall|i: int, v: u64|
                    #![trigger gpm.areas@[i], pt0.mapped(v)]
                    0 <= i < gpm.areas@.len() && gpm.areas@[i].ppn_range->Some_0.start.0 <= v < gpm.areas@[
                    i].ppn_range->Some_0.end.0 ==> !pt0.mapped(v),
                forall|i: int, j: int|
                    0 <= i < j < gpm.areas@.len() ==> (#[trigger] gpm.areas@[i]).ppn_range->Some_0.end.0
                        <= (#[trigger] gpm.areas@[j]).ppn_range->Some_0.start.0
                        || gpm.areas@[j].ppn_range->Some_0.end.0
                        <= gpm.areas@[i].ppn_range->Some_0.start.0,
                forall|i: int, v: u64|
                    #![trigger gpm.areas@[i], self.page_table.pte_bits_for(v)]
                    0 <= i < k && gpm.areas@[i].ppn_range->Some_0.start.0 <= v < gpm.areas@[
                    i].ppn_range->Some_0.end.0 ==> self.page_table.pte_bits_for(v)
                        == spec_pte_bits(v, gpm.areas@[i].map_perm | PTE_V),
                forall|v: u64|
                    #[trigger] self.page_table.mapped(v) ==> pt0.mapped(v) || exists|i: int|
                        0 <= i < k && (#[trigger] gpm.areas@[i]).ppn_range->Some_0.start.0 <= vpn_key(v)
                            < gpm.areas@[i].ppn_range->Some_0.end.0,
            decreases gpm.areas@.len() - k,
        {
            let area_ref = &gpm.areas[k];
            let pr = area_ref.ppn_range.unwrap();
            let s = pr.get_start().0;
            let e = pr.get_end().0;
            let perm = area_ref.map_perm;
            let mt = area_ref.map_type;
            let new_area = MapArea {
                vpn_range: crate::addr::VPNRange::new(VirtPageNum(s), VirtPageNum(e)),
                ppn_range: Some(PPNRange::new(PhysPageNum(s), PhysPageNum(e))),
                data_frames: Vec::new(),
                map_type: MapType::Linear,
                map_perm: perm,
            };
            let ghost pt_pre = self.page_table;
            proof {
                lemma_gpm_frames_bounds(gpm.areas@, k as int);
                lemma_gpm_frames_bounds(gpm.areas@, k as int + 1);
                assert forall|v: u64| s <= v < e implies !pt_pre.mapped(v) by {
                    lemma_small_key(v);
                    if pt_pre.mapped(v) {
                        assert(!pt0.mapped(v));
                        let i = choose|i: int|
                            0 <= i < k && (#[trigger] gpm.areas@[i]).ppn_range->Some_0.start.0 <= vpn_key(
                                v,
                            ) < gpm.areas@[i].ppn_range->Some_0.end.0;
                        assert(gpm.areas@[i].ppn_range->Some_0.start.0 <= v < gpm.areas@[
                        i].ppn_range->Some_0.end.0);
                        assert(false);
                    }
                }
            }
            let ghost areas_pre = self.areas@;
            self.push(new_area, None, alloc);
            proof {
                assert(self.areas@.subrange(0, areas0.len() as int) =~= areas0);
                assert forall|i: int| #![trigger gpm.areas@[i]] 0 <= i < k + 1 implies ({
                    let a = self.areas@[areas0.len() + i];
                    &&& a.vpn_range.start.0 == gpm.areas@[i].ppn_range->Some_0.start.0
                    &&& a.vpn_range.end.0 == gpm.areas@[i].ppn_range->Some_0.end.0
                    &&& a.map_type == MapType::Linear
                    &&& a.map_perm == gpm.areas@[i].map_perm
                    &&& (a.ppn_range matches Some(pr) && pr.start.0
                        == gpm.areas@[i].ppn_range->Some_0.start.0 && pr.end.0
                        == gpm.areas@[i].ppn_range->Some_0.end.0)
                }) by {
                    if i < k {
                        assert(self.areas@[areas0.len() + i] == self.areas@.subrange(
                            0,
                            areas_pre.len() as int,
                        )[areas0.len() + i]);
                        assert(self.areas@[areas0.len() + i] == areas_pre[areas0.len() + i]);
                    } else {
                        assert(self.areas@[areas0.len() + i] == self.areas@.last());
                    }
                }
                let pt_post = self.page_table;
                lemma_mapped_step(pt_pre, pt_post, s, e);
                assert forall|i: int, v: u64|
                    #![trigger gpm.areas@[i], pt_post.pte_bits_for(v)]
                    0 <= i < k + 1 && gpm.areas@[i].ppn_range->Some_0.start.0 <= v < gpm.areas@[
                i].ppn_range->Some_0.end.0 implies pt_post.pte_bits_for(v) == spec_pte_bits(
                    v,
                    gpm.areas@[i].map_perm | PTE_V,
                ) by {
                    if i < k {
                        lemma_small_key(v);
                        lemma_no_key_small(s, e, v);
                    }
                }
                assert forall|v: u64| #[trigger] pt_post.mapped(v) implies pt0.mapped(v) || exists|
                    i: int,
                |
                    0 <= i < k + 1 && (#[trigger] gpm.areas@[i]).ppn_range->Some_0.start.0 <= vpn_key(v)
                        < gpm.areas@[i].ppn_range->Some_0.end.0 by {
                    if pt_pre.mapped(v) {
                        if !pt0.mapped(v) {
                            let i = choose|i: int|
                                0 <= i < k && (#[trigger] gpm.areas@[i]).ppn_range->Some_0.start.0
                                    <= vpn_key(v) < gpm.areas@[i].ppn_range->Some_0.end.0;
                            assert(0 <= i < k + 1 && gpm.areas@[i].ppn_range->Some_0.start.0 <= vpn_key(v)
                                < gpm.areas@[i].ppn_range->Some_0.end.0);
                        }
                    } else {
                        let i = k as int;
                        assert(0 <= i < k + 1 && gpm.areas@[i].ppn_range->Some_0.start.0 <= vpn_key(v)
                            < gpm.areas@[i].ppn_range->Some_0.end.0);
                    }
                }
            }
            k = k + 1;
        }
    }

}

/// Prefix frame allowances of a guest map are nonnegative and monotone.
pub proof fn lemma_gpm_frames_bounds(areas: Seq<MapArea>, n: int)
    requires
        0 <= n <= areas.len(),
        forall|i: int|
            0 <= i < areas.len() ==> (#[trigger] areas[i]).ppn_range is Some
                && areas[i].ppn_range->Some_0.start.0 <= areas[i].ppn_range->Some_0.end.0,
    ensures
        0 <= gpm_frames(areas, n) <= gpm_frames(areas, areas.len() as int),
    decreases areas.len() - n,
{
    lemma_gpm_frames_nonneg(areas, n);
    if n < areas.len() {
        lemma_gpm_frames_bounds(areas, n + 1);
    }
}

/// Prefix frame allowances of a guest map are nonnegative.
proof fn lemma_gpm_frames_nonneg(areas: Seq<MapArea>, n: int)
    requires
        0 <= n <= areas.len(),
        forall|i: int|
            0 <= i < areas.len() ==> (#[trigger] areas[i]).ppn_range is Some
                && areas[i].ppn_range->Some_0.start.0 <= areas[i].ppn_range->Some_0.end.0,
    ensures
        0 <= gpm_frames(areas, n),
    decreases n,
{
    if n > 0 {
        lemma_gpm_frames_nonneg(areas, n - 1);
        vstd::arithmetic::div_mod::lemma_div_pos_is_pos(
            (areas[n - 1].ppn_range->Some_0.end.0 - areas[n - 1].ppn_range->Some_0.start.0) as int,
            512,
        );
    }
}

/// One hypervisor kernel stack, identified by the guest it serves.
pub struct HypervisorStack(pub u64);

/// The virtual bounds of the hypervisor stack of a guest: stacks hang
/// below the trap-context page, one guard page between neighbours.
pub fn hstack_position(guest_id: u64) -> (r: (u64, u64))
    requires
        guest_id <= 16,
    ensures
        r.1 == TRAP_CONTEXT - guest_id * (KERNEL_STACK_SIZE + PAGE_SIZE),
        r.0 == r.1 - KERNEL_STACK_SIZE,
{
    let top = TRAP_CONTEXT - guest_id * (KERNEL_STACK_SIZE + PAGE_SIZE);
    (top - KERNEL_STACK_SIZE, top)
}

impl HypervisorStack {
    /// The top of this stack.
    pub fn get_top(&self) -> (r: u64)
        requires
            self.0 <= 16,
        ensures
            r == TRAP_CONTEXT - self.0 * (KERNEL_STACK_SIZE + PAGE_SIZE),
    {
        let (_bottom, top) = hstack_position(self.0);
        top
    }
}

} // verus!
