//! The Sv39 page table: a three-level radix tree of 512-entry tables.
//!
//! `map` walks from the root, allocating interior tables with only the
//! Valid bit, and writes the leaf with the caller's flags plus Valid; a
//! page that is already mapped is rejected, never overwritten. `unmap`
//! clears the leaf to zero. `translate` returns the leaf entry if it is
//! Valid. The same type serves both translation stages; the G-stage
//! variant is built by `new_guest`, whose root frame is 16-KiB-aligned.
//!
//! An absent interior table stands for a zero-filled frame, so the raw
//! entry bits of every virtual page are always defined: zero when no
//! table on the path holds them.

use vstd::prelude::*;

use crate::addr::{
    lemma_indexes_bounded, lemma_indexes_injective, lemma_key_indexes, spec_indexes, vpn_key,
    PhysPageNum, VirtPageNum, PAGE_SIZE,
};
use crate::error::PageTableError;
use crate::frame_allocator::StackFrameAllocator;
use crate::pte::{spec_pte_bits, spec_pte_valid, PageTableEntry, PPN_LIMIT, PTE_V};

verus! {

/// A level-2 (leaf) table: 512 raw page-table entries in one frame.
pub struct LeafTable {
    /// The frame holding the table.
    pub ppn: u64,
    /// The 512 raw entries.
    pub entries: Vec<u64>,
}

/// A level-1 table: each slot either points at a leaf table or is empty.
pub struct MidTable {
    /// The frame holding the table.
    pub ppn: u64,
    /// The 512 slots.
    pub kids: Vec<Option<LeafTable>>,
}

impl LeafTable {
    /// Well-formed: exactly 512 entries.
    pub closed spec fn wf(self) -> bool {
        self.entries.len() == 512
    }

    /// A fresh zero-filled table in the given frame.
    fn new(ppn: u64) -> (r: LeafTable)
        ensures
            r.wf(),
            r.ppn == ppn,
            forall|i: int| 0 <= i < 512 ==> r.entries@[i] == 0u64,
    {
        let mut entries: Vec<u64> = Vec::new();
        let mut i: usize = 0;
        while i < 512
            invariant
                i <= 512,
                entries.len() == i,
                forall|j: int| 0 <= j < i ==> entries@[j] == 0u64,
            decreases 512 - i,
        {
            entries.push(0u64);
            i = i + 1;
        }
        LeafTable { ppn, entries }
    }
}

impl MidTable {
    /// Well-formed: 512 slots, every present leaf well-formed.
    pub closed spec fn wf(self) -> bool {
        &&& self.kids.len() == 512
        &&& forall|i: int|
            0 <= i < 512 ==> ((#[trigger] self.kids@[i]) matches Some(l) ==> l.wf())
    }

    /// The raw bits stored for slot pair `(i1, i2)`; zero when the leaf
    /// table is absent, as an absent table stands for a zeroed frame.
    pub closed spec fn leaf_bits(self, i1: int, i2: int) -> u64 {
        match self.kids@[i1] {
            Some(l) => l.entries@[i2],
            None => 0u64,
        }
    }

    /// A fresh table with all slots empty, in the given frame.
    fn new(ppn: u64) -> (r: MidTable)
        ensures
            r.wf(),
            r.ppn == ppn,
            forall|a: int, b: int| 0 <= a < 512 && 0 <= b < 512 ==> r.leaf_bits(a, b) == 0u64,
    {
        let mut kids: Vec<Option<LeafTable>> = Vec::new();
        let mut i: usize = 0;
        while i < 512
            invariant
                i <= 512,
                kids.len() == i,
                forall|j: int| 0 <= j < i ==> kids@[j] is None,
            decreases 512 - i,
        {
            kids.push(None);
            i = i + 1;
        }
        MidTable { ppn, kids }
    }

    /// Write raw bits into slot pair `(i1, i2)`, creating the leaf table
    /// if absent; rejected when the slot already holds a Valid entry.
    fn map_entry(
        &mut self,
        i1: usize,
        i2: usize,
        bits: u64,
        alloc: &mut StackFrameAllocator,
    ) -> (r: Result<(), PageTableError>)
        requires
            old(self).wf(),
            old(alloc).wf(),
            i1 < 512,
            i2 < 512,
        ensures
            final(self).wf(),
            final(alloc).wf(),
            final(self).ppn == old(self).ppn,
            final(alloc).limit() == old(alloc).limit(),
            final(alloc).avail() >= old(alloc).avail() - 1,
            match r {
                Ok(()) => {
                    &&& !spec_pte_valid(old(self).leaf_bits(i1 as int, i2 as int))
                    &&& final(self).leaf_bits(i1 as int, i2 as int) == bits
                    &&& forall|a: int, b: int|
                        0 <= a < 512 && 0 <= b < 512 && !(a == i1 && b == i2)
                            ==> #[trigger] final(self).leaf_bits(a, b) == old(self).leaf_bits(
                            a,
                            b,
                        )
                },
                Err(PageTableError::AlreadyMapped) => {
                    &&& spec_pte_valid(old(self).leaf_bits(i1 as int, i2 as int))
                    &&& forall|a: int, b: int|
                        0 <= a < 512 && 0 <= b < 512 ==> #[trigger] final(self).leaf_bits(a, b)
                            == old(self).leaf_bits(a, b)
                    &&& final(alloc).avail() == old(alloc).avail()
                },
                Err(PageTableError::OutOfFrames) => {
                    &&& !spec_pte_valid(old(self).leaf_bits(i1 as int, i2 as int))
                    &&& old(alloc).avail() == 0
                    &&& forall|a: int, b: int|
                        0 <= a < 512 && 0 <= b < 512 ==> #[trigger] final(self).leaf_bits(a, b)
                            == old(self).leaf_bits(a, b)
                },
                Err(PageTableError::NotMapped) => false,
            },
            old(alloc).avail() >= 1 || old(self).kids@[i1 as int] is Some ==> !(r matches Err(
                PageTableError::OutOfFrames,
            )),
            old(self).kids@[i1 as int] is Some ==> final(alloc).avail() >= old(alloc).avail(),
            final(alloc).watermark() >= old(alloc).watermark(),
            forall|q: u64| final(alloc).is_free(q) ==> old(alloc).is_free(q),
            r is Ok ==> final(self).kids@[i1 as int] is Some,
            forall|j: int|
                0 <= j < 512 && old(self).kids@[j] is Some ==> final(self).kids@[j] is Some,
    {
        proof {
            assert(!spec_pte_valid(0u64)) by (bit_vector);
        }
        if self.kids[i1].is_none() {
            match alloc.alloc_frame() {
                None => {
                    return Err(PageTableError::OutOfFrames);
                },
                Some(f) => {
                    let leaf = LeafTable::new(f.0);
                    self.kids[i1] = Some(leaf);
                    proof {
                        assert forall|a: int, b: int|
                            0 <= a < 512 && 0 <= b < 512 implies #[trigger] self.leaf_bits(a, b)
                            == old(self).leaf_bits(a, b) by {
                            if a != i1 as int {
                                assert(self.kids@[a] == old(self).kids@[a]);
                            }
                        }
                    }
                },
            }
        }
        let ghost mid1 = *self;
        let ghost alloc1 = *alloc;
        let slot = &mut self.kids[i1];
        match slot {
            Some(l) => {
                let cur = l.entries[i2];
                if cur & 1 == 1 {
                    proof {
                        assert(*final(slot) == mid1.kids@[i1 as int]);
                        assert(final(self).kids@ =~= mid1.kids@);
                        assert(spec_pte_valid(cur));
                    }
                    return Err(PageTableError::AlreadyMapped);
                }
                proof {
                    assert(!spec_pte_valid(cur));
                }
                l.entries[i2] = bits;
                proof {
                    let fl = *final(l);
                    assert(fl.entries@ == mid1.leaf_at(i1 as int).entries@.update(
                        i2 as int,
                        bits,
                    ));
                    assert(final(self).kids@ == mid1.kids@.update(i1 as int, Some(fl)));
                    assert forall|a: int, b: int|
                        0 <= a < 512 && 0 <= b < 512 && !(a == i1 && b == i2)
                        implies #[trigger] final(self).leaf_bits(a, b) == mid1.leaf_bits(
                        a,
                        b,
                    ) by {
                        if a != i1 as int {
                            assert(final(self).kids@[a] == mid1.kids@[a]);
                        }
                    }
                }
                Ok(())
            },
            None => {
                proof {
                    assert(false);
                }
                Err(PageTableError::OutOfFrames)
            },
        }
    }

    /// The leaf table at a slot that holds one.
    pub closed spec fn leaf_at(self, i1: int) -> LeafTable {
        self.kids@[i1]->Some_0
    }

    /// Whether this table or one of its leaf tables lives in frame `p`.
    pub closed spec fn holds_frame(self, p: u64) -> bool {
        ||| self.ppn == p
        ||| exists|j: int|
            0 <= j < self.kids@.len() && ((#[trigger] self.kids@[j]) matches Some(l) && l.ppn
                == p)
    }

    /// Clear slot pair `(i1, i2)` to zero; rejected when it holds no
    /// Valid entry.
    fn unmap_entry(&mut self, i1: usize, i2: usize) -> (r: Result<(), PageTableError>)
        requires
            old(self).wf(),
            i1 < 512,
            i2 < 512,
        ensures
            final(self).wf(),
            final(self).ppn == old(self).ppn,
            match r {
                Ok(()) => {
                    &&& spec_pte_valid(old(self).leaf_bits(i1 as int, i2 as int))
                    &&& final(self).leaf_bits(i1 as int, i2 as int) == 0u64
                    &&& forall|a: int, b: int|
                        0 <= a < 512 && 0 <= b < 512 && !(a == i1 && b == i2)
                            ==> #[trigger] final(self).leaf_bits(a, b) == old(self).leaf_bits(
                            a,
                            b,
                        )
                },
                Err(PageTableError::NotMapped) => {
                    &&& !spec_pte_valid(old(self).leaf_bits(i1 as int, i2 as int))
                    &&& forall|a: int, b: int|
                        0 <= a < 512 && 0 <= b < 512 ==> #[trigger] final(self).leaf_bits(a, b)
                            == old(self).leaf_bits(a, b)
                },
                _ => false,
            },
    {
        proof {
            assert(!spec_pte_valid(0u64)) by (bit_vector);
        }
        let slot = &mut self.kids[i1];
        match slot {
            Some(l) => {
                let cur = l.entries[i2];
                if cur & 1 == 1 {
                    l.entries[i2] = 0u64;
                    proof {
                        let fl = *final(l);
                        assert(fl.entries@ == old(self).leaf_at(i1 as int).entries@.update(
                            i2 as int,
                            0u64,
                        ));
                        assert(final(self).kids@ == old(self).kids@.update(i1 as int, Some(fl)));
                        assert(spec_pte_valid(cur));
                        assert forall|a: int, b: int|
                            0 <= a < 512 && 0 <= b < 512 && !(a == i1 && b == i2)
                            implies #[trigger] final(self).leaf_bits(a, b) == old(
                            self,
                        ).leaf_bits(a, b) by {
                            if a != i1 as int {
                                assert(final(self).kids@[a] == old(self).kids@[a]);
                            }
                        }
                    }
                    Ok(())
                } else {
                    proof {
                        assert(*final(slot) == old(self).kids@[i1 as int]);
                        assert(final(self).kids@ =~= old(self).kids@);
                        assert(!spec_pte_valid(cur));
                    }
                    Err(PageTableError::NotMapped)
                }
            },
            None => Err(PageTableError::NotMapped),
        }
    }

    /// Read the raw bits of slot pair `(i1, i2)`.
    fn read_entry(&self, i1: usize, i2: usize) -> (r: u64)
        requires
            self.wf(),
            i1 < 512,
            i2 < 512,
        ensures
            r == self.leaf_bits(i1 as int, i2 as int),
    {
        match &self.kids[i1] {
            Some(l) => l.entries[i2],
            None => 0u64,
        }
    }
}

/// A pushed sequence contains what the original contained, and the
/// pushed value.
proof fn lemma_push_contains(s: Seq<u64>, v: u64, q: u64)
    requires
        s.contains(q) || q == v,
    ensures
        s.push(v).contains(q),
{
    if s.contains(q) {
        let i = choose|i: int| 0 <= i < s.len() && s[i] == q;
        assert(s.push(v)[i] == q);
    } else {
        assert(s.push(v).last() == q);
    }
}

/// Within four consecutive numbers one is divisible by four, and the
/// first such offset from `w` is `(4 - w % 4) % 4`.
proof fn lemma_aligned_within_four(w: int)
    requires
        w >= 0,
    ensures
        0 <= (4 - w % 4) % 4 <= 3,
        (w + (4 - w % 4) % 4) % 4 == 0,
{
    let r = w % 4;
    assert(0 <= r < 4 && w == 4 * (w / 4) + r) by (nonlinear_arith)
        requires
            w >= 0,
            r == w % 4,
    ;
    if r == 0 {
        assert((4 - r) % 4 == 0);
    } else {
        assert((4 - r) % 4 == 4 - r);
        let q = w / 4;
        assert(w + (4 - r) == 4 * (q + 1));
        assert((4 * (q + 1)) % 4 == 0) by (nonlinear_arith);
    }
}

/// The Sv39 page table, owning its interior frames.
pub struct PageTableSv39 {
    /// The frame holding the root table.
    pub root_ppn: u64,
    kids: Vec<Option<MidTable>>,
    spare: Vec<u64>,
}

impl PageTableSv39 {
    /// Well-formed: 512 root slots, every present table well-formed.
    pub closed spec fn wf(self) -> bool {
        &&& self.kids.len() == 512
        &&& forall|i: int|
            0 <= i < 512 ==> ((#[trigger] self.kids@[i]) matches Some(m) ==> m.wf())
    }

    /// The raw page-table-entry bits an Sv39 walk of this tree yields for
    /// a virtual page number; zero wherever no table holds an entry.
    pub closed spec fn pte_bits_for(self, vpn: u64) -> u64 {
        let idx = spec_indexes(vpn);
        match self.kids@[idx.0 as int] {
            Some(m) => m.leaf_bits(idx.1 as int, idx.2 as int),
            None => 0u64,
        }
    }

    /// What `translate` returns: the leaf entry if Valid, else nothing.
    pub open spec fn spec_translate(self, vpn: u64) -> Option<PageTableEntry> {
        if spec_pte_valid(self.pte_bits_for(vpn)) {
            Some(PageTableEntry { bits: self.pte_bits_for(vpn) })
        } else {
            None
        }
    }

    /// The page number of the frame holding the root table.
    pub closed spec fn root(self) -> u64 {
        self.root_ppn
    }

    /// Whether both interior tables on the walk of `vpn` already exist,
    /// so a map of `vpn` draws no frame.
    pub closed spec fn tables_ready(self, vpn: u64) -> bool {
        let idx = spec_indexes(vpn);
        self.kids@[idx.0 as int] matches Some(m) && m.kids@[idx.1 as int] is Some
    }

    /// Two neighbouring page numbers not separated by a 512-page
    /// boundary walk through the same interior tables.
    pub proof fn lemma_tables_ready_neighbor(self, v: u64)
        requires
            v & 0x1ff != 0,
        ensures
            self.tables_ready(v) == self.tables_ready((v - 1) as u64),
    {
        assert(v & 0x1ff != 0 ==> v >= 1 && ((v - 1) as u64 >> 9) & 0x1ff == (v >> 9) & 0x1ff && (
        (v - 1) as u64 >> 18) & 0x1ff == (v >> 18) & 0x1ff) by (bit_vector);
    }

    /// Whether the table holds frame `p`: as its root, as an interior or
    /// leaf table, or among the frames retained for root alignment.
    pub closed spec fn holds_frame(self, p: u64) -> bool {
        ||| self.root_ppn == p
        ||| self.spare@.contains(p)
        ||| exists|i: int|
            0 <= i < self.kids@.len() && ((#[trigger] self.kids@[i]) matches Some(m)
                && m.holds_frame(p))
    }

    /// Whether a virtual page number has a Valid mapping.
    pub open spec fn mapped(self, vpn: u64) -> bool {
        self.spec_translate(vpn) is Some
    }

    /// No virtual page has a Valid mapping.
    pub open spec fn is_unmapped(self) -> bool {
        forall|v: u64| !self.mapped(v)
    }

    /// The walk reads only the 27 index bits of a page number.
    pub proof fn lemma_translate_key(self, a: u64, b: u64)
        requires
            vpn_key(a) == vpn_key(b),
        ensures
            self.pte_bits_for(a) == self.pte_bits_for(b),
            self.spec_translate(a) == self.spec_translate(b),
    {
        lemma_key_indexes(a, b);
    }

    /// A fresh page table holding only its root frame; no page is mapped.
    pub fn new(alloc: &mut StackFrameAllocator) -> (r: PageTableSv39)
        requires
            old(alloc).wf(),
            old(alloc).avail() >= 1,
        ensures
            final(alloc).wf(),
            final(alloc).limit() == old(alloc).limit(),
            final(alloc).avail() >= old(alloc).avail() - 1,
            r.wf(),
            r.is_unmapped(),
            forall|p: u64|
                old(alloc).is_free(p) && !final(alloc).is_free(p) ==> r.holds_frame(p),
    {
        let root = alloc.alloc_frame().unwrap();
        let mut kids: Vec<Option<MidTable>> = Vec::new();
        let mut i: usize = 0;
        while i < 512
            invariant
                i <= 512,
                kids.len() == i,
                forall|j: int| 0 <= j < i ==> kids@[j] is None,
            decreases 512 - i,
        {
            kids.push(None);
            i = i + 1;
        }
        let pt = PageTableSv39 { root_ppn: root.0, kids, spare: Vec::new() };
        proof {
            assert(!spec_pte_valid(0u64)) by (bit_vector);
            assert forall|v: u64| !pt.mapped(v) by {
                lemma_indexes_bounded(v);
            }
        }
        pt
    }

    /// A fresh G-stage page table: frames are drawn until one with a
    /// 16-KiB-aligned page number arrives; rejected frames are retained,
    /// never returned, and three extra frames extend the root to the
    /// 16 KiB the hardware reads. No page is mapped. From a fresh
    /// allocator an aligned frame comes within four draws, so seven
    /// available frames suffice.
    pub fn new_guest(alloc: &mut StackFrameAllocator) -> (r: PageTableSv39)
        requires
            old(alloc).wf(),
            old(alloc).recycled_empty(),
            old(alloc).avail() >= 7,
        ensures
            final(alloc).wf(),
            final(alloc).limit() == old(alloc).limit(),
            final(alloc).avail() >= old(alloc).avail() - 7,
            r.wf(),
            r.is_unmapped(),
            r.root() % 4 == 0,
            forall|p: u64|
                old(alloc).is_free(p) && !final(alloc).is_free(p) ==> r.holds_frame(p),
    {
        let ghost w0 = old(alloc).watermark();
        let ghost a0 = old(alloc).avail();
        let ghost fresh0 = old(alloc).recycled_empty();
        let ghost kstar = (4 - (w0 as int % 4)) % 4;
        proof {
            old(alloc).lemma_avail_nonneg();
        }
        let mut spare: Vec<u64> = Vec::new();
        let mut root: u64 = 0;
        let ghost mut drawn: int = 0;
        loop
            invariant_except_break
                w0 == old(alloc).watermark(),
                a0 == old(alloc).avail(),
                fresh0 == old(alloc).recycled_empty(),
                kstar == (4 - (w0 as int % 4)) % 4,
                alloc.wf(),
                alloc.limit() == old(alloc).limit(),
                alloc.avail() == a0 - drawn,
                0 <= drawn <= a0,
                fresh0,
                a0 >= 7,
                alloc.recycled_empty() && alloc.watermark() as int == w0 as int + drawn,
                drawn <= kstar,
                forall|p: u64|
                    old(alloc).is_free(p) && !alloc.is_free(p) ==> spare@.contains(p),
            ensures
                root % 4 == 0,
                alloc.wf(),
                alloc.limit() == old(alloc).limit(),
                alloc.avail() >= 3,
                alloc.avail() >= a0 - 4,
                forall|p: u64|
                    old(alloc).is_free(p) && !alloc.is_free(p) ==> spare@.contains(p) || p
                        == root,
            decreases a0 - drawn,
        {
            proof {
                lemma_aligned_within_four(w0 as int);
            }
            proof {
                assert(drawn <= kstar <= 3);
            }
            match alloc.alloc_frame() {
                None => {
                    proof {
                        assert(false);
                    }
                },
                Some(f) => {
                    if f.0 % 4 == 0 {
                        root = f.0;
                        proof {
                            assert(alloc.avail() == a0 - drawn - 1);
                            assert(alloc.avail() >= 3);
                        }
                        break;
                    }
                    proof {
                        assert(f.0 as int == w0 as int + drawn);
                        if drawn == kstar {
                            assert((w0 as int + kstar) % 4 == 0);
                            assert(f.0 as int % 4 == 0);
                            assert((f.0 % 4) as int == f.0 as int % 4) by (nonlinear_arith);
                            assert(false);
                        }
                        drawn = drawn + 1;
                    }
                    let ghost spare0 = spare@;
                    spare.push(f.0);
                    proof {
                        assert forall|p: u64|
                            old(alloc).is_free(p) && !alloc.is_free(p) implies spare@.contains(
                            p,
                        ) by {
                            lemma_push_contains(spare0, f.0, p);
                        }
                    }
                },
            }
        }
        let ghost avail1 = alloc.avail();
        proof {
            alloc.lemma_avail_nonneg();
        }
        let mut extras: u64 = 0;
        while extras < 3
            invariant
                a0 == old(alloc).avail(),
                avail1 >= 3,
                alloc.wf(),
                alloc.limit() == old(alloc).limit(),
                extras <= 3,
                alloc.avail() == avail1 - extras,
                forall|p: u64|
                    old(alloc).is_free(p) && !alloc.is_free(p) ==> spare@.contains(p) || p
                        == root,
            decreases 3 - extras,
        {
            match alloc.alloc_frame() {
                None => {
                    proof {
                        assert(false);
                    }
                },
                Some(f) => {
                    let ghost spare0 = spare@;
                    spare.push(f.0);
                    proof {
                        assert forall|p: u64|
                            old(alloc).is_free(p) && !alloc.is_free(p) implies spare@.contains(p)
                            || p == root by {
                            if p != root {
                                lemma_push_contains(spare0, f.0, p);
                            }
                        }
                    }
                    extras = extras + 1;
                },
            }
        }
        let mut kids: Vec<Option<MidTable>> = Vec::new();
        let mut i: usize = 0;
        while i < 512
            invariant
                i <= 512,
                kids.len() == i,
                forall|j: int| 0 <= j < i ==> kids@[j] is None,
            decreases 512 - i,
        {
            kids.push(None);
            i = i + 1;
        }
        let pt = PageTableSv39 { root_ppn: root, kids, spare };
        proof {
            assert(!spec_pte_valid(0u64)) by (bit_vector);
            assert forall|v: u64| !pt.mapped(v) by {
                lemma_indexes_bounded(v);
            }
        }
        pt
    }

    /// The satp/hgatp token for this table: MODE 8 with the root page
    /// number. MODE 8 reads as Sv39 in satp and as Sv39x4 in hgatp.
    pub fn token(&self) -> (r: u64)
        ensures
            r == (8u64 << 60) | self.root(),
    {
        (8u64 << 60) | self.root_ppn
    }

    /// Map a virtual page onto a physical page with the given flags plus
    /// Valid. A page that is already mapped is rejected, never
    /// overwritten; interior tables are created as needed, so at most
    /// two frames are drawn.
    pub fn map(
        &mut self,
        vpn: VirtPageNum,
        ppn: PhysPageNum,
        flags: u8,
        alloc: &mut StackFrameAllocator,
    ) -> (r: Result<(), PageTableError>)
        requires
            old(self).wf(),
            old(alloc).wf(),
            ppn.0 < PPN_LIMIT,
        ensures
            final(self).wf(),
            final(alloc).wf(),
            final(self).root() == old(self).root(),
            final(alloc).limit() == old(alloc).limit(),
            final(alloc).avail() >= old(alloc).avail() - 2,
            match r {
                Ok(()) => {
                    &&& !old(self).mapped(vpn.0)
                    &&& final(self).pte_bits_for(vpn.0) == spec_pte_bits(ppn.0, flags | PTE_V)
                    &&& final(self).spec_translate(vpn.0) == Some(
                        PageTableEntry { bits: spec_pte_bits(ppn.0, flags | PTE_V) },
                    )
                    &&& forall|v2: u64|
                        vpn_key(v2) != vpn_key(vpn.0) ==> #[trigger] final(self).pte_bits_for(v2)
                            == old(self).pte_bits_for(v2)
                },
                Err(PageTableError::AlreadyMapped) => old(self).mapped(vpn.0) && forall|v2: u64|
                    #[trigger] final(self).pte_bits_for(v2) == old(self).pte_bits_for(v2),
                Err(PageTableError::OutOfFrames) => {
                    &&& !old(self).mapped(vpn.0)
                    &&& old(alloc).avail() < 2
                    &&& forall|v2: u64|
                        #[trigger] final(self).pte_bits_for(v2) == old(self).pte_bits_for(v2)
                },
                Err(PageTableError::NotMapped) => false,
            },
            !old(self).mapped(vpn.0) && old(alloc).avail() >= 2 ==> r is Ok,
            !old(self).mapped(vpn.0) && old(self).tables_ready(vpn.0) ==> r is Ok,
            old(self).tables_ready(vpn.0) ==> final(alloc).avail() >= old(alloc).avail(),
            final(alloc).watermark() >= old(alloc).watermark(),
            forall|q: u64| final(alloc).is_free(q) ==> old(alloc).is_free(q),
            r is Ok ==> final(self).tables_ready(vpn.0),
            forall|w: u64| old(self).tables_ready(w) ==> final(self).tables_ready(w),
    {
        let (i0, i1, i2) = vpn.indexes();
        let i0u = i0 as usize;
        proof {
            assert(!spec_pte_valid(0u64)) by (bit_vector);
        }
        proof {
            assert(PTE_V == 1u8);
            assert((flags | 1u8) & 1u8 == 1u8) by (bit_vector);
            crate::pte::lemma_pte_roundtrip(ppn.0, flags | PTE_V);
        }
        let entry = PageTableEntry::new(ppn, flags | PTE_V);
        let bits = entry.bits;
        if self.kids[i0u].is_none() {
            match alloc.alloc_frame() {
                None => {
                    return Err(PageTableError::OutOfFrames);
                },
                Some(f) => {
                    let mid = MidTable::new(f.0);
                    self.kids[i0u] = Some(mid);
                    proof {
                        assert forall|v2: u64| #[trigger]
                            self.pte_bits_for(v2) == old(self).pte_bits_for(v2) by {
                            lemma_indexes_bounded(v2);
                            let jdx = spec_indexes(v2);
                            if jdx.0 as int != i0u as int {
                                assert(self.kids@[jdx.0 as int] == old(self).kids@[jdx.0 as int]);
                            }
                        }
                    }
                },
            }
        }
        let ghost self1 = *self;
        let ghost alloc1 = *alloc;
        let slot = &mut self.kids[i0u];
        match slot {
            Some(m) => {
                let ghost m1 = *m;
                let res = m.map_entry(i1 as usize, i2 as usize, bits, alloc);
                proof {
                    let fm = *final(m);
                    assert(*final(slot) == Some(fm));
                    assert(final(self).kids@ == self1.kids@.update(i0u as int, Some(fm)));
                    assert(self1.pte_bits_for(vpn.0) == m1.leaf_bits(i1 as int, i2 as int));
                    match res {
                        Ok(()) => {
                            assert(final(self).pte_bits_for(vpn.0) == fm.leaf_bits(
                                i1 as int,
                                i2 as int,
                            ));
                            assert forall|v2: u64| vpn_key(v2) != vpn_key(vpn.0) implies #[trigger]
                                final(self).pte_bits_for(v2) == self1.pte_bits_for(v2) by {
                                lemma_indexes_bounded(v2);
                                let jdx = spec_indexes(v2);
                                if jdx.0 as int == i0u as int {
                                    if jdx.1 as int == i1 as int && jdx.2 as int == i2 as int {
                                        lemma_indexes_injective(v2, vpn.0);
                                        assert(false);
                                    }
                                } else {
                                    assert(final(self).kids@[jdx.0 as int] == self1.kids@[jdx.0
                                        as int]);
                                }
                            }
                        },
                        _ => {
                            assert forall|v2: u64| #[trigger]
                                final(self).pte_bits_for(v2) == self1.pte_bits_for(v2) by {
                                lemma_indexes_bounded(v2);
                                let jdx = spec_indexes(v2);
                                if jdx.0 as int != i0u as int {
                                    assert(final(self).kids@[jdx.0 as int] == self1.kids@[jdx.0
                                        as int]);
                                }
                            }
                        },
                    }
                }
                proof {
                    let fm = *final(m);
                    assert forall|w: u64| old(self).tables_ready(w) implies final(self).tables_ready(w) by {
                        lemma_indexes_bounded(w);
                        let jdx = spec_indexes(w);
                        if jdx.0 as int == i0u as int {
                            assert(old(self).kids@[i0u as int] is Some);
                            assert(self1.kids@[i0u as int] == old(self).kids@[i0u as int]);
                            assert(m1.kids@[jdx.1 as int] is Some);
                            assert(fm.kids@[jdx.1 as int] is Some);
                            assert(final(self).kids@[i0u as int] == Some(fm));
                        } else {
                            assert(final(self).kids@[jdx.0 as int] == self1.kids@[jdx.0 as int]);
                            assert(self1.kids@[jdx.0 as int] == old(self).kids@[jdx.0 as int]);
                        }
                    }
                }
                match res {
                    Ok(()) => Ok(()),
                    Err(PageTableError::AlreadyMapped) => Err(PageTableError::AlreadyMapped),
                    Err(_) => Err(PageTableError::OutOfFrames),
                }
            },
            None => {
                proof {
                    assert(false);
                }
                Err(PageTableError::OutOfFrames)
            },
        }
    }

    /// Remove the mapping of a virtual page: the leaf entry is cleared to
    /// zero. A page with no Valid mapping is rejected.
    pub fn unmap(&mut self, vpn: VirtPageNum) -> (r: Result<(), PageTableError>)
        requires
            old(self).wf(),
        ensures
            final(self).wf(),
            final(self).root() == old(self).root(),
            match r {
                Ok(()) => {
                    &&& old(self).mapped(vpn.0)
                    &&& final(self).pte_bits_for(vpn.0) == 0u64
                    &&& final(self).spec_translate(vpn.0) is None
                    &&& forall|v2: u64|
                        vpn_key(v2) != vpn_key(vpn.0) ==> #[trigger] final(self).pte_bits_for(v2)
                            == old(self).pte_bits_for(v2)
                },
                Err(PageTableError::NotMapped) => !old(self).mapped(vpn.0) && forall|v2: u64|
                    #[trigger] final(self).pte_bits_for(v2) == old(self).pte_bits_for(v2),
                _ => false,
            },
            r is Ok <==> old(self).mapped(vpn.0),
    {
        let (i0, i1, i2) = vpn.indexes();
        let i0u = i0 as usize;
        proof {
            assert(!spec_pte_valid(0u64)) by (bit_vector);
        }
        let ghost self0 = *self;
        let slot = &mut self.kids[i0u];
        match slot {
            Some(m) => {
                let ghost m1 = *m;
                let res = m.unmap_entry(i1 as usize, i2 as usize);
                proof {
                    let fm = *final(m);
                    assert(*final(slot) == Some(fm));
                    assert(final(self).kids@ == self0.kids@.update(i0u as int, Some(fm)));
                    assert(self0.pte_bits_for(vpn.0) == m1.leaf_bits(i1 as int, i2 as int));
                    match res {
                        Ok(()) => {
                            assert forall|v2: u64| vpn_key(v2) != vpn_key(vpn.0) implies #[trigger]
                                final(self).pte_bits_for(v2) == self0.pte_bits_for(v2) by {
                                lemma_indexes_bounded(v2);
                                let jdx = spec_indexes(v2);
                                if jdx.0 as int == i0u as int {
                                    if jdx.1 as int == i1 as int && jdx.2 as int == i2 as int {
                                        lemma_indexes_injective(v2, vpn.0);
                                        assert(false);
                                    }
                                } else {
                                    assert(final(self).kids@[jdx.0 as int] == self0.kids@[jdx.0
                                        as int]);
                                }
                            }
                        },
                        _ => {
                            assert forall|v2: u64| #[trigger]
                                final(self).pte_bits_for(v2) == self0.pte_bits_for(v2) by {
                                lemma_indexes_bounded(v2);
                                let jdx = spec_indexes(v2);
                                if jdx.0 as int != i0u as int {
                                    assert(final(self).kids@[jdx.0 as int] == self0.kids@[jdx.0
                                        as int]);
                                }
                            }
                        },
                    }
                }
                match res {
                    Ok(()) => Ok(()),
                    Err(_) => Err(PageTableError::NotMapped),
                }
            },
            None => {
                proof {
                    assert(*final(slot) == self0.kids@[i0u as int]);
                    assert(final(self).kids@ =~= self0.kids@);
                    assert forall|v2: u64| #[trigger]
                        final(self).pte_bits_for(v2) == self0.pte_bits_for(v2) by {
                        lemma_indexes_bounded(v2);
                        let jdx = spec_indexes(v2);
                        assert(final(self).kids@[jdx.0 as int] == self0.kids@[jdx.0 as int]);
                    }
                }
                Err(PageTableError::NotMapped)
            },
        }
    }

    /// The leaf entry of a virtual page if it is Valid, else nothing.
    pub fn translate(&self, vpn: VirtPageNum) -> (r: Option<PageTableEntry>)
        requires
            self.wf(),
        ensures
            r == self.spec_translate(vpn.0),
    {
        let (i0, i1, i2) = vpn.indexes();
        let bits = match &self.kids[i0 as usize] {
            Some(m) => m.read_entry(i1 as usize, i2 as usize),
            None => 0u64,
        };
        proof {
            assert(spec_pte_valid(bits) == (bits & 1 == 1));
            assert(!spec_pte_valid(0u64)) by (bit_vector);
        }
        if bits & 1 == 1 {
            Some(PageTableEntry { bits })
        } else {
            None
        }
    }

    /// Translate a virtual address: the mapped frame's base plus the
    /// offset inside the page.
    pub fn translate_va(&self, va: u64) -> (r: Option<u64>)
        requires
            self.wf(),
        ensures
            match self.spec_translate(va / PAGE_SIZE as u64) {
                Some(pte) => r == Some((pte.ppn_spec() * PAGE_SIZE + va % PAGE_SIZE) as u64),
                None => r is None,
            },
    {
        let offset = va % PAGE_SIZE;
        let vpn = VirtPageNum(va / PAGE_SIZE);
        match self.translate(vpn) {
            Some(pte) => {
                let p = pte.ppn();
                proof {
                    let b = pte.bits;
                    assert((b >> 10) & 0xfff_ffff_ffff < 0x1000_0000_0000u64) by (bit_vector);
                }
                Some(p.0 * PAGE_SIZE + offset)
            },
            None => None,
        }
    }
}

} // verus!
