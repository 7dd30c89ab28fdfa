//! A stack-based physical frame allocator.
//!
//! The allocator hands out page numbers from `[current, end)` and keeps a
//! recycle list; page numbers below the watermark come exclusively from
//! that list, so no frame is handed out twice concurrently.

use vstd::prelude::*;

use crate::addr::{PhysPageNum, PAGE_SIZE};

verus! {

/// A frame handed out by the allocator, paired with its zero-filled
/// contents.
pub struct FrameTracker {
    /// The physical page number of the frame.
    pub ppn: PhysPageNum,
    /// The bytes of the page.
    pub data: Vec<u8>,
}

impl FrameTracker {
    /// Well-formed: exactly one page of bytes.
    pub open spec fn wf(&self) -> bool {
        self.data.len() == PAGE_SIZE
    }

    /// Take a frame into service: the page is cleaned to zero.
    pub fn new(ppn: PhysPageNum) -> (r: FrameTracker)
        ensures
            r.wf(),
            r.ppn == ppn,
            forall|i: int| 0 <= i < PAGE_SIZE ==> r.data@[i] == 0u8,
    {
        let mut data: Vec<u8> = Vec::new();
        let mut i: usize = 0;
        while i < PAGE_SIZE as usize
            invariant
                i <= PAGE_SIZE as usize,
                data.len() == i,
                forall|j: int| 0 <= j < i ==> data@[j] == 0u8,
            decreases PAGE_SIZE as usize - i,
        {
            data.push(0u8);
            i = i + 1;
        }
        FrameTracker { ppn, data }
    }
}

/// The stack-based allocator: fresh frames from `[current, end)`, returned
/// frames on the recycle list.
pub struct StackFrameAllocator {
    current: u64,
    end: u64,
    recycled: Vec<u64>,
}

impl StackFrameAllocator {
    /// Well-formed: the fresh range is ordered and every recycled frame
    /// lies below the watermark, with no duplicates.
    pub closed spec fn wf(self) -> bool {
        &&& self.current <= self.end
        &&& forall|i: int| 0 <= i < self.recycled.len() ==> #[trigger] self.recycled@[i]
            < self.current
        &&& forall|i: int, j: int|
            0 <= i < j < self.recycled.len() ==> self.recycled@[i] != self.recycled@[j]
    }

    /// Whether a page number is free: on the recycle list or in the fresh
    /// range.
    pub closed spec fn is_free(self, ppn: u64) -> bool {
        self.recycled@.contains(ppn) || (self.current <= ppn < self.end)
    }

    /// How many frames the allocator can still hand out.
    pub closed spec fn avail(self) -> int {
        self.end - self.current + self.recycled.len()
    }

    /// The next fresh page number.
    pub closed spec fn watermark(self) -> u64 {
        self.current
    }

    /// One past the last page number the allocator may hand out.
    pub closed spec fn limit(self) -> u64 {
        self.end
    }

    /// Whether the recycle list is empty.
    pub closed spec fn recycled_empty(self) -> bool {
        self.recycled.len() == 0
    }

    /// The number of frames still available is never negative.
    pub proof fn lemma_avail_nonneg(self)
        requires
            self.wf(),
        ensures
            self.avail() >= 0,
    {
    }

    /// An empty allocator; `init` gives it a range.
    pub fn new() -> (r: StackFrameAllocator)
        ensures
            r.wf(),
            r.avail() == 0,
            r.recycled_empty(),
            forall|p: u64| !r.is_free(p),
    {
        StackFrameAllocator { current: 0, end: 0, recycled: Vec::new() }
    }

    /// Bound the allocator by the frame range `[l, r)`.
    pub fn init(&mut self, l: PhysPageNum, r: PhysPageNum)
        requires
            old(self).recycled_empty(),
            l.0 <= r.0,
        ensures
            final(self).wf(),
            final(self).avail() == r.0 - l.0,
            final(self).recycled_empty(),
            final(self).watermark() == l.0,
            final(self).limit() == r.0,
            forall|p: u64| final(self).is_free(p) <==> l.0 <= p < r.0,
    {
        self.current = l.0;
        self.end = r.0;
    }

    /// Hand out a free frame; none when the pool is exhausted.
    pub fn alloc_frame(&mut self) -> (r: Option<PhysPageNum>)
        requires
            old(self).wf(),
        ensures
            final(self).wf(),
            old(self).avail() >= 0,
            r.is_some() <==> old(self).avail() > 0,
            r.is_none() ==> old(self).avail() == 0,
            r matches Some(p) ==> {
                &&& old(self).is_free(p.0)
                &&& !final(self).is_free(p.0)
                &&& forall|q: u64| q != p.0 ==> (final(self).is_free(q) <==> old(
                    self,
                ).is_free(q))
                &&& final(self).avail() == old(self).avail() - 1
                &&& final(self).limit() == old(self).limit()
                &&& p.0 < old(self).limit()
                &&& p.0 < final(self).watermark()
            },
            r.is_none() ==> *final(self) == *old(self),
            final(self).watermark() >= old(self).watermark(),
            forall|q: u64| final(self).is_free(q) ==> old(self).is_free(q),
            old(self).recycled_empty() ==> final(self).recycled_empty(),
            old(self).recycled_empty() && r.is_some() ==> (r matches Some(p) && p.0 == old(
                self,
            ).watermark()) && final(self).watermark() as int == old(self).watermark() as int + 1,
    {
        if self.recycled.len() > 0 {
            let ppn = self.recycled.pop().unwrap();
            proof {
                assert(self.recycled@ == old(self).recycled@.drop_last());
                assert(old(self).recycled@.contains(ppn)) by {
                    assert(old(self).recycled@[old(self).recycled@.len() - 1] == ppn);
                }
                assert forall|q: u64| q != ppn implies (self.recycled@.contains(q) <==> old(
                    self,
                ).recycled@.contains(q)) by {
                    if self.recycled@.contains(q) {
                        let i = choose|i: int|
                            0 <= i < self.recycled@.len() && self.recycled@[i] == q;
                        assert(old(self).recycled@[i] == q);
                    }
                    if old(self).recycled@.contains(q) {
                        let i = choose|i: int|
                            0 <= i < old(self).recycled@.len() && old(self).recycled@[i] == q;
                        assert(i < old(self).recycled@.len() - 1);
                        assert(self.recycled@[i] == q);
                    }
                }
                assert(!self.recycled@.contains(ppn)) by {
                    if self.recycled@.contains(ppn) {
                        let i = choose|i: int|
                            0 <= i < self.recycled@.len() && self.recycled@[i] == ppn;
                        assert(old(self).recycled@[i] == old(self).recycled@[old(
                            self,
                        ).recycled@.len() - 1]);
                    }
                }
            }
            Some(PhysPageNum(ppn))
        } else if self.current == self.end {
            None
        } else {
            let p = self.current;
            self.current = self.current + 1;
            proof {
                assert(!self.recycled@.contains(p)) by {
                    if self.recycled@.contains(p) {
                        let i = choose|i: int|
                            0 <= i < self.recycled@.len() && self.recycled@[i] == p;
                    }
                }
            }
            Some(PhysPageNum(p))
        }
    }

    /// Return a frame to the recycle list. The frame must have been
    /// handed out: at or below the watermark and not already recycled.
    pub fn dealloc_frame(&mut self, ppn: PhysPageNum)
        requires
            old(self).wf(),
            ppn.0 < old(self).watermark(),
            !old(self).is_free(ppn.0),
        ensures
            final(self).wf(),
            final(self).avail() == old(self).avail() + 1,
            final(self).watermark() == old(self).watermark(),
            final(self).limit() == old(self).limit(),
            final(self).is_free(ppn.0),
            forall|q: u64| q != ppn.0 ==> (final(self).is_free(q) <==> old(self).is_free(q)),
    {
        self.recycled.push(ppn.0);
        proof {
            assert(self.recycled@ == old(self).recycled@.push(ppn.0));
            assert(self.recycled@.contains(ppn.0)) by {
                assert(self.recycled@[self.recycled@.len() - 1] == ppn.0);
            }
            assert forall|q: u64| q != ppn.0 implies (self.recycled@.contains(q) <==> old(
                self,
            ).recycled@.contains(q)) by {
                if self.recycled@.contains(q) {
                    let i = choose|i: int| 0 <= i < self.recycled@.len() && self.recycled@[i] == q;
                    assert(i < old(self).recycled@.len());
                    assert(old(self).recycled@[i] == q);
                }
                if old(self).recycled@.contains(q) {
                    let i = choose|i: int|
                        0 <= i < old(self).recycled@.len() && old(self).recycled@[i] == q;
                    assert(self.recycled@[i] == q);
                }
            }
        }
    }
}

} // verus!
