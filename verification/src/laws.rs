//! The laws the library states about itself.
//!
//! Each proof function here writes down one property that holds of the
//! data model for all inputs, proved from the public contracts alone.
//! Properties that speak of a single function stand as that function's
//! `ensures`: a successful `map` yields exactly the given frame and
//! flags, `unmap` leaves no translation, the memory-set builders map the
//! trampoline page with R|X only, and every G-stage leaf but the
//! trampoline's carries U.

use vstd::prelude::*;

use crate::addr::vpn_key;
use crate::error::PageTableError;
use crate::memory_set::{tramp_key, MapArea};
use crate::mm::{covered_key, ms_inv};
use crate::page_table::PageTableSv39;
use crate::pte::{spec_pte_bits, PPN_LIMIT, PTE_V};

verus! {

/// In any memory set holding the invariant, a page number away from the
/// trampoline's key translates exactly when some area covers a page with
/// its key, and every covering area stamps the leaf with its permission
/// plus Valid.
pub proof fn lemma_memory_set_translate(pt: PageTableSv39, areas: Seq<MapArea>, v: u64)
    requires
        ms_inv(pt, areas),
        vpn_key(v) != tramp_key(),
    ensures
        pt.spec_translate(v) is Some <==> covered_key(areas, v),
        forall|i: int, w: u64|
            #![trigger areas[i], vpn_key(w)]
            0 <= i < areas.len() && areas[i].covers(w) && vpn_key(w) == vpn_key(v) ==> (
            pt.spec_translate(v) matches Some(pte) && pte.flags_spec() == areas[i].map_perm
                | PTE_V),
{
    if covered_key(areas, v) {
        let (i, w) = choose|i: int, w: u64|
            #![trigger areas[i].vpn_range, vpn_key(w)]
            0 <= i < areas.len() && areas[i].vpn_range.start.0 <= w < areas[i].vpn_range.end.0
                && vpn_key(w) == vpn_key(v);
        assert(pt.mapped(w));
        pt.lemma_translate_key(w, v);
    }
    if pt.spec_translate(v) is Some {
        assert(pt.mapped(v));
    }
    assert forall|i: int, w: u64|
        #![trigger areas[i], vpn_key(w)]
        0 <= i < areas.len() && areas[i].covers(w) && vpn_key(w) == vpn_key(v) implies (
    pt.spec_translate(v) matches Some(pte) && pte.flags_spec() == areas[i].map_perm | PTE_V) by {
        assert(pt.mapped(w));
        pt.lemma_translate_key(w, v);
    }
}

/// A page whose raw entry was written by a successful map translates to
/// a Valid leaf bearing exactly the mapped frame.
pub proof fn lemma_mapped_entry(pt: PageTableSv39, vpn: u64, ppn: u64, flags: u8)
    requires
        ppn < PPN_LIMIT,
        pt.pte_bits_for(vpn) == spec_pte_bits(ppn, flags | PTE_V),
    ensures
        pt.spec_translate(vpn) matches Some(pte) && pte.ppn_spec() == ppn && pte.flags_spec()
            & PTE_V == PTE_V && pte.valid_spec(),
{
    crate::pte::lemma_pte_roundtrip(ppn, flags | PTE_V);
    assert((flags | 1u8) & 1u8 == 1u8) by (bit_vector);
    assert(PTE_V == 1u8);
}

/// A page whose raw entry was cleared by unmap translates to nothing.
pub proof fn lemma_cleared_entry(pt: PageTableSv39, vpn: u64)
    requires
        pt.pte_bits_for(vpn) == 0u64,
    ensures
        pt.spec_translate(vpn) is None,
        !pt.mapped(vpn),
{
    assert(!crate::pte::spec_pte_valid(0u64)) by (bit_vector);
}

/// Mapping a page twice without an unmap is rejected: on a mapped page,
/// every outcome map's contract allows is the already-mapped error, so a
/// mapping is never silently overwritten.
pub proof fn lemma_double_map_rejected(pt0: PageTableSv39, v: u64, r: Result<(), PageTableError>)
    requires
        pt0.mapped(v),
        r is Ok ==> !pt0.mapped(v),
        r == Err::<(), PageTableError>(PageTableError::OutOfFrames) ==> !pt0.mapped(v),
        r != Err::<(), PageTableError>(PageTableError::NotMapped),
    ensures
        r == Err::<(), PageTableError>(PageTableError::AlreadyMapped),
{
    match r {
        Ok(_) => {
            assert(false);
        },
        Err(e) => {
            match e {
                PageTableError::AlreadyMapped => {},
                PageTableError::NotMapped => {
                    assert(false);
                },
                PageTableError::OutOfFrames => {
                    assert(false);
                },
            }
        },
    }
}

/// Emulating a load of a PLIC claim word leaves the shadow untouched, so
/// repeating the emulation with the PLIC state unchanged writes the same
/// value into the destination register: the guest registers do not move
/// on the second run.
pub proof fn lemma_claim_read_idempotent(
    shadow: Seq<u32>,
    x0: Seq<u64>,
    x1: Seq<u64>,
    x2: Seq<u64>,
    hart: int,
    rd: u32,
)
    requires
        0 <= hart < shadow.len(),
        rd < 32,
        x0.len() == 32,
        x1 == x0.update(rd as int, shadow[hart] as u64),
        x2 == x1.update(rd as int, shadow[hart] as u64),
    ensures
        x2 == x1,
{
    assert(x2 =~= x1);
}

/// After a complete write for a context, the context's shadow is zero:
/// the write leaves every other context alone and clears exactly this
/// one.
pub proof fn lemma_complete_clears_shadow(shadow0: Seq<u32>, shadow1: Seq<u32>, hart: int)
    requires
        0 <= hart < shadow0.len(),
        shadow1 == shadow0.update(hart, 0u32),
    ensures
        shadow1[hart] == 0u32,
        forall|k: int| 0 <= k < shadow0.len() && k != hart ==> shadow1[k] == shadow0[k],
{
}

} // verus!
