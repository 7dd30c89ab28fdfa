//! Walking an Sv39 page table held in arbitrary backing memory.
//!
//! The hypervisor must follow a guest's own first-stage page table to
//! find the instruction that trapped; the table lives in guest-physical
//! memory, so the walk reads page-table entries from a caller-supplied
//! window rather than from tables the hypervisor owns. The walk records
//! every entry it visits and ends with the translated address, honouring
//! superpages at every level.

use vstd::prelude::*;

use crate::mm::GuestMemorySet;
use crate::pte::PageTableEntry;

verus! {

/// The level a walk stopped at.
#[derive(Clone, Copy, PartialEq, Eq, Structural, Debug)]
pub enum PageTableLevel {
    /// A 4 KiB leaf.
    Level4KB,
    /// A 2 MiB superpage leaf.
    Level2MB,
    /// A 1 GiB superpage leaf.
    Level1GB,
}

/// One visited entry: where it was read, its bits, and its level.
#[derive(Clone, Copy, PartialEq, Eq, Structural, Debug)]
pub struct PteWrapper {
    /// The address the entry was read from.
    pub addr: u64,
    /// The entry.
    pub pte: PageTableEntry,
    /// The level the entry was read at.
    pub level: PageTableLevel,
}

/// A completed walk: every visited entry and the final address.
pub struct PageWalk {
    /// The visited entries, root level first.
    pub path: Vec<PteWrapper>,
    /// The translated address.
    pub pa: u64,
}

/// A translation described for the caller: the leaf entry, where it
/// lies, the translated address, its level, and the walk behind it.
pub struct AddressTranslation {
    /// The leaf entry.
    pub pte: PageTableEntry,
    /// The address the leaf entry was read from.
    pub pte_addr: u64,
    /// The translated guest-physical address.
    pub guest_pa: u64,
    /// The level of the leaf.
    pub level: PageTableLevel,
    /// The full walk.
    pub page_walk: PageWalk,
}

/// A window of memory the walk reads entries from: 64-bit words starting
/// at `base`.
pub struct PageMemory {
    /// The address of the first word.
    pub base: u64,
    /// The words, in address order.
    pub words: Vec<u64>,
}

impl PageMemory {
    /// The word at an address: defined when the address is word-aligned
    /// inside the window.
    pub open spec fn spec_read(self, addr: u64) -> Option<u64> {
        if self.base <= addr && (addr - self.base) % 8 == 0 && (addr - self.base) / 8
            < self.words@.len() {
            Some(self.words@[(addr - self.base) / 8])
        } else {
            None
        }
    }

    /// Read the word at an address, when the window holds it.
    pub fn read(&self, addr: u64) -> (r: Option<u64>)
        ensures
            r == self.spec_read(addr),
    {
        if self.base <= addr && (addr - self.base) % 8 == 0 && ((addr - self.base) / 8 as u64)
            < self.words.len() as u64 {
            proof {
                assert((addr - self.base) / 8 < self.words@.len());
            }
            Some(self.words[((addr - self.base) / 8) as usize])
        } else {
            None
        }
    }
}

/// The entry address a walk reads at a level: the table base plus eight
/// times the level's nine va bits.
pub open spec fn spec_pte_addr(table: u64, va: u64, level: int) -> u64 {
    ((table + ((va >> (30 - 9 * level)) & 0x1ff) * 8)) as u64
}

/// The address a leaf at a level translates `va` to.
pub open spec fn spec_leaf_pa(bits: u64, va: u64, level: int) -> u64 {
    if level == 2 {
        (((bits >> 10) << 12) | (va & 0xfff)) as u64
    } else if level == 1 {
        (((bits >> 19) << 21) | (va & 0x1fffff)) as u64
    } else {
        (((bits >> 28) << 30) | (va & 0x3fffffff)) as u64
    }
}

/// The level name of a walk depth: depth zero reads the root and maps
/// gigapages, depth two reads the leaf tables.
pub open spec fn spec_level_of(level: int) -> PageTableLevel {
    if level == 0 {
        PageTableLevel::Level1GB
    } else if level == 1 {
        PageTableLevel::Level2MB
    } else {
        PageTableLevel::Level4KB
    }
}

/// Whether entry bits fault a walk: not Valid, or the reserved shape
/// Writable-but-not-Readable.
pub open spec fn spec_walk_fault(bits: u64) -> bool {
    bits & 1 != 1 || (bits & 4 == 4 && bits & 2 != 2)
}

/// Whether entry bits are a leaf for the walk: Readable or eXecutable.
pub open spec fn spec_walk_leaf(bits: u64) -> bool {
    bits & 2 == 2 || bits & 8 == 8
}

/// The table a non-leaf entry points at.
pub open spec fn spec_next_table(bits: u64) -> u64 {
    ((bits >> 10) << 12) as u64
}

/// The outcome of a three-level walk from `root` for `va`, reading
/// entries from `mem`: the translated address, or nothing on a fault, a
/// missing backing word, or a path of non-leaf entries all the way down.
pub open spec fn spec_walk(mem: PageMemory, root: u64, va: u64, level: int) -> Option<u64>
    decreases 3 - level,
{
    if level >= 3 {
        None
    } else {
        match mem.spec_read(spec_pte_addr(root, va, level)) {
            None => None,
            Some(bits) => if spec_walk_fault(bits) {
                None
            } else if spec_walk_leaf(bits) {
                Some(spec_leaf_pa(bits, va, level))
            } else {
                spec_walk(mem, spec_next_table(bits), va, level + 1)
            },
        }
    }
}

/// The entries a walk from `table` at `level` visits, in order: one per
/// level read, ending at the first absent word, fault, or leaf.
pub open spec fn spec_walk_path(mem: PageMemory, table: u64, va: u64, level: int) -> Seq<
    PteWrapper,
>
    decreases 3 - level,
{
    if level >= 3 {
        Seq::empty()
    } else {
        match mem.spec_read(spec_pte_addr(table, va, level)) {
            None => Seq::empty(),
            Some(bits) => {
                let w = PteWrapper {
                    addr: spec_pte_addr(table, va, level),
                    pte: PageTableEntry { bits },
                    level: spec_level_of(level),
                };
                if spec_walk_fault(bits) || spec_walk_leaf(bits) {
                    seq![w]
                } else {
                    seq![w] + spec_walk_path(mem, spec_next_table(bits), va, level + 1)
                }
            },
        }
    }
}

/// What one level of a walk decides.
pub enum StepOutcome {
    /// The walk fails: the entry is absent, invalid or reserved, or the
    /// deepest entry is no leaf.
    Fault,
    /// A leaf: the walk ends with this address.
    Leaf {
        /// The translated address.
        pa: u64,
    },
    /// A non-leaf entry: the walk continues in this table.
    Next {
        /// The next table's base address.
        table: u64,
    },
}

/// Read and classify one level's entry, recording it on the path.
fn walk_one(table: u64, va: u64, level: u64, mem: &PageMemory, path: &mut Vec<PteWrapper>) -> (r:
    StepOutcome)
    requires
        level <= 2,
        table <= 0xffff_ffff_ffff_f000,
    ensures
        spec_walk(*mem, table, va, level as int) == match r {
            StepOutcome::Fault => None::<u64>,
            StepOutcome::Leaf { pa } => Some(pa),
            StepOutcome::Next { table: t } => if level == 2 {
                None::<u64>
            } else {
                spec_walk(*mem, t, va, level as int + 1)
            },
        },
        r matches StepOutcome::Next { table: t } ==> t <= 0xffff_ffff_ffff_f000,
        r matches StepOutcome::Leaf { pa } ==> final(path)@.len() >= 1 && final(path)@.last().pte.valid_spec(),
        match mem.spec_read(spec_pte_addr(table, va, level as int)) {
            None => final(path)@ == old(path)@ && r is Fault,
            Some(bits) => {
                &&& final(path)@ == old(path)@.push(
                    PteWrapper {
                        addr: spec_pte_addr(table, va, level as int),
                        pte: PageTableEntry { bits },
                        level: spec_level_of(level as int),
                    },
                )
                &&& (r is Leaf <==> !spec_walk_fault(bits) && spec_walk_leaf(bits))
                &&& (r matches StepOutcome::Next { table: t } ==> !spec_walk_fault(bits)
                    && !spec_walk_leaf(bits) && t == spec_next_table(bits))
            },
        },
{
    let shift: u64 = 30 - 9 * level;
    let pte_index = (va >> shift) & 0x1ff;
    proof {
        assert((va >> shift) & 0x1ff <= 0x1ff) by (bit_vector);
    }
    let pte_addr = table + pte_index * 8;
    let bits = match mem.read(pte_addr) {
        None => {
            return StepOutcome::Fault;
        },
        Some(b) => b,
    };
    let pte = PageTableEntry { bits };
    let lv = if level == 0 {
        PageTableLevel::Level1GB
    } else if level == 1 {
        PageTableLevel::Level2MB
    } else {
        PageTableLevel::Level4KB
    };
    path.push(PteWrapper { addr: pte_addr, pte, level: lv });
    if bits & 1 != 1 || (bits & 4 == 4 && bits & 2 != 2) {
        return StepOutcome::Fault;
    }
    if bits & 2 == 2 || bits & 8 == 8 {
        proof {
            assert(crate::pte::spec_pte_valid(bits) == (bits & 1 == 1));
        }
        let pa = if level == 2 {
            ((bits >> 10) << 12) | (va & 0xfff)
        } else if level == 1 {
            ((bits >> 19) << 21) | (va & 0x1fffff)
        } else {
            ((bits >> 28) << 30) | (va & 0x3fffffff)
        };
        return StepOutcome::Leaf { pa };
    }
    let next = (bits >> 10) << 12;
    proof {
        assert((bits >> 10) << 12 <= 0xffff_ffff_ffff_f000u64) by (bit_vector);
    }
    StepOutcome::Next { table: next }
}

/// Walk the page table rooted at `root` for `va`, reading entries from
/// `mem`; the result records every visited entry and the translated
/// address. Nothing comes back on a fault, on a read outside the
/// window, or when the deepest entry is still no leaf.
pub fn walk_page_table(root: u64, va: u64, mem: &PageMemory) -> (r: Option<PageWalk>)
    requires
        root <= 0xffff_ffff_ffff_f000,
    ensures
        r matches Some(w) ==> Some(w.pa) == spec_walk(*mem, root, va, 0) && w.path@
            == spec_walk_path(*mem, root, va, 0) && w.path@.len() >= 1
            && w.path@.last().pte.valid_spec(),
        r is None ==> spec_walk(*mem, root, va, 0) is None,
{
    let mut path: Vec<PteWrapper> = Vec::new();
    proof {
        assert(path@ =~= Seq::<PteWrapper>::empty());
    }
    let t1 = match walk_one(root, va, 0, mem, &mut path) {
        StepOutcome::Fault => {
            return None;
        },
        StepOutcome::Leaf { pa } => {
            proof {
                assert(path@ =~= spec_walk_path(*mem, root, va, 0));
            }
            return Some(PageWalk { path, pa });
        },
        StepOutcome::Next { table } => table,
    };
    let ghost path1 = path@;
    proof {
        lemma_path_prefix(*mem, root, t1, va, 0);
    }
    let t2 = match walk_one(t1, va, 1, mem, &mut path) {
        StepOutcome::Fault => {
            return None;
        },
        StepOutcome::Leaf { pa } => {
            proof {
                assert(path@ =~= path1 + spec_walk_path(*mem, t1, va, 1));
                assert(path@ =~= spec_walk_path(*mem, root, va, 0));
            }
            return Some(PageWalk { path, pa });
        },
        StepOutcome::Next { table } => table,
    };
    let ghost path2 = path@;
    proof {
        lemma_path_prefix(*mem, t1, t2, va, 1);
    }
    match walk_one(t2, va, 2, mem, &mut path) {
        StepOutcome::Fault => None,
        StepOutcome::Leaf { pa } => {
            proof {
                let a1 = spec_pte_addr(t1, va, 1);
                let w1 = PteWrapper {
                    addr: a1,
                    pte: PageTableEntry { bits: mem.spec_read(a1)->Some_0 },
                    level: spec_level_of(1),
                };
                assert(path2 =~= path1.push(w1));
                assert(spec_walk_path(*mem, t1, va, 1) =~= seq![w1] + spec_walk_path(
                    *mem,
                    t2,
                    va,
                    2,
                ));
                assert(path@ =~= path2 + spec_walk_path(*mem, t2, va, 2));
                assert(path@ =~= path1 + spec_walk_path(*mem, t1, va, 1));
                assert(path@ =~= spec_walk_path(*mem, root, va, 0));
            }
            Some(PageWalk { path, pa })
        },
        StepOutcome::Next { table: _ } => None,
    }
}

/// A walk that continues from a non-leaf entry prepends that entry's
/// wrapper to the deeper path.
proof fn lemma_path_prefix(mem: PageMemory, table: u64, next: u64, va: u64, level: int)
    requires
        0 <= level < 3,
        mem.spec_read(spec_pte_addr(table, va, level)) matches Some(bits)
            && !spec_walk_fault(bits) && !spec_walk_leaf(bits) && next == spec_next_table(bits),
    ensures
        spec_walk_path(mem, table, va, level) == seq![
            PteWrapper {
                addr: spec_pte_addr(table, va, level),
                pte: PageTableEntry { bits: mem.spec_read(spec_pte_addr(table, va, level))->Some_0 },
                level: spec_level_of(level),
            },
        ] + spec_walk_path(mem, next, va, level + 1),
{
}


/// Bytes of guest-physical space reserved per guest in the host map.
pub const GUEST_SEGMENT_SIZE: u64 = 0x800_0000;

/// The host-physical address backing a guest-physical address, under the
/// per-guest linear segmentation.
pub fn gpa2hpa(va: u64, guest_id: u64) -> (r: u64)
    requires
        guest_id <= 16,
        va + guest_id * GUEST_SEGMENT_SIZE <= u64::MAX,
    ensures
        r == va + guest_id * GUEST_SEGMENT_SIZE,
{
    va + guest_id * GUEST_SEGMENT_SIZE
}

/// The guest-physical address of a host-physical address, under the
/// per-guest linear segmentation.
pub fn hpa2gpa(pa: u64, guest_id: u64) -> (r: u64)
    requires
        guest_id <= 16,
        pa >= guest_id * GUEST_SEGMENT_SIZE,
    ensures
        r == pa - guest_id * GUEST_SEGMENT_SIZE,
{
    pa - guest_id * GUEST_SEGMENT_SIZE
}

/// Translate a guest virtual address through the guest's own first-stage
/// page table, read from the given window, and describe the walk.
pub fn translate_guest_va(guest_id: u64, root: u64, guest_va: u64, mem: &PageMemory) -> (r: Option<
    AddressTranslation,
>)
    requires
        root <= 0xffff_ffff_ffff_f000,
    ensures
        r matches Some(t) ==> Some(t.guest_pa) == spec_walk(*mem, root, guest_va, 0)
            && t.pte.valid_spec() && t.page_walk.path@.len() >= 1 && t.page_walk.path@
            == spec_walk_path(*mem, root, guest_va, 0) && t.pte == t.page_walk.path@.last().pte
            && t.pte_addr == t.page_walk.path@.last().addr && t.level
            == t.page_walk.path@.last().level,
        r is None ==> spec_walk(*mem, root, guest_va, 0) is None,
{
    let _ = guest_id;
    match walk_page_table(root, guest_va, mem) {
        None => None,
        Some(t) => {
            let n = t.path.len();
            let lastw = t.path[n - 1];
            Some(
                AddressTranslation {
                    pte: lastw.pte,
                    pte_addr: lastw.addr,
                    level: lastw.level,
                    guest_pa: t.pa,
                    page_walk: t,
                },
            )
        },
    }
}

/// The guest-physical address of a guest virtual address: through the
/// guest's first-stage table when paging is on, the address itself when
/// vsatp holds no root.
pub open spec fn spec_guest_pa(mem: PageMemory, vsatp: u64, va: u64) -> Option<u64> {
    let root = (((vsatp & 0x3ff_ffff_ffff) << 12)) as u64;
    if root != 0 {
        spec_walk(mem, root, va, 0)
    } else {
        Some(va)
    }
}

/// Translate a guest virtual address to guest-physical: the first stage
/// only.
pub fn fast_two_stage_translation(guest_id: u64, guest_va: u64, vsatp: u64, mem: &PageMemory) -> (r:
    Option<u64>)
    ensures
        r == spec_guest_pa(*mem, vsatp, guest_va),
{
    let _ = guest_id;
    let guest_root = (vsatp & 0x3ff_ffff_ffff) << 12;
    proof {
        assert((vsatp & 0x3ff_ffff_ffff) << 12 <= 0xffff_ffff_ffff_f000u64) by (bit_vector);
    }
    if guest_root != 0 {
        walk_page_table_pa(guest_root, guest_va, mem)
    } else {
        Some(guest_va)
    }
}

/// The translated address of a walk, without its path.
fn walk_page_table_pa(root: u64, va: u64, mem: &PageMemory) -> (r: Option<u64>)
    requires
        root <= 0xffff_ffff_ffff_f000,
    ensures
        r == spec_walk(*mem, root, va, 0),
{
    match walk_page_table(root, va, mem) {
        None => None,
        Some(w) => Some(w.pa),
    }
}

/// Translate a guest virtual address to host-physical: through the
/// guest's own first-stage table, then through the guest's G-stage map.
pub fn two_stage_translation(
    guest_id: u64,
    guest_va: u64,
    vsatp: u64,
    mem: &PageMemory,
    gpm: &GuestMemorySet,
) -> (r: Option<u64>)
    requires
        gpm.inv(),
    ensures
        r == match spec_guest_pa(*mem, vsatp, guest_va) {
            None => None::<u64>,
            Some(gpa) => match gpm.page_table.spec_translate(
                gpa / crate::addr::PAGE_SIZE as u64,
            ) {
                Some(pte) => Some(
                    (pte.ppn_spec() * crate::addr::PAGE_SIZE + gpa % crate::addr::PAGE_SIZE) as u64,
                ),
                None => None::<u64>,
            },
        },
{
    match fast_two_stage_translation(guest_id, guest_va, vsatp, mem) {
        None => None,
        Some(gpa) => gpm.translate_va(gpa),
    }
}

/// Translate a guest-physical address through a guest's G-stage map.
pub fn guest_translation(guest_va: u64, gpm: &GuestMemorySet) -> (r: Option<u64>)
    requires
        gpm.inv(),
    ensures
        r == match gpm.page_table.spec_translate(guest_va / crate::addr::PAGE_SIZE as u64) {
            Some(pte) => Some(
                (pte.ppn_spec() * crate::addr::PAGE_SIZE + guest_va
                    % crate::addr::PAGE_SIZE) as u64,
            ),
            None => None::<u64>,
        },
{
    gpm.translate_va(guest_va)
}

} // verus!
