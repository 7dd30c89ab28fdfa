//! General-purpose register state and the trap context.
//!
//! The trap context is the rendezvous point between the assembly
//! trampoline and the dispatcher: the 32 guest registers, the saved
//! sstatus and sepc, the guest's hgatp, the hypervisor stack top and the
//! trap-handler entry.

use vstd::prelude::*;

verus! {

/// Index of a RISC-V general-purpose register.
#[derive(Clone, Copy, PartialEq, Eq, Structural, Debug)]
pub enum GprIndex {
    /// x0, hard-wired zero.
    Zero,
    /// x1, return address.
    RA,
    /// x2, stack pointer.
    SP,
    /// x3, global pointer.
    GP,
    /// x4, thread pointer.
    TP,
    /// x5.
    T0,
    /// x6.
    T1,
    /// x7.
    T2,
    /// x8.
    S0,
    /// x9.
    S1,
    /// x10, first argument and return value.
    A0,
    /// x11.
    A1,
    /// x12.
    A2,
    /// x13.
    A3,
    /// x14.
    A4,
    /// x15.
    A5,
    /// x16.
    A6,
    /// x17, the SBI extension id.
    A7,
    /// x18.
    S2,
    /// x19.
    S3,
    /// x20.
    S4,
    /// x21.
    S5,
    /// x22.
    S6,
    /// x23.
    S7,
    /// x24.
    S8,
    /// x25.
    S9,
    /// x26.
    S10,
    /// x27.
    S11,
    /// x28.
    T3,
    /// x29.
    T4,
    /// x30.
    T5,
    /// x31.
    T6,
}

impl GprIndex {
    /// The register number of this index.
    pub open spec fn spec_idx(self) -> int {
        match self {
            GprIndex::Zero => 0,
            GprIndex::RA => 1,
            GprIndex::SP => 2,
            GprIndex::GP => 3,
            GprIndex::TP => 4,
            GprIndex::T0 => 5,
            GprIndex::T1 => 6,
            GprIndex::T2 => 7,
            GprIndex::S0 => 8,
            GprIndex::S1 => 9,
            GprIndex::A0 => 10,
            GprIndex::A1 => 11,
            GprIndex::A2 => 12,
            GprIndex::A3 => 13,
            GprIndex::A4 => 14,
            GprIndex::A5 => 15,
            GprIndex::A6 => 16,
            GprIndex::A7 => 17,
            GprIndex::S2 => 18,
            GprIndex::S3 => 19,
            GprIndex::S4 => 20,
            GprIndex::S5 => 21,
            GprIndex::S6 => 22,
            GprIndex::S7 => 23,
            GprIndex::S8 => 24,
            GprIndex::S9 => 25,
            GprIndex::S10 => 26,
            GprIndex::S11 => 27,
            GprIndex::T3 => 28,
            GprIndex::T4 => 29,
            GprIndex::T5 => 30,
            GprIndex::T6 => 31,
        }
    }

    /// The register number of this index.
    pub fn idx(self) -> (r: usize)
        ensures
            r == self.spec_idx(),
            r < 32,
    {
        match self {
            GprIndex::Zero => 0,
            GprIndex::RA => 1,
            GprIndex::SP => 2,
            GprIndex::GP => 3,
            GprIndex::TP => 4,
            GprIndex::T0 => 5,
            GprIndex::T1 => 6,
            GprIndex::T2 => 7,
            GprIndex::S0 => 8,
            GprIndex::S1 => 9,
            GprIndex::A0 => 10,
            GprIndex::A1 => 11,
            GprIndex::A2 => 12,
            GprIndex::A3 => 13,
            GprIndex::A4 => 14,
            GprIndex::A5 => 15,
            GprIndex::A6 => 16,
            GprIndex::A7 => 17,
            GprIndex::S2 => 18,
            GprIndex::S3 => 19,
            GprIndex::S4 => 20,
            GprIndex::S5 => 21,
            GprIndex::S6 => 22,
            GprIndex::S7 => 23,
            GprIndex::S8 => 24,
            GprIndex::S9 => 25,
            GprIndex::S10 => 26,
            GprIndex::S11 => 27,
            GprIndex::T3 => 28,
            GprIndex::T4 => 29,
            GprIndex::T5 => 30,
            GprIndex::T6 => 31,
        }
    }

    /// The index named by a raw register number; none above 31.
    pub fn from_raw(raw: u32) -> (r: Option<GprIndex>)
        ensures
            raw < 32 ==> (r matches Some(g) && g.spec_idx() == raw),
            raw >= 32 ==> r is None,
    {
        let index = match raw {
            0 => GprIndex::Zero,
            1 => GprIndex::RA,
            2 => GprIndex::SP,
            3 => GprIndex::GP,
            4 => GprIndex::TP,
            5 => GprIndex::T0,
            6 => GprIndex::T1,
            7 => GprIndex::T2,
            8 => GprIndex::S0,
            9 => GprIndex::S1,
            10 => GprIndex::A0,
            11 => GprIndex::A1,
            12 => GprIndex::A2,
            13 => GprIndex::A3,
            14 => GprIndex::A4,
            15 => GprIndex::A5,
            16 => GprIndex::A6,
            17 => GprIndex::A7,
            18 => GprIndex::S2,
            19 => GprIndex::S3,
            20 => GprIndex::S4,
            21 => GprIndex::S5,
            22 => GprIndex::S6,
            23 => GprIndex::S7,
            24 => GprIndex::S8,
            25 => GprIndex::S9,
            26 => GprIndex::S10,
            27 => GprIndex::S11,
            28 => GprIndex::T3,
            29 => GprIndex::T4,
            30 => GprIndex::T5,
            31 => GprIndex::T6,
            _ => {
                return None;
            },
        };
        Some(index)
    }
}

/// The 32 general-purpose registers of one hart.
pub struct GeneralPurposeRegisters {
    regs: Vec<u64>,
}

impl GeneralPurposeRegisters {
    /// Well-formed: exactly 32 registers.
    pub closed spec fn wf(self) -> bool {
        self.regs.len() == 32
    }

    /// The register values as a sequence.
    pub closed spec fn view(self) -> Seq<u64> {
        self.regs@
    }

    /// All registers zero.
    pub fn new() -> (r: GeneralPurposeRegisters)
        ensures
            r.wf(),
            forall|i: int| 0 <= i < 32 ==> r.view()[i] == 0u64,
    {
        let mut regs: Vec<u64> = Vec::new();
        let mut i: usize = 0;
        while i < 32
            invariant
                i <= 32,
                regs.len() == i,
                forall|j: int| 0 <= j < i ==> regs@[j] == 0u64,
            decreases 32 - i,
        {
            regs.push(0);
            i = i + 1;
        }
        GeneralPurposeRegisters { regs }
    }

    /// The value of the given register.
    pub fn reg(&self, reg_index: GprIndex) -> (r: u64)
        requires
            self.wf(),
        ensures
            r == self.view()[reg_index.spec_idx()],
    {
        self.regs[reg_index.idx()]
    }

    /// Set the given register; writes to the zero register are dropped.
    pub fn set_reg(&mut self, reg_index: GprIndex, val: u64)
        requires
            old(self).wf(),
        ensures
            final(self).wf(),
            reg_index == GprIndex::Zero ==> final(self).view() == old(self).view(),
            reg_index != GprIndex::Zero ==> final(self).view() == old(self).view().update(
                reg_index.spec_idx(),
                val,
            ),
    {
        if matches!(reg_index, GprIndex::Zero) {
            return ;
        }
        let i = reg_index.idx();
        self.regs[i] = val;
    }

    /// The eight argument registers a0..a7, in order.
    pub fn a_regs(&self) -> (r: Vec<u64>)
        requires
            self.wf(),
        ensures
            r@.len() == 8,
            forall|i: int| 0 <= i < 8 ==> r@[i] == self.view()[10 + i],
    {
        let mut out: Vec<u64> = Vec::new();
        let mut i: usize = 10;
        while i < 18
            invariant
                self.wf(),
                10 <= i <= 18,
                out.len() == i - 10,
                forall|j: int| 0 <= j < i - 10 ==> out@[j] == self.view()[10 + j],
            decreases 18 - i,
        {
            let v = self.regs[i];
            out.push(v);
            i = i + 1;
        }
        out
    }
}

/// The sstatus bit naming the previous privilege mode.
pub const SSTATUS_SPP: u64 = 0x100;

/// The fixed-layout context saved on every trap from a guest.
pub struct TrapContext {
    /// The 32 general-purpose registers, x0 first.
    pub x: Vec<u64>,
    /// The saved sstatus.
    pub sstatus: u64,
    /// The guest program counter at the trap.
    pub sepc: u64,
    /// The guest's G-stage translation token.
    pub hgatp: u64,
    /// The hypervisor stack top for this hart.
    pub kernel_sp: u64,
    /// The address of the trap handler.
    pub trap_handler: u64,
}

impl TrapContext {
    /// Well-formed: exactly 32 register slots.
    pub open spec fn wf(self) -> bool {
        self.x.len() == 32
    }

    /// Set the guest stack pointer, register x2.
    pub fn set_sp(&mut self, sp: u64)
        requires
            old(self).wf(),
        ensures
            final(self).wf(),
            final(self).x@ == old(self).x@.update(2, sp),
            final(self).sstatus == old(self).sstatus,
            final(self).sepc == old(self).sepc,
            final(self).hgatp == old(self).hgatp,
            final(self).kernel_sp == old(self).kernel_sp,
            final(self).trap_handler == old(self).trap_handler,
    {
        self.x[2] = sp;
    }

    /// The initial context of a guest: entry point, stack pointer, its
    /// translation token, the hypervisor stack, the handler entry, and
    /// the current sstatus with the previous-privilege bit pointing
    /// below HS so that sret enters the guest.
    pub fn initialize_context(
        entry: u64,
        sp: u64,
        hgatp: u64,
        kernel_sp: u64,
        trap_handler: u64,
        sstatus: u64,
    ) -> (r: TrapContext)
        ensures
            r.wf(),
            r.sepc == entry,
            r.hgatp == hgatp,
            r.kernel_sp == kernel_sp,
            r.trap_handler == trap_handler,
            r.sstatus == sstatus & !SSTATUS_SPP,
            r.x@[2] == sp,
            forall|i: int| 0 <= i < 32 && i != 2 ==> r.x@[i] == 0u64,
    {
        let mut x: Vec<u64> = Vec::new();
        let mut i: usize = 0;
        while i < 32
            invariant
                i <= 32,
                x.len() == i,
                forall|j: int| 0 <= j < i ==> x@[j] == 0u64,
            decreases 32 - i,
        {
            x.push(0);
            i = i + 1;
        }
        let mut cx = TrapContext {
            x,
            sstatus: sstatus & !SSTATUS_SPP,
            sepc: entry,
            hgatp,
            kernel_sp,
            trap_handler,
        };
        cx.set_sp(sp);
        cx
    }
}

/// The VS-level CSRs in effect only while the guest runs; saved and
/// restored when switching between virtual machines.
#[derive(Clone, Copy, PartialEq, Eq, Structural, Debug)]
pub struct GuestVsCsrs {
    /// The offset the guest's time reads carry.
    pub htimedelta: u64,
    /// vsstatus.
    pub vsstatus: u64,
    /// vsie.
    pub vsie: u64,
    /// vstvec.
    pub vstvec: u64,
    /// vsscratch.
    pub vsscratch: u64,
    /// vsepc.
    pub vsepc: u64,
    /// vscause.
    pub vscause: u64,
    /// vstval.
    pub vstval: u64,
    /// vsatp.
    pub vsatp: u64,
    /// vstimecmp.
    pub vstimecmp: u64,
}

/// The HS-level CSRs virtualized to emulate the hypervisor extension for
/// a guest that itself hosts.
#[derive(Clone, Copy, PartialEq, Eq, Structural, Debug)]
pub struct GuestVirtualHsCsrs {
    /// The virtualized hie.
    pub hie: u64,
    /// The virtualized hgeie.
    pub hgeie: u64,
    /// The virtualized hgatp.
    pub hgatp: u64,
}

/// The CSRs written on a vmexit that name the cause of the trap.
#[derive(Clone, Copy, PartialEq, Eq, Structural, Debug)]
pub struct VmCpuTrapState {
    /// scause.
    pub scause: u64,
    /// stval.
    pub stval: u64,
    /// htval.
    pub htval: u64,
    /// htinst.
    pub htinst: u64,
}

/// The virtual-cpu state of one guest hart: which hart it runs on and
/// the interrupts queued for injection.
pub struct VCpu {
    /// The physical hart this virtual cpu runs on.
    pub hart: u64,
    /// Pending events, oldest first.
    pub pending_events: Vec<u32>,
}

impl VCpu {
    /// A fresh virtual cpu with no pending events.
    pub fn new(hart: u64) -> (r: VCpu)
        ensures
            r.hart == hart,
            r.pending_events@.len() == 0,
    {
        VCpu { hart, pending_events: Vec::new() }
    }
}

} // verus!
