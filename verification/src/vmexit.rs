//! The vmexit dispatcher.
//!
//! Every trap taken from a guest lands here as a cause plus the trap
//! CSRs. The dispatcher routes to the SBI proxy, the guest-page-fault
//! handler, the interrupt forwarders, or reflects the exception into the
//! guest — and tells the embedder which machine action to perform. A
//! successful path always advances the guest: the program counter moves
//! or the context changes.

use vstd::prelude::*;

use crate::decode::{decode_inst, decode_of, spec_instruction_length, DecodedInst};
use crate::error::VmmError;
use crate::hypervisor::{spec_plic_access, HostVmm, PlicAccessEffect};
use crate::plic::{MAX_CONTEXTS, PLIC_CONTEXT_BASE, PLIC_CONTEXT_STRIDE};
use crate::regs::TrapContext;
use crate::sbi::{sbi_vs_handler, spec_sbi_command, SbiCommand};

verus! {

/// The cause of a vmexit, as read from scause.
#[derive(Clone, Copy, PartialEq, Eq, Structural, Debug)]
pub enum TrapCause {
    /// An environment call from U or VU mode: never legal here.
    UserEnvCall,
    /// An environment call from the guest's supervisor mode.
    VirtualSupervisorEnvCall,
    /// A virtual instruction exception.
    VirtualInstruction,
    /// An instruction fetch missed the G-stage map.
    InstructionGuestPageFault,
    /// A load missed the G-stage map.
    LoadGuestPageFault,
    /// A store missed the G-stage map.
    StoreGuestPageFault,
    /// A supervisor external interrupt.
    SupervisorExternal,
    /// A supervisor timer interrupt.
    SupervisorTimer,
    /// Anything else: reflected into the guest.
    Other,
}

/// The trap CSRs the dispatcher reads.
#[derive(Clone, Copy, PartialEq, Eq, Structural, Debug)]
pub struct TrapCsrs {
    /// The raw scause bits.
    pub scause_bits: u64,
    /// htval: the faulting guest-physical address shifted right by two.
    pub htval: u64,
    /// htinst: the transformed trapping instruction, or zero.
    pub htinst: u64,
    /// vstvec: the guest's trap vector.
    pub vstvec: u64,
}

/// What the machine is asked to do after dispatch.
#[derive(Clone, Copy, PartialEq, Eq, Structural, Debug)]
pub enum VmexitAction {
    /// Perform the SBI command, then write its result back with
    /// `apply_sbi_ret`.
    SbiCall {
        /// The command.
        cmd: SbiCommand,
    },
    /// htinst was empty: translate the guest pc through the guest's own
    /// page table, read the instruction, and resume with
    /// `emulate_mmio`.
    FetchAndEmulate {
        /// The guest virtual address of the trapping instruction.
        inst_va: u64,
        /// The faulting guest-physical address.
        guest_pa: u64,
    },
    /// MMIO emulation finished; apply the effect.
    Emulated {
        /// The effect to apply.
        effect: PlicAccessEffect,
    },
    /// Claim the interrupt at the given register, then record it with
    /// `handle_irq` and raise the virtual external interrupt.
    ClaimIrq {
        /// The physical claim/complete register of the running guest's
        /// S-mode context.
        claim_addr: u64,
    },
    /// Set the virtual timer pending bit and mask the host timer.
    TimerInterrupt,
    /// Reflect the exception: write the pair into vsepc and vscause.
    ForwardException {
        /// The value for vsepc.
        vsepc: u64,
        /// The value for vscause.
        vscause: u64,
    },
    /// The vmexit cannot be serviced; the embedder stops.
    Fatal {
        /// Why.
        err: VmmError,
    },
}

/// Whether a guest physical address falls inside the emulated
/// threshold/claim/complete window of the PLIC at `base`.
pub open spec fn in_plic_context_window(base: u64, addr: u64) -> bool {
    base <= addr && PLIC_CONTEXT_BASE <= addr - base < PLIC_CONTEXT_BASE + PLIC_CONTEXT_STRIDE * (
    MAX_CONTEXTS as u64)
}

/// The exact outcome of emulating one MMIO trap whose raw instruction
/// bits are `inst`: the new shadow, the new registers, the advanced
/// program counter and the effect to apply — or the error the emulation
/// reports. Instructions the decoder rejects are decode errors; accesses
/// outside the PLIC context window, and shapes the window refuses, are
/// unexpected instructions.
pub open spec fn spec_emulate_mmio(
    base: u64,
    shadow: Seq<u32>,
    x: Seq<u64>,
    sepc: u64,
    guest_pa: u64,
    inst: u64,
) -> Result<(Seq<u32>, Seq<u64>, u64, PlicAccessEffect), VmmError> {
    let len = spec_instruction_length((inst & 0xffff) as u16);
    let decoded = if len == 2 {
        decode_of((inst & 0xffff) as u32)
    } else if len == 4 {
        decode_of((inst & 0xffff_ffff) as u32)
    } else {
        None
    };
    match decoded {
        None => Err(VmmError::DecodeInstError),
        Some(d) => if !in_plic_context_window(base, guest_pa) {
            Err(VmmError::UnexpectedInst)
        } else {
            match spec_plic_access(base, shadow, x, guest_pa, d) {
                None => Err(VmmError::UnexpectedInst),
                Some((shadow1, x1, eff)) => Ok(
                    (shadow1, x1, vstd::wrapping::u64_specs::wrapping_add(sepc, len), eff),
                ),
            }
        },
    }
}

/// Emulate the MMIO access of a decoded trapping instruction: the PLIC
/// window is emulated and the guest pc advanced past the instruction;
/// anything the decoder rejects, and any access outside the window, is
/// an error.
pub fn emulate_mmio(vmm: &mut HostVmm, ctx: &mut TrapContext, guest_pa: u64, inst: u64) -> (r:
    Result<PlicAccessEffect, VmmError>)
    requires
        old(vmm).wf(),
        old(ctx).wf(),
        old(vmm).host_plic is Some,
    ensures
        final(vmm).wf(),
        final(ctx).wf(),
        final(vmm).guest_id == old(vmm).guest_id,
        final(vmm).irq_pending == old(vmm).irq_pending,
        final(vmm).external_irq == old(vmm).external_irq,
        final(vmm).timer_irq == old(vmm).timer_irq,
        final(vmm).guest_page_fault == old(vmm).guest_page_fault,
        final(vmm).host_plic is Some,
        final(vmm).host_plic->Some_0.base_addr == old(vmm).host_plic->Some_0.base_addr,
        ({
            let base = old(vmm).host_plic->Some_0.base_addr;
            let shadow0 = old(vmm).host_plic->Some_0.claim_complete@;
            let shadow1 = final(vmm).host_plic->Some_0.claim_complete@;
            let outcome = spec_emulate_mmio(
                base,
                shadow0,
                old(ctx).x@,
                old(ctx).sepc,
                guest_pa,
                inst,
            );
            match r {
                Ok(eff) => outcome == Ok::<_, VmmError>(
                    (shadow1, final(ctx).x@, final(ctx).sepc, eff),
                ),
                Err(e) => outcome == Err::<(Seq<u32>, Seq<u64>, u64, PlicAccessEffect), _>(e)
                    && shadow1 == shadow0 && final(ctx).x@ == old(ctx).x@ && final(ctx).sepc
                    == old(ctx).sepc,
            }
        }),
{
    let (len, decoded) = decode_inst(inst);
    let instruction = match decoded {
        None => {
            return Err(VmmError::DecodeInstError);
        },
        Some(i) => i,
    };
    let base = match &vmm.host_plic {
        Some(p) => p.base_addr,
        None => {
            proof {
                assert(false);
            }
            0
        },
    };
    if !(base <= guest_pa && PLIC_CONTEXT_BASE <= guest_pa - base && guest_pa - base
        < PLIC_CONTEXT_BASE + PLIC_CONTEXT_STRIDE * (MAX_CONTEXTS as u64)) {
        return Err(VmmError::UnexpectedInst);
    }
    let rd_ok = match instruction {
        DecodedInst::Lw { rd } => rd < 32,
        DecodedInst::Sw { rs2 } => rs2 < 32,
        DecodedInst::Other => true,
    };
    proof {
        assert(rd_ok);
    }
    match vmm.handle_plic_access(ctx, guest_pa, instruction) {
        Ok(effect) => {
            ctx.sepc = ctx.sepc.wrapping_add(len);
            Ok(effect)
        },
        Err(e) => Err(e),
    }
}

/// Handle a load or store guest page fault: accesses to the emulated
/// PLIC are emulated, from htinst when it holds the instruction, else
/// after the embedder fetches it from guest memory; a fault taken during
/// the guest's own page walk, and any access outside every emulated
/// device, cannot be serviced.
pub fn guest_page_fault_handler(vmm: &mut HostVmm, ctx: &mut TrapContext, csrs: &TrapCsrs) -> (r:
    Result<VmexitAction, VmmError>)
    requires
        old(vmm).wf(),
        old(ctx).wf(),
        old(vmm).host_plic is Some,
    ensures
        final(vmm).wf(),
        final(ctx).wf(),
        final(vmm).host_plic is Some,
        final(vmm).external_irq == old(vmm).external_irq,
        final(vmm).timer_irq == old(vmm).timer_irq,
        final(vmm).guest_page_fault == old(vmm).guest_page_fault,
        final(vmm).host_plic->Some_0.base_addr == old(vmm).host_plic->Some_0.base_addr,
        ({
            let addr = (csrs.htval << 2) as u64;
            let base = old(vmm).host_plic->Some_0.base_addr;
            let shadow0 = old(vmm).host_plic->Some_0.claim_complete@;
            let shadow1 = final(vmm).host_plic->Some_0.claim_complete@;
            if !(0x0c00_0000 <= addr < 0x1000_0000) {
                r == Err::<VmexitAction, VmmError>(VmmError::DeviceNotFound) && *final(ctx) == *old(ctx)
                    && shadow1 == shadow0
            } else if csrs.htinst == 0 {
                r == Ok::<VmexitAction, VmmError>(
                    VmexitAction::FetchAndEmulate { inst_va: old(ctx).sepc, guest_pa: addr },
                ) && *final(ctx) == *old(ctx) && shadow1 == shadow0
            } else if csrs.htinst == 0x3000 || csrs.htinst == 0x3020 {
                r == Err::<VmexitAction, VmmError>(VmmError::PseudoInst) && *final(ctx) == *old(ctx)
                    && shadow1 == shadow0
            } else {
                let outcome = spec_emulate_mmio(
                    base,
                    shadow0,
                    old(ctx).x@,
                    old(ctx).sepc,
                    addr,
                    csrs.htinst,
                );
                match r {
                    Ok(a) => (a matches VmexitAction::Emulated { effect } && outcome == Ok::<
                        _,
                        VmmError,
                    >((shadow1, final(ctx).x@, final(ctx).sepc, effect))),
                    Err(e) => outcome == Err::<(Seq<u32>, Seq<u64>, u64, PlicAccessEffect), _>(e)
                        && shadow1 == shadow0 && final(ctx).x@ == old(ctx).x@ && final(ctx).sepc
                        == old(ctx).sepc,
                }
            }
        }),
{
    let addr = csrs.htval << 2;
    if !(0x0c00_0000 <= addr && addr < 0x1000_0000) {
        return Err(VmmError::DeviceNotFound);
    }
    if csrs.htinst == 0 {
        // htinst gives nothing: the instruction must be read from guest
        // memory through the guest's own page table.
        return Ok(VmexitAction::FetchAndEmulate { inst_va: ctx.sepc, guest_pa: addr });
    }
    if csrs.htinst == 0x3000 || csrs.htinst == 0x3020 {
        // A pseudo-instruction: the fault hit the guest's own page walk.
        return Err(VmmError::PseudoInst);
    }
    match emulate_mmio(vmm, ctx, addr, csrs.htinst) {
        Ok(effect) => Ok(VmexitAction::Emulated { effect }),
        Err(e) => Err(e),
    }
}

/// Reflect an exception into the guest: the guest resumes at its own
/// trap vector, and the embedder writes the returned pair into vsepc and
/// vscause.
pub fn forward_exception(ctx: &mut TrapContext, csrs: &TrapCsrs) -> (r: (u64, u64))
    requires
        old(ctx).wf(),
    ensures
        final(ctx).wf(),
        final(ctx).sepc == csrs.vstvec,
        final(ctx).x@ == old(ctx).x@,
        final(ctx).sstatus == old(ctx).sstatus,
        final(ctx).hgatp == old(ctx).hgatp,
        final(ctx).kernel_sp == old(ctx).kernel_sp,
        final(ctx).trap_handler == old(ctx).trap_handler,
        r.0 == old(ctx).sepc,
        r.1 == csrs.scause_bits,
{
    let vsepc = ctx.sepc;
    ctx.sepc = csrs.vstvec;
    (vsepc, csrs.scause_bits)
}

/// Dispatch one vmexit: classify the cause, run the handler, and return
/// the machine action. Legal SBI calls advance the guest pc by four;
/// interrupts count; unknown exceptions are reflected into the guest.
pub fn trap_handler(vmm: &mut HostVmm, ctx: &mut TrapContext, cause: TrapCause, csrs: &TrapCsrs)
    -> (r: VmexitAction)
    requires
        old(vmm).wf(),
        old(ctx).wf(),
        old(vmm).host_plic is Some,
        old(vmm).host_plic->Some_0.base_addr < 0x100_0000_0000,
    ensures
        final(vmm).wf(),
        final(ctx).wf(),
        match cause {
            TrapCause::UserEnvCall => r == (VmexitAction::Fatal { err: VmmError::NotSupported })
                && *final(ctx) == *old(ctx),
            TrapCause::VirtualSupervisorEnvCall => {
                &&& final(ctx).sepc == vstd::wrapping::u64_specs::wrapping_add(old(ctx).sepc, 4)
                &&& final(ctx).x@ == old(ctx).x@
                &&& r == match spec_sbi_command(old(ctx).x@) {
                    Ok(cmd) => VmexitAction::SbiCall { cmd },
                    Err(e) => VmexitAction::Fatal { err: e },
                }
            },
            TrapCause::VirtualInstruction => r == (VmexitAction::Fatal {
                err: VmmError::Unimplemented,
            }),
            TrapCause::InstructionGuestPageFault => r == (VmexitAction::Fatal {
                err: VmmError::TranslationError,
            }) && *final(ctx) == *old(ctx),
            TrapCause::LoadGuestPageFault | TrapCause::StoreGuestPageFault => {
                &&& final(vmm).guest_page_fault
                    == vstd::wrapping::u64_specs::wrapping_add(old(vmm).guest_page_fault, 1)
                &&& final(vmm).host_plic is Some
                &&& final(vmm).host_plic->Some_0.base_addr
                    == old(vmm).host_plic->Some_0.base_addr
                &&& ({
                    let addr = (csrs.htval << 2) as u64;
                    let base = old(vmm).host_plic->Some_0.base_addr;
                    let shadow0 = old(vmm).host_plic->Some_0.claim_complete@;
                    let shadow1 = final(vmm).host_plic->Some_0.claim_complete@;
                    if !(0x0c00_0000 <= addr < 0x1000_0000) {
                        r == (VmexitAction::Fatal { err: VmmError::DeviceNotFound }) && *final(ctx)
                            == *old(ctx) && shadow1 == shadow0
                    } else if csrs.htinst == 0 {
                        r == (VmexitAction::FetchAndEmulate {
                            inst_va: old(ctx).sepc,
                            guest_pa: addr,
                        }) && *final(ctx) == *old(ctx) && shadow1 == shadow0
                    } else if csrs.htinst == 0x3000 || csrs.htinst == 0x3020 {
                        r == (VmexitAction::Fatal { err: VmmError::PseudoInst }) && *final(ctx)
                            == *old(ctx) && shadow1 == shadow0
                    } else {
                        match spec_emulate_mmio(
                            base,
                            shadow0,
                            old(ctx).x@,
                            old(ctx).sepc,
                            addr,
                            csrs.htinst,
                        ) {
                            Ok((s1, x1, pc1, eff)) => r == (VmexitAction::Emulated {
                                effect: eff,
                            }) && shadow1 == s1 && final(ctx).x@ == x1 && final(ctx).sepc == pc1,
                            Err(e) => r == (VmexitAction::Fatal { err: e }) && shadow1 == shadow0
                                && final(ctx).x@ == old(ctx).x@ && final(ctx).sepc == old(
                                ctx,
                            ).sepc,
                        }
                    }
                })
            },
            TrapCause::SupervisorExternal => {
                &&& final(vmm).external_irq == vstd::wrapping::u64_specs::wrapping_add(
                    old(vmm).external_irq,
                    1,
                )
                &&& r == (VmexitAction::ClaimIrq {
                    claim_addr: (old(vmm).host_plic->Some_0.base_addr + PLIC_CONTEXT_BASE + 4
                        + PLIC_CONTEXT_STRIDE * old(vmm).s_context()) as u64,
                })
            },
            TrapCause::SupervisorTimer => {
                &&& final(vmm).timer_irq == vstd::wrapping::u64_specs::wrapping_add(
                    old(vmm).timer_irq,
                    1,
                )
                &&& r == VmexitAction::TimerInterrupt
            },
            TrapCause::Other => {
                &&& final(ctx).sepc == csrs.vstvec
                &&& r == (VmexitAction::ForwardException {
                    vsepc: old(ctx).sepc,
                    vscause: csrs.scause_bits,
                })
            },
        },
{
    match cause {
        TrapCause::UserEnvCall => VmexitAction::Fatal { err: VmmError::NotSupported },
        TrapCause::VirtualSupervisorEnvCall => {
            let decision = sbi_vs_handler(ctx);
            ctx.sepc = ctx.sepc.wrapping_add(4);
            match decision {
                Ok(cmd) => VmexitAction::SbiCall { cmd },
                Err(e) => VmexitAction::Fatal { err: e },
            }
        },
        TrapCause::VirtualInstruction => VmexitAction::Fatal { err: VmmError::Unimplemented },
        TrapCause::InstructionGuestPageFault => VmexitAction::Fatal {
            err: VmmError::TranslationError,
        },
        TrapCause::LoadGuestPageFault | TrapCause::StoreGuestPageFault => {
            let out = match guest_page_fault_handler(vmm, ctx, csrs) {
                Ok(a) => a,
                Err(e) => VmexitAction::Fatal { err: e },
            };
            vmm.guest_page_fault = vmm.guest_page_fault.wrapping_add(1);
            out
        },
        TrapCause::SupervisorExternal => {
            vmm.external_irq = vmm.external_irq.wrapping_add(1);
            let claim_addr = vmm.claim_address();
            VmexitAction::ClaimIrq { claim_addr }
        },
        TrapCause::SupervisorTimer => {
            vmm.timer_irq = vmm.timer_irq.wrapping_add(1);
            VmexitAction::TimerInterrupt
        },
        TrapCause::Other => {
            let (vsepc, vscause) = forward_exception(ctx, csrs);
            VmexitAction::ForwardException { vsepc, vscause }
        },
    }
}

} // verus!
