//! The per-machine hypervisor state: guest slots, the host memory set,
//! the emulated PLIC, and the MMIO emulation it performs.
//!
//! One `HostVmm` exists per machine. It owns the host's first-stage map,
//! up to `MAX_GUESTS` guest control blocks, and the PLIC shadow through
//! which external interrupts are multiplexed into the running guest.

use vstd::prelude::*;

use crate::decode::DecodedInst;
use crate::error::VmmError;
use crate::mm::{GuestMemorySet, HostMemorySet};
use crate::plic::{PlicState, MAX_CONTEXTS, PLIC_CONTEXT_BASE, PLIC_CONTEXT_STRIDE};
use crate::regs::{TrapContext, VCpu};

verus! {

/// Guest slots the hypervisor keeps.
pub const MAX_GUESTS: usize = 4;

/// The guest-physical address guests are entered at.
pub const GUEST_START_VA: u64 = 0x8000_0000;

/// One discovered device: its base address and extent.
#[derive(Clone, Copy, PartialEq, Eq, Structural, Debug)]
pub struct Device {
    /// The physical base address.
    pub base_address: u64,
    /// The extent in bytes.
    pub size: u64,
}

/// What early boot learns about the machine.
pub struct MachineMeta {
    /// Base of physical memory.
    pub physical_memory_offset: u64,
    /// Extent of physical memory.
    pub physical_memory_size: u64,
    /// Discovered virtio devices, by base address.
    pub virtio: Vec<Device>,
    /// The test finisher, when present.
    pub test_finisher_address: Option<Device>,
    /// The console uart, when present.
    pub uart: Option<Device>,
    /// The core-local interruptor, when present.
    pub clint: Option<Device>,
    /// The platform interrupt controller, when present.
    pub plic: Option<Device>,
}

/// One guest: its identity, machine description, G-stage map and
/// virtual-cpu state.
pub struct Guest {
    /// What the guest's device tree describes.
    pub guest_machine: MachineMeta,
    /// The guest's G-stage memory set.
    pub gpm: GuestMemorySet,
    /// The dense small identifier of the guest.
    pub guest_id: u64,
    /// The virtual-cpu state.
    pub vcpu: VCpu,
}

impl Guest {
    /// A guest control block over a built G-stage map, together with the
    /// initial trap context that enters it: entry at the guest start
    /// address, the G-stage token in hgatp, the hypervisor stack top and
    /// trap-handler entry recorded for the trampoline.
    pub fn new(
        guest_id: u64,
        gpm: GuestMemorySet,
        guest_machine: MachineMeta,
        hstack_top: u64,
        trap_handler: u64,
        sstatus: u64,
    ) -> (r: (Guest, TrapContext))
        ensures
            r.0.guest_id == guest_id,
            r.0.gpm == gpm,
            r.0.vcpu.hart == guest_id,
            r.1.wf(),
            r.1.sepc == GUEST_START_VA,
            r.1.hgatp == (8u64 << 60) | gpm.page_table.root(),
            r.1.kernel_sp == hstack_top,
            r.1.trap_handler == trap_handler,
            r.1.sstatus == sstatus & !crate::regs::SSTATUS_SPP,
    {
        let token = gpm.token();
        let trap_ctx = TrapContext::initialize_context(
            GUEST_START_VA,
            0,
            token,
            hstack_top,
            trap_handler,
            sstatus,
        );
        let guest = Guest { guest_id, gpm, guest_machine, vcpu: VCpu::new(guest_id) };
        (guest, trap_ctx)
    }
}

/// The effect an emulated PLIC access asks the machine to perform.
#[derive(Clone, Copy, PartialEq, Eq, Structural, Debug)]
pub struct PlicAccessEffect {
    /// A word to store to the physical device, when the access writes
    /// through.
    pub write_addr: u64,
    /// The value of the write-through.
    pub write_value: u32,
    /// Whether a write-through is to be performed.
    pub do_write: bool,
    /// Whether the pending virtual external interrupt is to be cleared.
    pub clear_vseip: bool,
}

/// The exact outcome of one emulated access to the PLIC's
/// threshold/claim/complete window, as a function of the device base,
/// the shadow, the guest registers, the faulting address and the decoded
/// instruction: the new shadow, the new registers and the effect to
/// apply — or nothing when the word or the instruction shape is not
/// allowed for this window.
pub open spec fn spec_plic_access(
    base: u64,
    shadow: Seq<u32>,
    x: Seq<u64>,
    guest_pa: u64,
    inst: DecodedInst,
) -> Option<(Seq<u32>, Seq<u64>, PlicAccessEffect)> {
    let off = (guest_pa - base) as u64;
    let hart = ((off - PLIC_CONTEXT_BASE) as u64 / PLIC_CONTEXT_STRIDE) as int;
    let index = (((off - PLIC_CONTEXT_BASE) as u64 % PLIC_CONTEXT_STRIDE) / 4) as u64;
    if index == 0 {
        match inst {
            DecodedInst::Sw { rs2 } => Some(
                (
                    shadow,
                    x,
                    PlicAccessEffect {
                        write_addr: guest_pa,
                        write_value: x[rs2 as int] as u32,
                        do_write: true,
                        clear_vseip: false,
                    },
                ),
            ),
            _ => None,
        }
    } else if index == 1 {
        match inst {
            DecodedInst::Lw { rd } => Some(
                (
                    shadow,
                    x.update(rd as int, shadow[hart] as u64),
                    PlicAccessEffect {
                        write_addr: 0,
                        write_value: 0,
                        do_write: false,
                        clear_vseip: false,
                    },
                ),
            ),
            DecodedInst::Sw { rs2 } => Some(
                (
                    shadow.update(hart, 0u32),
                    x,
                    PlicAccessEffect {
                        write_addr: guest_pa,
                        write_value: x[rs2 as int] as u32,
                        do_write: true,
                        clear_vseip: true,
                    },
                ),
            ),
            DecodedInst::Other => None,
        }
    } else {
        None
    }
}

/// The machine-wide hypervisor state.
pub struct HostVmm {
    /// What the host's device tree describes.
    pub host_machine: MachineMeta,
    /// The hypervisor's own first-stage memory set.
    pub hpm: HostMemorySet,
    /// The guest slots, indexed by guest id.
    pub guests: Vec<Option<Guest>>,
    /// The guest running on this hart.
    pub guest_id: u64,
    /// The emulated PLIC, when the machine has one.
    pub host_plic: Option<PlicState>,
    /// Whether an external interrupt awaits injection.
    pub irq_pending: bool,
    /// External interrupts taken so far.
    pub external_irq: u64,
    /// Timer interrupts taken so far.
    pub timer_irq: u64,
    /// Guest page faults taken so far.
    pub guest_page_fault: u64,
}

impl HostVmm {
    /// Well-formed: full slot vector, a valid running id, a well-formed
    /// PLIC shadow when present.
    pub open spec fn wf(self) -> bool {
        &&& self.guests.len() == MAX_GUESTS
        &&& self.guest_id < MAX_GUESTS
        &&& (self.host_plic matches Some(p) ==> p.wf())
    }

    /// The fresh hypervisor state over a built host map: empty guest
    /// slots, guest zero current, the PLIC shadow over the discovered
    /// device, no interrupt pending.
    pub fn new_host_vmm(host_machine: MachineMeta, hpm: HostMemorySet) -> (r: HostVmm)
        ensures
            r.wf(),
            r.guest_id == 0,
            r.irq_pending == false,
            r.external_irq == 0,
            r.timer_irq == 0,
            r.guest_page_fault == 0,
            r.hpm == hpm,
            forall|i: int| 0 <= i < MAX_GUESTS ==> r.guests@[i] is None,
            host_machine.plic matches Some(d) ==> (r.host_plic matches Some(p) && p.base_addr
                == d.base_address && p.wf()),
            host_machine.plic is None ==> r.host_plic is None,
    {
        let mut guests: Vec<Option<Guest>> = Vec::new();
        let mut i: usize = 0;
        while i < MAX_GUESTS
            invariant
                i <= MAX_GUESTS,
                guests.len() == i,
                forall|j: int| 0 <= j < i ==> guests@[j] is None,
            decreases MAX_GUESTS - i,
        {
            guests.push(None);
            i = i + 1;
        }
        let host_plic = match &host_machine.plic {
            Some(d) => Some(PlicState::new(d.base_address)),
            None => None,
        };
        HostVmm {
            host_machine,
            hpm,
            guests,
            guest_id: 0,
            host_plic,
            irq_pending: false,
            external_irq: 0,
            timer_irq: 0,
            guest_page_fault: 0,
        }
    }

    /// Register a guest in its slot.
    pub fn add_guest_queue(&mut self, guest: Guest)
        requires
            old(self).wf(),
            guest.guest_id < MAX_GUESTS,
        ensures
            final(self).wf(),
            final(self).guests@ == old(self).guests@.update(
                guest.guest_id as int,
                Some(guest),
            ),
            final(self).guest_id == old(self).guest_id,
            final(self).host_plic == old(self).host_plic,
            final(self).irq_pending == old(self).irq_pending,
    {
        let id = guest.guest_id as usize;
        self.guests[id] = Some(guest);
    }

    /// The PLIC context the running guest's S-mode uses.
    pub open spec fn s_context(self) -> int {
        2 * self.guest_id + 1
    }

    /// The physical address of the claim/complete register of the
    /// running guest's S-mode context.
    pub fn claim_address(&self) -> (r: u64)
        requires
            self.wf(),
            self.host_plic is Some,
            self.host_plic->Some_0.base_addr < 0x100_0000_0000,
        ensures
            r == self.host_plic->Some_0.base_addr + PLIC_CONTEXT_BASE + 4 + PLIC_CONTEXT_STRIDE
                * self.s_context(),
    {
        let plic = self.host_plic.as_ref().unwrap();
        let context_id = 2 * self.guest_id + 1;
        plic.base_addr + 0x20_0004 + 0x1000 * context_id
    }

    /// Record an external interrupt claimed from the physical PLIC for
    /// the running guest: the claim is remembered in the shadow of the
    /// guest's S-mode context and an injection is marked pending. The
    /// caller raises the virtual external interrupt.
    pub fn handle_irq(&mut self, irq: u32)
        requires
            old(self).wf(),
            old(self).host_plic is Some,
        ensures
            final(self).wf(),
            final(self).host_plic matches Some(p) && (old(self).host_plic matches Some(p0)
                && p.base_addr == p0.base_addr && p.claim_complete@ == p0.claim_complete@.update(
                old(self).s_context(),
                irq,
            )),
            final(self).irq_pending == true,
            final(self).guest_id == old(self).guest_id,
            final(self).guests@ == old(self).guests@,
            final(self).external_irq == old(self).external_irq,
            final(self).timer_irq == old(self).timer_irq,
            final(self).guest_page_fault == old(self).guest_page_fault,
            final(self).hpm == old(self).hpm,
    {
        let context_id = (2 * self.guest_id + 1) as usize;
        let plic = match &mut self.host_plic {
            Some(p) => p,
            None => {
                proof {
                    assert(false);
                }
                return ;
            },
        };
        plic.claim_complete[context_id] = irq;
        self.irq_pending = true;
    }

    /// Emulate one guest access to the PLIC's threshold/claim/complete
    /// window. Word zero of a context is the threshold: a store is
    /// passed through. Word one is claim/complete: a load returns the
    /// shadow claim; a store passes the completion through, clears the
    /// shadow and asks for the virtual external interrupt to be
    /// cleared. Every other word, and every other instruction shape, is
    /// rejected.
    pub fn handle_plic_access(
        &mut self,
        ctx: &mut TrapContext,
        guest_pa: u64,
        instruction: DecodedInst,
    ) -> (r: Result<PlicAccessEffect, VmmError>)
        requires
            old(self).wf(),
            old(ctx).wf(),
            old(self).host_plic is Some,
            old(self).host_plic->Some_0.base_addr <= guest_pa,
            PLIC_CONTEXT_BASE <= guest_pa - old(self).host_plic->Some_0.base_addr
                < PLIC_CONTEXT_BASE + PLIC_CONTEXT_STRIDE * (MAX_CONTEXTS as u64),
            instruction matches DecodedInst::Lw { rd } ==> rd < 32,
            instruction matches DecodedInst::Sw { rs2 } ==> rs2 < 32,
        ensures
            final(self).wf(),
            final(ctx).wf(),
            final(self).guest_id == old(self).guest_id,
            final(self).guests@ == old(self).guests@,
            final(self).irq_pending == old(self).irq_pending,
            final(self).hpm == old(self).hpm,
            final(self).external_irq == old(self).external_irq,
            final(self).timer_irq == old(self).timer_irq,
            final(self).guest_page_fault == old(self).guest_page_fault,
            final(self).host_plic is Some,
            final(self).host_plic->Some_0.base_addr == old(self).host_plic->Some_0.base_addr,
            ({
                let base = old(self).host_plic->Some_0.base_addr;
                let shadow0 = old(self).host_plic->Some_0.claim_complete@;
                let shadow1 = final(self).host_plic->Some_0.claim_complete@;
                match r {
                    Ok(eff) => spec_plic_access(base, shadow0, old(ctx).x@, guest_pa, instruction)
                        == Some((shadow1, final(ctx).x@, eff)),
                    Err(e) => {
                        &&& e == VmmError::UnexpectedInst
                        &&& spec_plic_access(base, shadow0, old(ctx).x@, guest_pa, instruction)
                            is None
                        &&& shadow1 == shadow0
                        &&& final(ctx).x@ == old(ctx).x@
                    },
                }
            }),
            final(ctx).sepc == old(ctx).sepc,
            final(ctx).sstatus == old(ctx).sstatus,
            final(ctx).hgatp == old(ctx).hgatp,
    {
        let base = match &self.host_plic {
            Some(p) => p.base_addr,
            None => {
                proof {
                    assert(false);
                }
                0
            },
        };
        let offset = guest_pa - base;
        let rel = offset - PLIC_CONTEXT_BASE;
        let hart = (rel / PLIC_CONTEXT_STRIDE) as usize;
        let index = (rel % PLIC_CONTEXT_STRIDE) / 4;
        if index == 0 {
            // The threshold register: stores pass through to the shared
            // physical device; one guest runs per hart.
            match instruction {
                DecodedInst::Sw { rs2 } => {
                    let value = ctx.x[rs2 as usize] as u32;
                    Ok(
                        PlicAccessEffect {
                            write_addr: guest_pa,
                            write_value: value,
                            do_write: true,
                            clear_vseip: false,
                        },
                    )
                },
                _ => Err(VmmError::UnexpectedInst),
            }
        } else if index == 1 {
            match instruction {
                DecodedInst::Lw { rd } => {
                    let plic = match &self.host_plic {
                        Some(p) => p,
                        None => {
                            proof {
                                assert(false);
                            }
                            return Err(VmmError::UnexpectedInst);
                        },
                    };
                    let value = plic.claim_complete[hart];
                    ctx.x[rd as usize] = value as u64;
                    Ok(
                        PlicAccessEffect {
                            write_addr: 0,
                            write_value: 0,
                            do_write: false,
                            clear_vseip: false,
                        },
                    )
                },
                DecodedInst::Sw { rs2 } => {
                    let value = ctx.x[rs2 as usize] as u32;
                    let plic = match &mut self.host_plic {
                        Some(p) => p,
                        None => {
                            proof {
                                assert(false);
                            }
                            return Err(VmmError::UnexpectedInst);
                        },
                    };
                    plic.claim_complete[hart] = 0;
                    Ok(
                        PlicAccessEffect {
                            write_addr: guest_pa,
                            write_value: value,
                            do_write: true,
                            clear_vseip: true,
                        },
                    )
                },
                _ => Err(VmmError::UnexpectedInst),
            }
        } else {
            Err(VmmError::UnexpectedInst)
        }
    }
}

} // verus!
