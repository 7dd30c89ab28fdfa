//! Tests of instruction decode, PLIC emulation, the SBI proxy, the walk
//! and the vmexit dispatcher.

use hypocaust::decode::{decode_inst, instruction_length, DecodedInst};
use hypocaust::detect::{detect_trap_step, riscv_illegal_insn_bits, ILLEGAL_INSTRUCTION};
use hypocaust::device_id::DeviceId;
use hypocaust::error::VmmError;
use hypocaust::frame_allocator::StackFrameAllocator;
use hypocaust::hypervisor::{Device, Guest, HostVmm, MachineMeta};
use hypocaust::mm::HostMemorySet;
use hypocaust::addr::PhysPageNum;
use hypocaust::regs::{GprIndex, GeneralPurposeRegisters, TrapContext, SSTATUS_SPP};
use hypocaust::sbi::{apply_sbi_ret, sbi_vs_handler, SbiCommand, SbiRet, SBI_ERR_NOT_SUPPORTED};
use hypocaust::vmexit::{trap_handler, TrapCause, TrapCsrs, VmexitAction};
use hypocaust::walk::{fast_two_stage_translation, walk_page_table, PageMemory};

// lw a0, 0(a1) and sw a0, 0(a1), base-encoding words.
const LW_A0_A1: u64 = 0x0005_A503;
const SW_A0_A1: u64 = 0x00A5_A023;

fn machine_with_plic() -> MachineMeta {
    MachineMeta {
        physical_memory_offset: 0x8000_0000,
        physical_memory_size: 0x0800_0000,
        virtio: Vec::new(),
        test_finisher_address: None,
        uart: Some(Device { base_address: 0x1000_0000, size: 0x1000 }),
        clint: None,
        plic: Some(Device { base_address: 0x0c00_0000, size: 0x400_0000 }),
    }
}

fn fresh_vmm() -> HostVmm {
    let mut alloc = StackFrameAllocator::new();
    alloc.init(PhysPageNum(0x90000), PhysPageNum(0x91000));
    let hpm = HostMemorySet::new_bare(&mut alloc);
    HostVmm::new_host_vmm(machine_with_plic(), hpm)
}

fn fresh_ctx() -> TrapContext {
    TrapContext::initialize_context(0x8000_0000, 0, 0, 0, 0, 0)
}

#[test]
fn decode_recognizes_word_accesses() {
    assert_eq!(instruction_length(LW_A0_A1 as u16), 4);
    assert_eq!(instruction_length(0x0001), 2);
    let (len, inst) = decode_inst(LW_A0_A1);
    assert_eq!(len, 4);
    assert_eq!(inst, Some(DecodedInst::Lw { rd: 10 }));
    let (len2, inst2) = decode_inst(SW_A0_A1);
    assert_eq!(len2, 4);
    assert_eq!(inst2, Some(DecodedInst::Sw { rs2: 10 }));
    // An all-ones halfword is no 16- or 32-bit instruction.
    let (len3, inst3) = decode_inst(0xffff);
    assert!(len3 != 2 && len3 != 4);
    assert!(inst3.is_none());
}

#[test]
fn irq_claim_and_complete_cycle() {
    // An external interrupt arrives: the dispatcher asks for a claim.
    let mut vmm = fresh_vmm();
    let mut ctx = fresh_ctx();
    let csrs = TrapCsrs { scause_bits: 0, htval: 0, htinst: 0, vstvec: 0 };
    let action = trap_handler(&mut vmm, &mut ctx, TrapCause::SupervisorExternal, &csrs);
    // Guest zero claims through S-mode context one.
    assert_eq!(action, VmexitAction::ClaimIrq { claim_addr: 0x0c20_1004 });
    assert_eq!(vmm.external_irq, 1);
    // The embedder read irq 7 from the physical claim register.
    vmm.handle_irq(7);
    assert!(vmm.irq_pending);
    assert_eq!(vmm.host_plic.as_ref().unwrap().claim_complete[1], 7);

    // The guest reads the claim word of context one: lw returns 7.
    let claim_pa: u64 = 0x0c20_1004;
    ctx.x[11] = claim_pa;
    let eff = vmm
        .handle_plic_access(&mut ctx, claim_pa, DecodedInst::Lw { rd: 10 })
        .expect("claim read must be emulated");
    assert_eq!(ctx.x[10], 7);
    assert!(!eff.do_write);
    assert!(!eff.clear_vseip);

    // Repeating the read without new interrupts returns the same value.
    let eff2 = vmm
        .handle_plic_access(&mut ctx, claim_pa, DecodedInst::Lw { rd: 12 })
        .expect("claim read must be emulated");
    assert_eq!(ctx.x[12], 7);
    assert_eq!(ctx.x[10], 7);
    assert!(!eff2.do_write);

    // The guest writes 7 back: completion passes through, the shadow
    // clears, and the virtual external interrupt is dropped.
    ctx.x[10] = 7;
    let eff3 = vmm
        .handle_plic_access(&mut ctx, claim_pa, DecodedInst::Sw { rs2: 10 })
        .expect("completion must be emulated");
    assert!(eff3.do_write);
    assert_eq!(eff3.write_addr, claim_pa);
    assert_eq!(eff3.write_value, 7);
    assert!(eff3.clear_vseip);
    assert_eq!(vmm.host_plic.as_ref().unwrap().claim_complete[1], 0);
}

#[test]
fn plic_store_advances_sepc_by_four() {
    // P10 tail: the dispatcher advances sepc past the 4-byte store.
    let mut vmm = fresh_vmm();
    let mut ctx = fresh_ctx();
    vmm.handle_irq(7);
    ctx.x[10] = 7;
    let pc0 = ctx.sepc;
    let csrs = TrapCsrs {
        scause_bits: 23,
        htval: 0x0c20_1004 >> 2,
        htinst: SW_A0_A1,
        vstvec: 0,
    };
    let action = trap_handler(&mut vmm, &mut ctx, TrapCause::StoreGuestPageFault, &csrs);
    match action {
        VmexitAction::Emulated { effect } => {
            assert!(effect.clear_vseip);
            assert_eq!(effect.write_value, 7);
        },
        other => panic!("expected an emulated store, got {:?}", other),
    }
    assert_eq!(ctx.sepc, pc0 + 4);
    assert_eq!(vmm.guest_page_fault, 1);
    assert_eq!(vmm.host_plic.as_ref().unwrap().claim_complete[1], 0);
}

#[test]
fn threshold_write_passes_through() {
    let mut vmm = fresh_vmm();
    let mut ctx = fresh_ctx();
    let threshold_pa: u64 = 0x0c20_1000;
    ctx.x[10] = 1;
    let eff = vmm
        .handle_plic_access(&mut ctx, threshold_pa, DecodedInst::Sw { rs2: 10 })
        .expect("threshold store must be emulated");
    assert!(eff.do_write);
    assert_eq!(eff.write_addr, threshold_pa);
    assert_eq!(eff.write_value, 1);
    assert!(!eff.clear_vseip);
    // A load of the threshold is not allowed.
    let bad = vmm.handle_plic_access(&mut ctx, threshold_pa, DecodedInst::Lw { rd: 10 });
    assert_eq!(bad, Err(VmmError::UnexpectedInst));
}

#[test]
fn fault_outside_devices_is_fatal() {
    let mut vmm = fresh_vmm();
    let mut ctx = fresh_ctx();
    let csrs = TrapCsrs { scause_bits: 21, htval: 0x2000_0000 >> 2, htinst: 0, vstvec: 0 };
    let action = trap_handler(&mut vmm, &mut ctx, TrapCause::LoadGuestPageFault, &csrs);
    assert_eq!(action, VmexitAction::Fatal { err: VmmError::DeviceNotFound });
}

#[test]
fn empty_htinst_asks_for_a_fetch() {
    let mut vmm = fresh_vmm();
    let mut ctx = fresh_ctx();
    ctx.sepc = 0x8020_0000;
    let csrs = TrapCsrs { scause_bits: 21, htval: 0x0c20_1004 >> 2, htinst: 0, vstvec: 0 };
    let action = trap_handler(&mut vmm, &mut ctx, TrapCause::LoadGuestPageFault, &csrs);
    assert_eq!(
        action,
        VmexitAction::FetchAndEmulate { inst_va: 0x8020_0000, guest_pa: 0x0c20_1004 },
    );
}

#[test]
fn pseudo_instruction_is_fatal() {
    let mut vmm = fresh_vmm();
    let mut ctx = fresh_ctx();
    let csrs = TrapCsrs { scause_bits: 21, htval: 0x0c20_1004 >> 2, htinst: 0x3000, vstvec: 0 };
    let action = trap_handler(&mut vmm, &mut ctx, TrapCause::LoadGuestPageFault, &csrs);
    assert_eq!(action, VmexitAction::Fatal { err: VmmError::PseudoInst });
}

#[test]
fn console_putchar_proxies_and_advances() {
    // Boot-to-guest tail: the guest's ecall prints 'A' and proceeds.
    let mut vmm = fresh_vmm();
    let mut ctx = fresh_ctx();
    ctx.sepc = 0x8020_0008;
    ctx.x[17] = 1;
    ctx.x[10] = 'A' as u64;
    let csrs = TrapCsrs { scause_bits: 10, htval: 0, htinst: 0, vstvec: 0 };
    let action = trap_handler(&mut vmm, &mut ctx, TrapCause::VirtualSupervisorEnvCall, &csrs);
    assert_eq!(action, VmexitAction::SbiCall { cmd: SbiCommand::PutChar { ch: 0x41 } });
    assert_eq!(ctx.sepc, 0x8020_000c);
}

#[test]
fn legacy_timer_call_and_timer_interrupt() {
    // The guest programs a timer through the legacy extension.
    let mut vmm = fresh_vmm();
    let mut ctx = fresh_ctx();
    ctx.x[17] = 0;
    ctx.x[10] = 123_456_789;
    let csrs = TrapCsrs { scause_bits: 10, htval: 0, htinst: 0, vstvec: 0x8020_4000 };
    let action = trap_handler(&mut vmm, &mut ctx, TrapCause::VirtualSupervisorEnvCall, &csrs);
    assert_eq!(
        action,
        VmexitAction::SbiCall { cmd: SbiCommand::SetTimer { time: 123_456_789 } },
    );
    // When the host timer fires, the guest gets a virtual timer interrupt.
    let fire = trap_handler(&mut vmm, &mut ctx, TrapCause::SupervisorTimer, &csrs);
    assert_eq!(fire, VmexitAction::TimerInterrupt);
    assert_eq!(vmm.timer_irq, 1);
}

#[test]
fn base_probe_is_forwarded_and_answered() {
    let mut vmm = fresh_vmm();
    let mut ctx = fresh_ctx();
    ctx.x[17] = 0x10;
    ctx.x[16] = 3;
    ctx.x[10] = 0x5449_4D45;
    let pc0 = ctx.sepc;
    let csrs = TrapCsrs { scause_bits: 10, htval: 0, htinst: 0, vstvec: 0 };
    let action = trap_handler(&mut vmm, &mut ctx, TrapCause::VirtualSupervisorEnvCall, &csrs);
    assert_eq!(
        action,
        VmexitAction::SbiCall { cmd: SbiCommand::Base { fid: 3, arg0: 0x5449_4D45 } },
    );
    assert_eq!(ctx.sepc, pc0 + 4);
    // The firmware answered: error 0, the extension exists.
    apply_sbi_ret(&mut ctx, SbiRet { error: 0, value: 1 });
    assert_eq!(ctx.x[10], 0);
    assert_eq!(ctx.x[11], 1);
}

#[test]
fn unknown_extension_is_fatal_and_wrong_timer_fid_is_answered() {
    let mut vmm = fresh_vmm();
    let mut ctx = fresh_ctx();
    ctx.x[17] = 0xdead;
    let csrs = TrapCsrs { scause_bits: 10, htval: 0, htinst: 0, vstvec: 0 };
    let action = trap_handler(&mut vmm, &mut ctx, TrapCause::VirtualSupervisorEnvCall, &csrs);
    assert_eq!(action, VmexitAction::Fatal { err: VmmError::NotSupported });
    // A wrong timer function id is answered not-supported, not fatal.
    ctx.x[17] = 0x5449_4D45;
    ctx.x[16] = 9;
    let cmd = sbi_vs_handler(&ctx).unwrap();
    assert_eq!(cmd, SbiCommand::Respond { error: SBI_ERR_NOT_SUPPORTED, value: 0 });
}

#[test]
fn instruction_fetch_fault_is_fatal() {
    // A jump to an unmapped virtual address cannot be serviced.
    let mut vmm = fresh_vmm();
    let mut ctx = fresh_ctx();
    let csrs = TrapCsrs { scause_bits: 20, htval: 0, htinst: 0, vstvec: 0 };
    let action = trap_handler(&mut vmm, &mut ctx, TrapCause::InstructionGuestPageFault, &csrs);
    assert_eq!(action, VmexitAction::Fatal { err: VmmError::TranslationError });
}

#[test]
fn unknown_exception_is_reflected() {
    let mut vmm = fresh_vmm();
    let mut ctx = fresh_ctx();
    ctx.sepc = 0x8020_0010;
    let csrs = TrapCsrs { scause_bits: 3, htval: 0, htinst: 0, vstvec: 0x8030_0000 };
    let action = trap_handler(&mut vmm, &mut ctx, TrapCause::Other, &csrs);
    assert_eq!(
        action,
        VmexitAction::ForwardException { vsepc: 0x8020_0010, vscause: 3 },
    );
    assert_eq!(ctx.sepc, 0x8030_0000);
}

fn three_level_memory() -> PageMemory {
    // A root at 0x1000, a mid table at 0x2000, a leaf at 0x3000, mapping
    // va 0x8020_0000 onto pa 0x8800_0000.
    let mut words = vec![0u64; 3 * 512];
    words[2] = (0x2u64 << 10) | 1;  // root[2] -> table at 0x2000
    words[512 + 1] = (0x3u64 << 10) | 1;  // mid[1] -> table at 0x3000
    words[1024] = (0x88000u64 << 10) | 0xf;  // leaf[0] -> frame 0x88000, VRWX
    PageMemory { base: 0x1000, words }
}

#[test]
fn walk_reaches_the_leaf() {
    let mem = three_level_memory();
    let walk = walk_page_table(0x1000, 0x8020_0000, &mem).expect("mapped va must walk");
    assert_eq!(walk.pa, 0x8800_0000);
    assert_eq!(walk.path.len(), 3);
    assert_eq!(walk.path[2].addr, 0x3000);
    // The offset rides along.
    let walk2 = walk_page_table(0x1000, 0x8020_0123, &mem).unwrap();
    assert_eq!(walk2.pa, 0x8800_0123);
}

#[test]
fn walk_stops_on_invalid_entries() {
    let mem = three_level_memory();
    // A va whose root slot is empty.
    assert!(walk_page_table(0x1000, 0x4020_0000, &mem).is_none());
    // A va whose mid slot is empty.
    assert!(walk_page_table(0x1000, 0x8000_0000, &mem).is_none());
    // A va whose leaf slot is empty.
    assert!(walk_page_table(0x1000, 0x8020_1000, &mem).is_none());
}

#[test]
fn walk_honours_superpages() {
    let mut words = vec![0u64; 512];
    // root[2] is a readable 1 GiB leaf on frame 0x80000.
    words[2] = (0x80000u64 << 10) | 0x3;
    let mem = PageMemory { base: 0x1000, words };
    let walk = walk_page_table(0x1000, 0x8020_0123, &mem).unwrap();
    assert_eq!(walk.pa, 0x8020_0123);
    assert_eq!(walk.path.len(), 1);
}

#[test]
fn first_stage_translation_respects_vsatp() {
    let mem = three_level_memory();
    // Paging off: the address passes through.
    assert_eq!(fast_two_stage_translation(0, 0x8020_0000, 0, &mem), Some(0x8020_0000));
    // Paging on: the walk decides; root ppn 1 means table at 0x1000.
    let vsatp = (8u64 << 60) | 1;
    assert_eq!(
        fast_two_stage_translation(0, 0x8020_0000, vsatp, &mem),
        Some(0x8800_0000),
    );
    assert_eq!(fast_two_stage_translation(0, 0x4020_0000, vsatp, &mem), None);
}

#[test]
fn guest_registration_and_context() {
    let mut vmm = fresh_vmm();
    let mut alloc = StackFrameAllocator::new();
    alloc.init(PhysPageNum(0xa0000), PhysPageNum(0xa1000));
    let gpm = hypocaust::mm::GuestMemorySet::new_guest_bare(&mut alloc);
    let meta = machine_with_plic();
    let (guest, ctx) = Guest::new(0, gpm, meta, 0xffff_ffff_ffff_e000, 0x8020_4000, 0x100);
    assert_eq!(ctx.sepc, 0x8000_0000);
    assert_eq!(ctx.sstatus & SSTATUS_SPP, 0);
    assert_eq!(ctx.kernel_sp, 0xffff_ffff_ffff_e000);
    vmm.add_guest_queue(guest);
    assert!(vmm.guests[0].is_some());
    assert!(vmm.guests[1].is_none());
}

#[test]
fn register_file_behaviour() {
    let mut regs = GeneralPurposeRegisters::new();
    regs.set_reg(GprIndex::A0, 0xdeaf);
    assert_eq!(regs.reg(GprIndex::A0), 0xdeaf);
    regs.set_reg(GprIndex::Zero, 7);
    assert_eq!(regs.reg(GprIndex::Zero), 0);
    let a = regs.a_regs();
    assert_eq!(a.len(), 8);
    assert_eq!(a[0], 0xdeaf);
    assert_eq!(GprIndex::from_raw(10), Some(GprIndex::A0));
    assert_eq!(GprIndex::from_raw(31), Some(GprIndex::T6));
    assert_eq!(GprIndex::from_raw(32), None);
}

#[test]
fn trap_context_initialization() {
    let mut ctx = TrapContext::initialize_context(0x8000_0000, 0x9000, 0x1234, 0x5678, 0x9abc, 0x1fff);
    assert_eq!(ctx.sepc, 0x8000_0000);
    assert_eq!(ctx.x[2], 0x9000);
    assert_eq!(ctx.sstatus, 0x1fff & !SSTATUS_SPP);
    ctx.set_sp(0xaaaa);
    assert_eq!(ctx.x[2], 0xaaaa);
}

#[test]
fn detect_probe_helpers() {
    assert_eq!(riscv_illegal_insn_bits(0), 0);
    assert_eq!(riscv_illegal_insn_bits(0x0001), 2);
    assert_eq!(riscv_illegal_insn_bits(0x0007), 4);
    assert_eq!(riscv_illegal_insn_bits(0x001f), 0);
    // Reading hgatp is the 32-bit csrr encoding; the handler skips it.
    let (ans, resume) = detect_trap_step(ILLEGAL_INSTRUCTION, 0x6800_2573, 0x8000_0000, 0);
    assert_eq!(ans, ILLEGAL_INSTRUCTION);
    assert_eq!(resume, 0x8000_0004);
}

#[test]
fn device_ids_are_24_bits() {
    let id = DeviceId::new(0x123456).unwrap();
    assert_eq!(id.bits(), 0x123456);
    assert!(DeviceId::new(0x100_0000).is_none());
    assert_eq!(id.level_index_bits(0), 0x123456 & 0x3f);
    assert_eq!(id.level_index_bits(1), (0x123456 >> 6) & 0x1ff);
    assert_eq!(id.level_index_bits(2), (0x123456 >> 15) & 0x1ff);
}

#[test]
fn two_stage_translation_composes_both_maps() {
    // First stage through the guest's own table, second through the
    // G-stage map: gpa 0x8800_0000 sits on host frame 0x9020_0123's page.
    let mem = three_level_memory();
    let mut alloc = StackFrameAllocator::new();
    alloc.init(PhysPageNum(0xa0000), PhysPageNum(0xa2000));
    let mut gpm = hypocaust::mm::GuestMemorySet::new_guest_bare(&mut alloc);
    let area = hypocaust::memory_set::MapArea::new(
        hypocaust::addr::VirtAddr(0x8800_0000),
        hypocaust::addr::VirtAddr(0x8810_0000),
        Some(hypocaust::addr::PhysAddr(0x9020_0000)),
        Some(hypocaust::addr::PhysAddr(0x9030_0000)),
        hypocaust::memory_set::MapType::Linear,
        hypocaust::pte::PTE_R | hypocaust::pte::PTE_W | hypocaust::pte::PTE_U,
    );
    gpm.push(area, None, &mut alloc);
    let vsatp = (8u64 << 60) | 1;
    let host = hypocaust::walk::two_stage_translation(0, 0x8020_0123, vsatp, &mem, &gpm);
    assert_eq!(host, Some(0x9020_0123));
    // A guest va whose first stage faults translates to nothing.
    assert_eq!(
        hypocaust::walk::two_stage_translation(0, 0x4020_0000, vsatp, &mem, &gpm),
        None,
    );
    // With paging off the G-stage alone decides.
    assert_eq!(
        hypocaust::walk::two_stage_translation(0, 0x8800_0040, 0, &mem, &gpm),
        Some(0x9020_0040),
    );
    assert_eq!(hypocaust::walk::guest_translation(0x8800_0040, &gpm), Some(0x9020_0040));
}

#[test]
fn undecodable_instruction_is_a_decode_error() {
    let mut vmm = fresh_vmm();
    let mut ctx = fresh_ctx();
    // An all-ones word decodes to nothing the emulator accepts.
    let r = hypocaust::vmexit::emulate_mmio(&mut vmm, &mut ctx, 0x0c20_1004, 0xffff_ffff);
    assert_eq!(r, Err(VmmError::DecodeInstError));
    // A legal instruction aimed outside the context window is rejected.
    let r2 = hypocaust::vmexit::emulate_mmio(&mut vmm, &mut ctx, 0x0c00_0000, LW_A0_A1);
    assert_eq!(r2, Err(VmmError::UnexpectedInst));
}

#[test]
fn remote_fence_demux_carries_arguments() {
    let ctx = {
        let mut c = fresh_ctx();
        c.x[17] = 0x5246_4E43;
        c.x[16] = 1;
        c.x[10] = 0x3;
        c.x[11] = 0;
        c.x[12] = 0x8000_0000;
        c.x[13] = 0x1000;
        c
    };
    let cmd = sbi_vs_handler(&ctx).unwrap();
    assert_eq!(
        cmd,
        SbiCommand::RemoteSfenceVma {
            hart_mask: 3,
            hart_mask_base: 0,
            start_addr: 0x8000_0000,
            size: 0x1000,
        },
    );
}

#[test]
fn address_segmentation_round_trips() {
    let hpa = hypocaust::walk::gpa2hpa(0x8000_0000, 1);
    assert_eq!(hpa, 0x8000_0000 + 0x800_0000);
    assert_eq!(hypocaust::walk::hpa2gpa(hpa, 1), 0x8000_0000);
}

#[test]
fn unimplemented_paths_are_reported() {
    let mut vmm = fresh_vmm();
    let mut ctx = fresh_ctx();
    // A remote-fence function outside the two supported ones.
    ctx.x[17] = 0x5246_4E43;
    ctx.x[16] = 9;
    assert_eq!(sbi_vs_handler(&ctx), Err(VmmError::Unimplemented));
    // A virtual-instruction trap has no handler yet.
    let csrs = TrapCsrs { scause_bits: 22, htval: 0, htinst: 0, vstvec: 0 };
    let action = trap_handler(&mut vmm, &mut ctx, TrapCause::VirtualInstruction, &csrs);
    assert_eq!(action, VmexitAction::Fatal { err: VmmError::Unimplemented });
    // An environment call from user mode never reaches the dispatcher legally.
    let bad = trap_handler(&mut vmm, &mut ctx, TrapCause::UserEnvCall, &csrs);
    assert_eq!(bad, VmexitAction::Fatal { err: VmmError::NotSupported });
}

#[test]
fn claim_read_through_the_dispatcher() {
    // The guest's 4-byte lw at the context-1 claim word, carried in
    // htinst: the captured irq lands in the destination register and
    // sepc advances past the load, without reading the device.
    let mut vmm = fresh_vmm();
    let mut ctx = fresh_ctx();
    vmm.handle_irq(7);
    ctx.sepc = 0x8020_0010;
    let csrs = TrapCsrs {
        scause_bits: 21,
        htval: 0x0c20_1004 >> 2,
        htinst: LW_A0_A1,
        vstvec: 0,
    };
    let action = trap_handler(&mut vmm, &mut ctx, TrapCause::LoadGuestPageFault, &csrs);
    match action {
        VmexitAction::Emulated { effect } => {
            assert!(!effect.do_write);
            assert!(!effect.clear_vseip);
        },
        other => panic!("expected an emulated load, got {:?}", other),
    }
    assert_eq!(ctx.x[10], 7);
    assert_eq!(ctx.sepc, 0x8020_0014);
    // The shadow still holds the claim until completion.
    assert_eq!(vmm.host_plic.as_ref().unwrap().claim_complete[1], 7);
}
