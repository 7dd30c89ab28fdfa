//! Probing for the hypervisor extension by trapping on a csr read.
//!
//! The probe executes a read of hgatp under a scratch trap handler; an
//! illegal-instruction exception means the extension is absent. The
//! handler must skip the faulting instruction, whose width it recovers
//! from the trap value or from the instruction's first halfword.

use vstd::prelude::*;

verus! {

/// The scause value of an illegal-instruction exception.
pub const ILLEGAL_INSTRUCTION: u64 = 2;

/// The width in bytes of the instruction whose low sixteen bits are
/// given, or zero when it cannot be told from them: two bytes unless the
/// two low bits are both set, four when bits 2..5 are not all set, and
/// unknown beyond that.
pub open spec fn spec_illegal_insn_bits(insn: u16) -> u64 {
    if insn == 0 {
        0
    } else if insn & 0b11 != 0b11 {
        2
    } else if insn & 0b11100 != 0b11100 {
        4
    } else {
        0
    }
}

/// The width in bytes of the instruction whose low sixteen bits are
/// given, or zero when it cannot be told from them.
pub fn riscv_illegal_insn_bits(insn: u16) -> (r: u64)
    ensures
        r == spec_illegal_insn_bits(insn),
{
    if insn == 0 {
        return 0;
    }
    if insn & 0b11 != 0b11 {
        return 2;
    }
    if insn & 0b11100 != 0b11100 {
        return 4;
    }
    0
}

/// The program counter the probe's trap handler resumes at: the faulting
/// instruction is skipped by its width, read first from the trap value
/// and, failing that, from the instruction's first halfword.
pub open spec fn spec_detect_resume(stval: u64, sepc: u64, insn_half: u16) -> u64 {
    let w = spec_illegal_insn_bits((stval & 0xffff) as u16);
    let w2 = if w == 0 {
        spec_illegal_insn_bits(insn_half)
    } else {
        w
    };
    vstd::wrapping::u64_specs::wrapping_add(sepc, w2)
}

/// What the probe's trap handler does on an exception: the answer it
/// stores for the probe, and the program counter to resume at.
pub fn detect_trap_step(scause: u64, stval: u64, sepc: u64, insn_half: u16) -> (r: (u64, u64))
    requires
        scause == ILLEGAL_INSTRUCTION,
    ensures
        r.0 == scause,
        r.1 == spec_detect_resume(stval, sepc, insn_half),
{
    proof {
        assert(stval & 0xffff <= 0xffff) by (bit_vector);
    }
    let primary = (stval & 0xffff) as u16;
    let mut insn_bits = riscv_illegal_insn_bits(primary);
    if insn_bits == 0 {
        insn_bits = riscv_illegal_insn_bits(insn_half);
    }
    (scause, sepc.wrapping_add(insn_bits))
}

} // verus!
