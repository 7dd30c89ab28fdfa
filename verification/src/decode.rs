//! Decoding the instruction that caused an MMIO trap.
//!
//! The emulator needs to know only whether the faulting instruction was
//! a load word or a store word, and which register it names; everything
//! else it rejects. The instruction's width comes from its first
//! halfword, as the base encoding prescribes.

use vstd::prelude::*;

verus! {

/// The decoded shape of a trapping instruction, as much of it as MMIO
/// emulation reads.
#[derive(Clone, Copy, PartialEq, Eq, Structural, Debug)]
pub enum DecodedInst {
    /// A load word, with its destination register.
    Lw { rd: u32 },
    /// A store word, with its source register.
    Sw { rs2: u32 },
    /// Any other instruction the decoder accepts.
    Other,
}

/// What the instruction decoder yields for given bits, folded onto the
/// shapes the emulator reads.
pub uninterp spec fn decode_of(bits: u32) -> Option<DecodedInst>;

/// Relies on riscv_decode::decode: the result depends on the instruction
/// bits alone, and the register fields of Lw and Sw are five-bit fields.
#[verifier::external_body]
fn decode_raw(bits: u32) -> (r: Option<DecodedInst>)
    ensures
        r == decode_of(bits),
        r matches Some(DecodedInst::Lw { rd }) ==> rd < 32,
        r matches Some(DecodedInst::Sw { rs2 }) ==> rs2 < 32,
{
    match riscv_decode::decode(bits) {
        Ok(riscv_decode::Instruction::Lw(i)) => Some(DecodedInst::Lw { rd: i.rd() }),
        Ok(riscv_decode::Instruction::Sw(i)) => Some(DecodedInst::Sw { rs2: i.rs2() }),
        Ok(_) => Some(DecodedInst::Other),
        Err(_) => None,
    }
}

/// The width in bytes of the instruction whose first halfword is given:
/// two unless the low two bits are both set, four when bits 2..5 are not
/// all set, then the longer base-encoding widths.
pub open spec fn spec_instruction_length(i: u16) -> u64 {
    if i & 0b11 != 0b11 {
        2
    } else if i & 0b11100 != 0b11100 {
        4
    } else if i & 0b111111 == 0b011111 {
        6
    } else if i & 0b1111111 == 0b011111 {
        8
    } else {
        (10 + 2 * ((i >> 12) & 0b111)) as u64
    }
}

/// The width in bytes of the instruction whose first halfword is given.
pub fn instruction_length(i: u16) -> (r: u64)
    ensures
        r == spec_instruction_length(i),
{
    if i & 0b11 != 0b11 {
        2
    } else if i & 0b11100 != 0b11100 {
        4
    } else if i & 0b111111 == 0b011111 {
        6
    } else if i & 0b1111111 == 0b011111 {
        8
    } else {
        10 + 2 * ((i >> 12) & 0b111) as u64
    }
}

/// Decode a trapping instruction from its raw bits: its width, and its
/// shape when it is a two- or four-byte instruction the decoder accepts.
pub fn decode_inst(inst: u64) -> (r: (u64, Option<DecodedInst>))
    ensures
        r.0 == spec_instruction_length((inst & 0xffff) as u16),
        r.0 == 2 ==> r.1 == decode_of((inst & 0xffff) as u32),
        r.0 == 4 ==> r.1 == decode_of((inst & 0xffff_ffff) as u32),
        r.0 != 2 && r.0 != 4 ==> r.1 is None,
        r.1 matches Some(DecodedInst::Lw { rd }) ==> rd < 32,
        r.1 matches Some(DecodedInst::Sw { rs2 }) ==> rs2 < 32,
{
    proof {
        assert(inst & 0xffff <= 0xffff && inst & 0xffff_ffff <= 0xffff_ffff) by (bit_vector);
    }
    let i1 = (inst & 0xffff) as u16;
    let len = instruction_length(i1);
    if len == 2 {
        (2, decode_raw(i1 as u32))
    } else if len == 4 {
        (4, decode_raw((inst & 0xffff_ffff) as u32))
    } else {
        (len, None)
    }
}

} // verus!
