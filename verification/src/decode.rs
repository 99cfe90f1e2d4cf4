//! Instruction decoding for trap emulation, through the `raki` decoder.
//!
//! One name, `decoded_of`, stands for the decoder's result; each wrapper
//! hands out the projection its trap path needs.

use vstd::prelude::*;

use raki::Instruction;
use raki::OpcodeKind;
use raki::ZicfissOpcode;
use raki::ZicntrOpcode;
use raki::ZicsrOpcode;

verus! {

/// A Zicsr opcode.
#[derive(Clone, Copy, PartialEq, Eq, Structural, Debug)]
pub enum ZicsrOp {
    Csrrw,
    Csrrs,
    Csrrc,
    Csrrwi,
    Csrrsi,
    Csrrci,
}

/// A Zicfiss opcode.
#[derive(Clone, Copy, PartialEq, Eq, Structural, Debug)]
pub enum ZicfissOp {
    Sspush,
    CSspush,
    Sspopchk,
    CSspopchk,
    Ssrdp,
    SsamoswapW,
    SsamoswapD,
}

/// The opcode class of a decoded instruction, as far as the trap paths care.
#[derive(Clone, Copy, PartialEq, Eq, Structural, Debug)]
pub enum OpClass {
    Zicsr(ZicsrOp),
    Zicfiss(ZicfissOp),
    Rdtime,
    Other,
}

/// A decoded instruction: its class and operand fields.
#[derive(Clone, Copy, PartialEq, Eq, Structural, Debug)]
pub struct DecodedInst {
    pub op: OpClass,
    pub rd: Option<usize>,
    pub rs1: Option<usize>,
    /// For Zicsr instructions this field carries the CSR number.
    pub rs2: Option<usize>,
    pub imm: Option<i32>,
    pub compressed: bool,
}

/// What the decoder returns for a raw instruction word; `None` when the word
/// does not decode.
pub uninterp spec fn decoded_of(raw: u64) -> Option<DecodedInst>;

/// The decoder's domain: a 32-bit word for a full instruction (low bits
/// `11`), a 16-bit one for a compressed instruction.  Wider values are
/// outside what the decoder accepts.
pub open spec fn spec_decode_in_range(raw: u64) -> bool {
    if raw % 4 == 3 {
        raw <= 0xffff_ffff
    } else {
        raw <= 0xffff
    }
}

/// Decide `spec_decode_in_range`.
pub fn decode_in_range(raw: u64) -> (r: bool)
    ensures
        r == spec_decode_in_range(raw),
{
    if raw % 4 == 3 {
        raw <= 0xffff_ffff
    } else {
        raw <= 0xffff
    }
}

/// A decoded Zicsr instruction.
#[derive(Clone, Copy, PartialEq, Eq, Structural, Debug)]
pub struct ZicsrInst {
    pub op: ZicsrOp,
    pub rd: Option<usize>,
    pub rs1: Option<usize>,
    /// The immediate of the `*I` forms.
    pub uimm: Option<i32>,
    /// The CSR number.
    pub csr: Option<usize>,
}

/// The Zicsr projection of a decoder result.
pub open spec fn zicsr_of(d: Option<DecodedInst>) -> Option<ZicsrInst> {
    match d {
        Some(i) => match i.op {
            OpClass::Zicsr(z) => Some(
                ZicsrInst { op: z, rd: i.rd, rs1: i.rs1, uimm: i.imm, csr: i.rs2 },
            ),
            _ => None,
        },
        None => None,
    }
}

/// A decoded Zicfiss instruction.
#[derive(Clone, Copy, PartialEq, Eq, Structural, Debug)]
pub struct ZicfissInst {
    pub op: ZicfissOp,
    pub rd: Option<usize>,
    pub rs1: Option<usize>,
    pub rs2: Option<usize>,
    pub compressed: bool,
}

/// The Zicfiss projection of a decoder result.
pub open spec fn zicfiss_of(d: Option<DecodedInst>) -> Option<ZicfissInst> {
    match d {
        Some(i) => match i.op {
            OpClass::Zicfiss(z) => Some(
                ZicfissInst { op: z, rd: i.rd, rs1: i.rs1, rs2: i.rs2, compressed: i.compressed },
            ),
            _ => None,
        },
        None => None,
    }
}

/// The `rdtime` projection of a decoder result: the destination register.
pub open spec fn rdtime_of(d: Option<DecodedInst>) -> Option<Option<usize>> {
    match d {
        Some(i) => match i.op {
            OpClass::Rdtime => Some(i.rd),
            _ => None,
        },
        None => None,
    }
}

/// The operand-field projection of a decoder result, for emulated memory
/// accesses: destination, source and width class.
pub open spec fn fields_of(d: Option<DecodedInst>) -> Option<
    (Option<usize>, Option<usize>, bool),
> {
    match d {
        Some(i) => Some((i.rd, i.rs2, i.compressed)),
        None => None,
    }
}

/// Relies on raki's decoder (`Instruction::try_from`): classify a Zicsr
/// instruction and hand out its fields.  The decoder narrows the word to 32
/// or 16 bits and rejects wider values loudly, so its domain is required.
#[verifier::external_body]
pub fn decode_zicsr(raw: u64) -> (r: Option<ZicsrInst>)
    requires
        spec_decode_in_range(raw),
    ensures
        r == zicsr_of(decoded_of(raw)),
{
    let Ok(i) = Instruction::try_from(raw as usize) else { return None };
    let OpcodeKind::Zicsr(z) = i.opc else { return None };
    let op = match z {
        ZicsrOpcode::CSRRW => ZicsrOp::Csrrw,
        ZicsrOpcode::CSRRS => ZicsrOp::Csrrs,
        ZicsrOpcode::CSRRC => ZicsrOp::Csrrc,
        ZicsrOpcode::CSRRWI => ZicsrOp::Csrrwi,
        ZicsrOpcode::CSRRSI => ZicsrOp::Csrrsi,
        ZicsrOpcode::CSRRCI => ZicsrOp::Csrrci,
    };
    Some(ZicsrInst { op, rd: i.rd, rs1: i.rs1, uimm: i.imm, csr: i.rs2 })
}

/// Relies on raki's decoder (`Instruction::try_from`): classify a Zicfiss
/// instruction and hand out its fields.  The decoder's domain is required
/// as for `decode_zicsr`.
#[verifier::external_body]
pub fn decode_zicfiss(raw: u64) -> (r: Option<ZicfissInst>)
    requires
        spec_decode_in_range(raw),
    ensures
        r == zicfiss_of(decoded_of(raw)),
{
    let Ok(i) = Instruction::try_from(raw as usize) else { return None };
    let OpcodeKind::Zicfiss(z) = i.opc else { return None };
    let op = match z {
        ZicfissOpcode::SSPUSH => ZicfissOp::Sspush,
        ZicfissOpcode::C_SSPUSH => ZicfissOp::CSspush,
        ZicfissOpcode::SSPOPCHK => ZicfissOp::Sspopchk,
        ZicfissOpcode::C_SSPOPCHK => ZicfissOp::CSspopchk,
        ZicfissOpcode::SSRDP => ZicfissOp::Ssrdp,
        ZicfissOpcode::SSAMOSWAP_W => ZicfissOp::SsamoswapW,
        ZicfissOpcode::SSAMOSWAP_D => ZicfissOp::SsamoswapD,
    };
    Some(ZicfissInst { op, rd: i.rd, rs1: i.rs1, rs2: i.rs2, compressed: i.is_compressed })
}

/// Relies on raki's decoder (`Instruction::try_from`): recognize `rdtime`
/// and hand out its destination register.  The decoder's domain is required
/// as for `decode_zicsr`.
#[verifier::external_body]
pub fn decode_rdtime(raw: u64) -> (r: Option<Option<usize>>)
    requires
        spec_decode_in_range(raw),
    ensures
        r == rdtime_of(decoded_of(raw)),
{
    let Ok(i) = Instruction::try_from(raw as usize) else { return None };
    match i.opc {
        OpcodeKind::Zicntr(ZicntrOpcode::RDTIME) => Some(i.rd),
        _ => None,
    }
}

/// Relies on raki's decoder (`Instruction::try_from`): hand out the operand
/// fields of any decodable instruction, as the MMIO fault path reads them.
/// The decoder's domain is required as for `decode_zicsr`.
#[verifier::external_body]
pub fn decode_fields(raw: u64) -> (r: Option<(Option<usize>, Option<usize>, bool)>)
    requires
        spec_decode_in_range(raw),
    ensures
        r == fields_of(decoded_of(raw)),
{
    match Instruction::try_from(raw as usize) {
        Ok(i) => Some((i.rd, i.rs2, i.is_compressed)),
        Err(_) => None,
    }
}

} // verus!
