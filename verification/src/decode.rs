//! Decoding machine code into `mov` instructions.
//!
//! A decoder reads one instruction at a time. `decode_step` says what one
//! step reads at a position: an instruction and the number of bytes it
//! takes, or a fault that ends the listing. `listing` chains the steps from
//! the first byte to the last.

use vstd::prelude::*;
use crate::fields::{
    d_bit, d_bit_of, imm_w_bit, imm_w_bit_of, mode, mode_of, opcode4, opcode4_of, opcode6, opcode6_of,
    opcode7, opcode7_of, reg, reg_of, rm, rm_of, w_bit, w_bit_of, word, word_of, MODE_MEM_DISP16,
    MODE_MEM_DISP8, MODE_MEM_NO_DISP, MODE_REG_TO_REG, MOV_IMM_TO_MEM_OPCODE,
    MOV_IMM_TO_REG_OPCODE, MOV_MEM_TO_ACC_OPCODE, MOV_REG_MEM_OPCODE, RM_DIRECT_ADDRESS,
};

verus! {

/// One decoded instruction.
///
/// Register and `r/m` operands are three-bit fields; `wide` selects the
/// 16-bit registers; `to_reg` is the direction bit (the register operand is
/// the destination).
#[derive(Clone, Copy, Debug, PartialEq, Eq, Structural)]
pub enum Instr {
    /// `mov dst, src` between two registers.
    RegToReg { wide: bool, dst: u8, src: u8 },
    /// A register/memory `mov` whose memory forms the decoder does not
    /// resolve: the raw `mod` field and the two operand fields.
    UnhandledMode { mode: u8, dst: u8, src: u8 },
    /// `mov reg, data` with an immediate value.
    ImmToReg { wide: bool, reg: u8, data: u16 },
    /// A memory operand `[equation]` without displacement.
    MemNoDisp { to_reg: bool, wide: bool, reg: u8, rm: u8 },
    /// A memory operand at a direct address `[addr]`.
    MemDirect { to_reg: bool, wide: bool, reg: u8, addr: u16 },
    /// A memory operand `[equation+disp]`.
    MemDisp { to_reg: bool, wide: bool, reg: u8, rm: u8, disp: u16 },
    /// The immediate-to-register/memory form, not decoded further.
    ImmToMem,
    /// The memory-to-accumulator form, not decoded further.
    MemToAcc,
    /// A byte whose six-bit opcode is not a `mov`, listed and skipped.
    Unknown { opcode: u8 },
}

/// How many further bytes an instruction was expecting when the input ended.
#[derive(Clone, Copy, Debug, PartialEq, Eq, Structural)]
pub enum Missing {
    OneMoreByte,
    TwoMoreByte,
    TwoMoreBytes,
    ThreeMoreBytes,
}

/// Why decoding stopped before the end of the input.
#[derive(Clone, Copy, Debug, PartialEq, Eq, Structural)]
pub enum Fault {
    /// The input ended inside an instruction.
    Truncated(Missing),
    /// The first byte of an instruction has no known opcode; `opcode` holds
    /// its top `opcode_bits` bits.
    UnknownOpcode { opcode: u8, opcode_bits: u8 },
}

/// The instruction sets the decoders understand.
#[derive(Clone, Copy, Debug, PartialEq, Eq, Structural)]
pub enum Dialect {
    /// Register/memory `mov`s only, with register-to-register operands
    /// resolved; an unknown opcode stops the listing.
    RegisterMoves,
    /// As `RegisterMoves`, but a byte with an unknown opcode is listed as
    /// `Instr::Unknown` and decoding goes on at the next byte.
    RegisterMovesSkipUnknown,
    /// Register/memory `mov`s with every addressing mode, immediate to
    /// register, and the two further `mov` forms that are only recognised;
    /// an unknown opcode stops the listing.
    Moves,
}

/// A listing: the instructions decoded, and the fault that stopped
/// decoding, if one did.
pub struct Listing {
    pub instrs: Vec<Instr>,
    pub fault: Option<Fault>,
}

impl View for Listing {
    type V = (Seq<Instr>, Option<Fault>);

    open spec fn view(&self) -> (Seq<Instr>, Option<Fault>) {
        (self.instrs@, self.fault)
    }
}

/// The two operands of a register/memory `mov` in (destination, source)
/// order: `d` says whether `reg` is the destination.
pub open spec fn ordered_operands(d: bool, reg: u8, rm: u8) -> (u8, u8) {
    if d {
        (reg, rm)
    } else {
        (rm, reg)
    }
}

/// One step of `Dialect::RegisterMoves` at `pos`.
pub open spec fn decode_reg_move(bytes: Seq<u8>, pos: int) -> Result<(Instr, int), Fault>
    recommends
        0 <= pos < bytes.len(),
{
    let b: u8 = bytes[pos];
    if opcode6_of(b) == MOV_REG_MEM_OPCODE {
        if pos + 1 >= bytes.len() {
            Err(Fault::Truncated(Missing::OneMoreByte))
        } else {
            let m: u8 = bytes[pos + 1];
            let (dst, src) = ordered_operands(d_bit_of(b), reg_of(m), rm_of(m));
            if mode_of(m) == MODE_REG_TO_REG {
                Ok((Instr::RegToReg { wide: w_bit_of(b), dst, src }, 2))
            } else {
                Ok((Instr::UnhandledMode { mode: mode_of(m), dst, src }, 2))
            }
        }
    } else {
        Err(Fault::UnknownOpcode { opcode: opcode6_of(b), opcode_bits: 6 })
    }
}

/// The operands of a register/memory `mov` of `Dialect::Moves` whose first
/// byte `b` stands at `pos` and whose mod-reg-r/m byte is `m`.
pub open spec fn decode_reg_mem_operands(bytes: Seq<u8>, pos: int, b: u8, m: u8) -> Result<(Instr, int), Fault> {
    let to_reg: bool = d_bit_of(b);
    let wide: bool = w_bit_of(b);
    let mo: u8 = mode_of(m);
    let reg: u8 = reg_of(m);
    let rm: u8 = rm_of(m);
    if mo == MODE_MEM_DISP8 {
        if pos + 2 >= bytes.len() {
            Err(Fault::Truncated(Missing::TwoMoreBytes))
        } else {
            Ok((Instr::MemDisp { to_reg, wide, reg, rm, disp: bytes[pos + 2] as u16 }, 3))
        }
    } else if mo == MODE_MEM_DISP16 {
        if pos + 3 >= bytes.len() {
            Err(Fault::Truncated(Missing::ThreeMoreBytes))
        } else {
            Ok((Instr::MemDisp { to_reg, wide, reg, rm, disp: word_of(bytes[pos + 2], bytes[pos + 3]) }, 4))
        }
    } else if mo == MODE_MEM_NO_DISP && rm == RM_DIRECT_ADDRESS {
        if pos + 3 >= bytes.len() {
            Err(Fault::Truncated(Missing::ThreeMoreBytes))
        } else {
            Ok((Instr::MemDirect { to_reg, wide, reg, addr: word_of(bytes[pos + 2], bytes[pos + 3]) }, 4))
        }
    } else if mo == MODE_MEM_NO_DISP {
        Ok((Instr::MemNoDisp { to_reg, wide, reg, rm }, 2))
    } else {
        let (dst, src) = ordered_operands(to_reg, reg, rm);
        Ok((Instr::RegToReg { wide, dst, src }, 2))
    }
}

/// One step of `Dialect::Moves` at `pos`.
pub open spec fn decode_mov(bytes: Seq<u8>, pos: int) -> Result<(Instr, int), Fault>
    recommends
        0 <= pos < bytes.len(),
{
    let b: u8 = bytes[pos];
    if opcode4_of(b) == MOV_IMM_TO_REG_OPCODE {
        let wide: bool = imm_w_bit_of(b);
        let reg: u8 = rm_of(b);
        if wide {
            if pos + 2 >= bytes.len() {
                Err(Fault::Truncated(Missing::TwoMoreByte))
            } else {
                Ok((Instr::ImmToReg { wide, reg, data: word_of(bytes[pos + 1], bytes[pos + 2]) }, 3))
            }
        } else {
            if pos + 1 >= bytes.len() {
                Err(Fault::Truncated(Missing::OneMoreByte))
            } else {
                Ok((Instr::ImmToReg { wide, reg, data: bytes[pos + 1] as u16 }, 2))
            }
        }
    } else if opcode6_of(b) == MOV_REG_MEM_OPCODE {
        if pos + 1 >= bytes.len() {
            Err(Fault::Truncated(Missing::OneMoreByte))
        } else {
            decode_reg_mem_operands(bytes, pos, b, bytes[pos + 1])
        }
    } else if opcode7_of(b) == MOV_IMM_TO_MEM_OPCODE {
        Ok((Instr::ImmToMem, 1))
    } else if opcode7_of(b) == MOV_MEM_TO_ACC_OPCODE {
        Ok((Instr::MemToAcc, 1))
    } else {
        Err(Fault::UnknownOpcode { opcode: opcode7_of(b), opcode_bits: 7 })
    }
}

/// One step of `dialect` at `pos`: the instruction there and its length in
/// bytes, or the fault that stops the listing.
pub open spec fn decode_step(dialect: Dialect, bytes: Seq<u8>, pos: int) -> Result<(Instr, int), Fault>
    recommends
        0 <= pos < bytes.len(),
{
    match dialect {
        Dialect::RegisterMoves => decode_reg_move(bytes, pos),
        Dialect::RegisterMovesSkipUnknown => match decode_reg_move(bytes, pos) {
            Err(Fault::UnknownOpcode { opcode, opcode_bits }) => Ok((Instr::Unknown { opcode }, 1)),
            other => other,
        },
        Dialect::Moves => decode_mov(bytes, pos),
    }
}

/// Every step that decodes an instruction takes between one and four
/// bytes, all of them inside the input.
pub proof fn lemma_step_in_bounds(dialect: Dialect, bytes: Seq<u8>, pos: int)
    requires
        0 <= pos < bytes.len(),
    ensures
        decode_step(dialect, bytes, pos) matches Ok((i, n)) ==> 1 <= n <= 4 && pos + n <= bytes.len(),
{
}

/// The listing that `dialect` makes of `bytes` from `pos` on.
pub open spec fn listing_from(dialect: Dialect, bytes: Seq<u8>, pos: int) -> (Seq<Instr>, Option<Fault>)
    decreases bytes.len() - pos,
{
    if pos < 0 || pos >= bytes.len() {
        (seq![], None)
    } else {
        match decode_step(dialect, bytes, pos) {
            Ok((i, n)) => {
                proof {
                    lemma_step_in_bounds(dialect, bytes, pos);
                }
                let rest = listing_from(dialect, bytes, pos + n);
                (seq![i] + rest.0, rest.1)
            },
            Err(f) => (seq![], Some(f)),
        }
    }
}

/// The listing that `dialect` makes of `bytes`.
pub open spec fn listing(dialect: Dialect, bytes: Seq<u8>) -> (Seq<Instr>, Option<Fault>) {
    listing_from(dialect, bytes, 0)
}

/// The step result in spec terms.
pub open spec fn step_view(r: Result<(Instr, usize), Fault>) -> Result<(Instr, int), Fault> {
    match r {
        Ok((i, n)) => Ok((i, n as int)),
        Err(f) => Err(f),
    }
}

fn decode_reg_move_at(bytes: &[u8], pos: usize) -> (r: Result<(Instr, usize), Fault>)
    requires
        pos < bytes@.len(),
    ensures
        step_view(r) == decode_reg_move(bytes@, pos as int),
{
    let b: u8 = bytes[pos];
    if opcode6(b) == MOV_REG_MEM_OPCODE {
        if bytes.len() - pos <= 1 {
            return Err(Fault::Truncated(Missing::OneMoreByte));
        }
        let m: u8 = bytes[pos + 1];
        let d: bool = d_bit(b);
        let r: u8 = reg(m);
        let x: u8 = rm(m);
        let dst: u8 = if d { r } else { x };
        let src: u8 = if d { x } else { r };
        let mo: u8 = mode(m);
        if mo == MODE_REG_TO_REG {
            Ok((Instr::RegToReg { wide: w_bit(b), dst, src }, 2))
        } else {
            Ok((Instr::UnhandledMode { mode: mo, dst, src }, 2))
        }
    } else {
        Err(Fault::UnknownOpcode { opcode: opcode6(b), opcode_bits: 6 })
    }
}

fn decode_reg_mem_operands_at(bytes: &[u8], pos: usize, b: u8, m: u8) -> (r: Result<(Instr, usize), Fault>)
    requires
        pos + 1 < bytes@.len(),
    ensures
        step_view(r) == decode_reg_mem_operands(bytes@, pos as int, b, m),
{
    let to_reg: bool = d_bit(b);
    let wide: bool = w_bit(b);
    let mo: u8 = mode(m);
    let r: u8 = reg(m);
    let x: u8 = rm(m);
    if mo == MODE_MEM_DISP8 {
        if bytes.len() - pos <= 2 {
            return Err(Fault::Truncated(Missing::TwoMoreBytes));
        }
        let disp: u16 = bytes[pos + 2] as u16;
        Ok((Instr::MemDisp { to_reg, wide, reg: r, rm: x, disp }, 3))
    } else if mo == MODE_MEM_DISP16 || (mo == MODE_MEM_NO_DISP && x == RM_DIRECT_ADDRESS) {
        if bytes.len() - pos <= 3 {
            return Err(Fault::Truncated(Missing::ThreeMoreBytes));
        }
        let value: u16 = word(bytes[pos + 2], bytes[pos + 3]);
        if mo == MODE_MEM_DISP16 {
            Ok((Instr::MemDisp { to_reg, wide, reg: r, rm: x, disp: value }, 4))
        } else {
            Ok((Instr::MemDirect { to_reg, wide, reg: r, addr: value }, 4))
        }
    } else if mo == MODE_MEM_NO_DISP {
        Ok((Instr::MemNoDisp { to_reg, wide, reg: r, rm: x }, 2))
    } else {
        let dst: u8 = if to_reg { r } else { x };
        let src: u8 = if to_reg { x } else { r };
        Ok((Instr::RegToReg { wide, dst, src }, 2))
    }
}

fn decode_mov_at(bytes: &[u8], pos: usize) -> (r: Result<(Instr, usize), Fault>)
    requires
        pos < bytes@.len(),
    ensures
        step_view(r) == decode_mov(bytes@, pos as int),
{
    let b: u8 = bytes[pos];
    if opcode4(b) == MOV_IMM_TO_REG_OPCODE {
        let wide: bool = imm_w_bit(b);
        let r: u8 = rm(b);
        if wide {
            if bytes.len() - pos <= 2 {
                return Err(Fault::Truncated(Missing::TwoMoreByte));
            }
            let data: u16 = word(bytes[pos + 1], bytes[pos + 2]);
            Ok((Instr::ImmToReg { wide, reg: r, data }, 3))
        } else {
            if bytes.len() - pos <= 1 {
                return Err(Fault::Truncated(Missing::OneMoreByte));
            }
            let data: u16 = bytes[pos + 1] as u16;
            Ok((Instr::ImmToReg { wide, reg: r, data }, 2))
        }
    } else if opcode6(b) == MOV_REG_MEM_OPCODE {
        if bytes.len() - pos <= 1 {
            return Err(Fault::Truncated(Missing::OneMoreByte));
        }
        decode_reg_mem_operands_at(bytes, pos, b, bytes[pos + 1])
    } else if opcode7(b) == MOV_IMM_TO_MEM_OPCODE {
        Ok((Instr::ImmToMem, 1))
    } else if opcode7(b) == MOV_MEM_TO_ACC_OPCODE {
        Ok((Instr::MemToAcc, 1))
    } else {
        Err(Fault::UnknownOpcode { opcode: opcode7(b), opcode_bits: 7 })
    }
}

/// Decodes the instruction of `dialect` that starts at `pos`.
pub fn decode_at(dialect: Dialect, bytes: &[u8], pos: usize) -> (r: Result<(Instr, usize), Fault>)
    requires
        pos < bytes@.len(),
    ensures
        step_view(r) == decode_step(dialect, bytes@, pos as int),
        r matches Ok((i, n)) ==> 1 <= n <= 4 && pos + n <= bytes@.len(),
{
    proof {
        lemma_step_in_bounds(dialect, bytes@, pos as int);
    }
    match dialect {
        Dialect::RegisterMoves => decode_reg_move_at(bytes, pos),
        Dialect::RegisterMovesSkipUnknown => match decode_reg_move_at(bytes, pos) {
            Err(Fault::UnknownOpcode { opcode, opcode_bits }) => Ok((Instr::Unknown { opcode }, 1)),
            other => other,
        },
        Dialect::Moves => decode_mov_at(bytes, pos),
    }
}

/// Disassembles `bytes` in `dialect`: the instructions in order, up to
/// the end of the input or to the first fault.
pub fn disassemble(dialect: Dialect, bytes: &[u8]) -> (out: Listing)
    ensures
        out@ == listing(dialect, bytes@),
{
    let mut instrs: Vec<Instr> = Vec::new();
    let mut pos: usize = 0;
    while pos < bytes.len()
        invariant
            pos <= bytes@.len(),
            instrs@ + listing_from(dialect, bytes@, pos as int).0 == listing(dialect, bytes@).0,
            listing_from(dialect, bytes@, pos as int).1 == listing(dialect, bytes@).1,
        decreases bytes@.len() - pos,
    {
        match decode_at(dialect, bytes, pos) {
            Ok((i, n)) => {
                let ghost before = instrs@;
                instrs.push(i);
                assert(instrs@ + listing_from(dialect, bytes@, (pos + n) as int).0 =~= before
                    + listing_from(dialect, bytes@, pos as int).0);
                pos = pos + n;
            },
            Err(f) => {
                assert(instrs@ =~= instrs@ + listing_from(dialect, bytes@, pos as int).0);
                return Listing { instrs, fault: Some(f) };
            },
        }
    }
    assert(instrs@ =~= instrs@ + listing_from(dialect, bytes@, pos as int).0);
    Listing { instrs, fault: None }
}

} // verus!
