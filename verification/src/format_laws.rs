//! The 8086 instruction formats, stated byte by byte in plain arithmetic:
//! what each dialect decodes from an instruction built out of its fields,
//! and that a step reads exactly the bytes of its instruction.

use vstd::prelude::*;
use crate::decode::{decode_step, listing, Dialect, Fault, Instr, Missing};

verus! {

/// The first byte `100010dw` of a register/memory `mov` carries `d` in bit 1
/// and `w` in bit 0.
proof fn lemma_reg_mem_first_byte(d: u8, w: u8)
    requires
        d < 2,
        w < 2,
    ensures
        ({
            let b = (0x88 + 2 * d + w) as u8;
            &&& b == 0x88 + 2 * d + w
            &&& b / 4 == 0b100010
            &&& b / 16 == 0b1000
            &&& (b / 2) % 2 == d
            &&& b % 2 == w
        }),
{
    let b: u8 = (0x88 + 2 * d + w) as u8;
    assert(b / 4 == 0b100010 && b / 16 == 0b1000 && (b / 2) % 2 == d && b % 2 == w) by (nonlinear_arith)
        requires
            b == 0x88 + 2 * d + w,
            d < 2,
            w < 2,
    ;
}

/// The mod-reg-r/m byte `mm rrr sss` carries `mod` in bits 7-6, `reg` in
/// bits 5-3 and `r/m` in bits 2-0.
proof fn lemma_mod_reg_rm_byte(mo: u8, reg: u8, rm: u8)
    requires
        mo < 4,
        reg < 8,
        rm < 8,
    ensures
        ({
            let m = (64 * mo + 8 * reg + rm) as u8;
            &&& m == 64 * mo + 8 * reg + rm
            &&& m / 64 == mo
            &&& (m / 8) % 8 == reg
            &&& m % 8 == rm
        }),
{
    let m: u8 = (64 * mo + 8 * reg + rm) as u8;
    assert(m / 64 == mo && (m / 8) % 8 == reg && m % 8 == rm) by (nonlinear_arith)
        requires
            m == 64 * mo + 8 * reg + rm,
            mo < 4,
            reg < 8,
            rm < 8,
    ;
}

/// A register/memory `mov` `100010dw mm rrr sss [disp]` in `Dialect::Moves`,
/// followed by any bytes `rest`: the register operand is the `reg` field
/// (bits 5-3 of the second byte), the memory operand the `r/m` field
/// (bits 2-0), the direction `d`, the width `w`, and the displacement the
/// one or two bytes after, low byte first.
pub proof fn lemma_moves_memory_operands(d: u8, w: u8, reg: u8, rm: u8, lo: u8, hi: u8, rest: Seq<u8>)
    requires
        d < 2,
        w < 2,
        reg < 8,
        rm < 8,
    ensures
        decode_step(
            Dialect::Moves,
            seq![(0x88 + 2 * d + w) as u8, (0x40 + 8 * reg + rm) as u8, lo] + rest,
            0,
        ) matches Ok((Instr::MemDisp { to_reg, wide, reg: r, rm: m, disp }, n)) && to_reg == (d
            == 1) && wide == (w == 1) && r == reg && m == rm && disp == lo && n == 3,
        decode_step(
            Dialect::Moves,
            seq![(0x88 + 2 * d + w) as u8, (0x80 + 8 * reg + rm) as u8, lo, hi] + rest,
            0,
        ) matches Ok((Instr::MemDisp { to_reg, wide, reg: r, rm: m, disp }, n)) && to_reg == (d
            == 1) && wide == (w == 1) && r == reg && m == rm && disp == lo + 256 * hi && n == 4,
        rm != 6 ==> (decode_step(
            Dialect::Moves,
            seq![(0x88 + 2 * d + w) as u8, (8 * reg + rm) as u8] + rest,
            0,
        ) matches Ok((Instr::MemNoDisp { to_reg, wide, reg: r, rm: m }, n)) && to_reg == (d == 1)
            && wide == (w == 1) && r == reg && m == rm && n == 2),
        decode_step(
            Dialect::Moves,
            seq![(0x88 + 2 * d + w) as u8, (8 * reg + 6) as u8, lo, hi] + rest,
            0,
        ) matches Ok((Instr::MemDirect { to_reg, wide, reg: r, addr }, n)) && to_reg == (d == 1)
            && wide == (w == 1) && r == reg && addr == lo + 256 * hi && n == 4,
        decode_step(
            Dialect::Moves,
            seq![(0x88 + 2 * d + w) as u8, (0xC0 + 8 * reg + rm) as u8] + rest,
            0,
        ) matches Ok((Instr::RegToReg { wide, dst, src }, n)) && wide == (w == 1) && dst == (if d
            == 1 {
            reg
        } else {
            rm
        }) && src == (if d == 1 {
            rm
        } else {
            reg
        }) && n == 2,
{
    lemma_reg_mem_first_byte(d, w);
    lemma_mod_reg_rm_byte(1, reg, rm);
    lemma_mod_reg_rm_byte(2, reg, rm);
    lemma_mod_reg_rm_byte(0, reg, rm);
    lemma_mod_reg_rm_byte(0, reg, 6);
    lemma_mod_reg_rm_byte(3, reg, rm);
    let b: u8 = (0x88 + 2 * d + w) as u8;
    let s1 = seq![b, (0x40 + 8 * reg + rm) as u8, lo] + rest;
    assert(s1[0] == b && s1[1] == (0x40 + 8 * reg + rm) as u8 && s1[2] == lo);
    let s2 = seq![b, (0x80 + 8 * reg + rm) as u8, lo, hi] + rest;
    assert(s2[0] == b && s2[1] == (0x80 + 8 * reg + rm) as u8 && s2[2] == lo && s2[3] == hi);
    let s3 = seq![b, (8 * reg + rm) as u8] + rest;
    assert(s3[0] == b && s3[1] == (8 * reg + rm) as u8);
    let s4 = seq![b, (8 * reg + 6) as u8, lo, hi] + rest;
    assert(s4[0] == b && s4[1] == (8 * reg + 6) as u8 && s4[2] == lo && s4[3] == hi);
    let s5 = seq![b, (0xC0 + 8 * reg + rm) as u8] + rest;
    assert(s5[0] == b && s5[1] == (0xC0 + 8 * reg + rm) as u8);
}

/// A register/memory `mov` `100010dw mm rrr sss` in either register-move
/// dialect, followed by any bytes: two bytes long; with `mod = 11` the
/// registers are ordered by `d` at width `w`, otherwise the raw fields are
/// kept in the same order.
pub proof fn lemma_register_moves_fields(dialect: Dialect, d: u8, w: u8, mo: u8, reg: u8, rm: u8, rest: Seq<u8>)
    requires
        dialect == Dialect::RegisterMoves || dialect == Dialect::RegisterMovesSkipUnknown,
        d < 2,
        w < 2,
        mo < 4,
        reg < 8,
        rm < 8,
    ensures
        mo == 3 ==> (decode_step(
            dialect,
            seq![(0x88 + 2 * d + w) as u8, (64 * mo + 8 * reg + rm) as u8] + rest,
            0,
        ) matches Ok((Instr::RegToReg { wide, dst, src }, n)) && wide == (w == 1) && dst == (if d
            == 1 {
            reg
        } else {
            rm
        }) && src == (if d == 1 {
            rm
        } else {
            reg
        }) && n == 2),
        mo != 3 ==> (decode_step(
            dialect,
            seq![(0x88 + 2 * d + w) as u8, (64 * mo + 8 * reg + rm) as u8] + rest,
            0,
        ) matches Ok((Instr::UnhandledMode { mode, dst, src }, n)) && mode == mo && dst == (if d
            == 1 {
            reg
        } else {
            rm
        }) && src == (if d == 1 {
            rm
        } else {
            reg
        }) && n == 2),
{
    lemma_reg_mem_first_byte(d, w);
    lemma_mod_reg_rm_byte(mo, reg, rm);
    let s = seq![(0x88 + 2 * d + w) as u8, (64 * mo + 8 * reg + rm) as u8] + rest;
    assert(s[0] == (0x88 + 2 * d + w) as u8 && s[1] == (64 * mo + 8 * reg + rm) as u8);
}

/// An immediate-to-register `mov` `1011wrrr data` in `Dialect::Moves`,
/// followed by any bytes: the register is the low three bits of the first
/// byte, the width is bit 3; a byte-wide `mov` takes one data byte and a
/// word-wide one two, low byte first.
pub proof fn lemma_moves_immediate_to_register(b: u8, lo: u8, hi: u8, rest: Seq<u8>)
    requires
        b / 16 == 0b1011,
    ensures
        (b / 8) % 2 == 0 ==> (decode_step(Dialect::Moves, seq![b, lo] + rest, 0) matches Ok(
            (Instr::ImmToReg { wide, reg, data }, n),
        ) && !wide && reg == b % 8 && data == lo && n == 2),
        (b / 8) % 2 == 1 ==> (decode_step(Dialect::Moves, seq![b, lo, hi] + rest, 0) matches Ok(
            (Instr::ImmToReg { wide, reg, data }, n),
        ) && wide && reg == b % 8 && data == lo + 256 * hi && n == 3),
{
    let s1 = seq![b, lo] + rest;
    assert(s1[0] == b && s1[1] == lo);
    let s2 = seq![b, lo, hi] + rest;
    assert(s2[0] == b && s2[1] == lo && s2[2] == hi);
}

/// In `Dialect::Moves` the immediate-to-register/memory form `1100011w`
/// and the memory-to-accumulator form `1010000w` are recognised by their
/// top seven bits alone, whatever `w` and whatever follows, and take one
/// byte; a first byte of none of the four `mov` forms stops the listing
/// with its top seven bits.
pub proof fn lemma_moves_first_byte(bytes: Seq<u8>, pos: int)
    requires
        0 <= pos < bytes.len(),
    ensures
        bytes[pos] / 2 == 0b1100011 ==> decode_step(Dialect::Moves, bytes, pos) == Ok::<
            (Instr, int),
            Fault,
        >((Instr::ImmToMem, 1)),
        bytes[pos] / 2 == 0b1010000 ==> decode_step(Dialect::Moves, bytes, pos) == Ok::<
            (Instr, int),
            Fault,
        >((Instr::MemToAcc, 1)),
        !(bytes[pos] / 16 == 0b1011 || bytes[pos] / 4 == 0b100010 || bytes[pos] / 2 == 0b1100011
            || bytes[pos] / 2 == 0b1010000) <==> decode_step(Dialect::Moves, bytes, pos) matches Err(
            Fault::UnknownOpcode { .. },
        ),
        decode_step(Dialect::Moves, bytes, pos) matches Err(Fault::UnknownOpcode { opcode, opcode_bits })
            ==> opcode == bytes[pos] / 2 && opcode_bits == 7,
{
}

/// In the register-move dialects a first byte whose top six bits are not
/// `100010` is an unknown opcode: it stops `Dialect::RegisterMoves` and is
/// listed as one byte by `Dialect::RegisterMovesSkipUnknown`.
pub proof fn lemma_register_moves_first_byte(bytes: Seq<u8>, pos: int)
    requires
        0 <= pos < bytes.len(),
        bytes[pos] / 4 != 0b100010,
    ensures
        decode_step(Dialect::RegisterMoves, bytes, pos) == Err::<(Instr, int), Fault>(
            Fault::UnknownOpcode { opcode: bytes[pos] / 4, opcode_bits: 6 },
        ),
        decode_step(Dialect::RegisterMovesSkipUnknown, bytes, pos) == Ok::<(Instr, int), Fault>(
            (Instr::Unknown { opcode: bytes[pos] / 4 }, 1),
        ),
{
}

/// A step reads no byte beyond its instruction: an instruction that ends
/// the input decodes just as it does with more bytes after it.
pub proof fn lemma_step_needs_only_its_bytes(dialect: Dialect, bytes: Seq<u8>, pos: int)
    requires
        0 <= pos < bytes.len(),
    ensures
        decode_step(dialect, bytes, pos) matches Ok((i, n)) ==> decode_step(
            dialect,
            bytes.take(pos + n),
            pos,
        ) == decode_step(dialect, bytes, pos),
{
    if let Ok((i, n)) = decode_step(dialect, bytes, pos) {
        crate::decode::lemma_step_in_bounds(dialect, bytes, pos);
        let t = bytes.take(pos + n);
        assert(t[pos] == bytes[pos]);
        if 1 < n {
            assert(t[pos + 1] == bytes[pos + 1]);
        }
        if 2 < n {
            assert(t[pos + 2] == bytes[pos + 2]);
        }
        if 3 < n {
            assert(t[pos + 3] == bytes[pos + 3]);
        }
    }
}

/// The input is reported truncated only when it really ends inside an
/// instruction: three more bytes always complete it.
pub proof fn lemma_truncated_only_when_short(dialect: Dialect, bytes: Seq<u8>, pos: int)
    requires
        0 <= pos < bytes.len(),
        decode_step(dialect, bytes, pos) matches Err(Fault::Truncated(_)),
    ensures
        pos + 4 > bytes.len(),
        decode_step(dialect, bytes + seq![0u8, 0u8, 0u8], pos) is Ok,
{
    let s = bytes + seq![0u8, 0u8, 0u8];
    assert(s[pos] == bytes[pos]);
    assert(pos + 1 < bytes.len() ==> s[pos + 1] == bytes[pos + 1]);
    assert(pos + 2 < bytes.len() ==> s[pos + 2] == bytes[pos + 2]);
}

/// Which truncation is reported, by the bytes that are there: in
/// `Dialect::Moves`, a word immediate short of its two data bytes reports
/// "2 more byte", a byte immediate or a register/memory `mov` without its
/// second byte "1 more byte", an 8-bit displacement missing "2 more bytes",
/// and a 16-bit displacement or direct address short of either byte
/// "3 more bytes"; the register-move dialects report "1 more byte" for a
/// register/memory `mov` without its second byte.
pub proof fn lemma_truncation_kinds(dialect: Dialect, bytes: Seq<u8>, pos: int)
    requires
        0 <= pos < bytes.len(),
    ensures
        ({
            let b = bytes[pos];
            let avail = bytes.len() - pos;
            &&& dialect == Dialect::Moves && b / 16 == 0b1011 && (b / 8) % 2 == 1 && avail < 3
                ==> decode_step(dialect, bytes, pos) == Err::<(Instr, int), Fault>(
                Fault::Truncated(Missing::TwoMoreByte),
            )
            &&& dialect == Dialect::Moves && b / 16 == 0b1011 && (b / 8) % 2 == 0 && avail < 2
                ==> decode_step(dialect, bytes, pos) == Err::<(Instr, int), Fault>(
                Fault::Truncated(Missing::OneMoreByte),
            )
            &&& b / 4 == 0b100010 && avail < 2 ==> decode_step(dialect, bytes, pos) == Err::<
                (Instr, int),
                Fault,
            >(Fault::Truncated(Missing::OneMoreByte))
            &&& dialect == Dialect::Moves && b / 4 == 0b100010 && avail == 2 && bytes[pos + 1] / 64 == 1
                ==> decode_step(dialect, bytes, pos) == Err::<(Instr, int), Fault>(
                Fault::Truncated(Missing::TwoMoreBytes),
            )
            &&& dialect == Dialect::Moves && b / 4 == 0b100010 && 2 <= avail < 4 && (bytes[pos + 1] / 64
                == 2 || (bytes[pos + 1] / 64 == 0 && bytes[pos + 1] % 8 == 6)) ==> decode_step(
                dialect,
                bytes,
                pos,
            ) == Err::<(Instr, int), Fault>(Fault::Truncated(Missing::ThreeMoreBytes))
        }),
{
}

/// A listing is the first step's instruction followed by the listing of
/// the bytes after it; it ends, without a fault, when the bytes run out,
/// and with the step's fault when a step fails.
pub proof fn lemma_listing_steps(dialect: Dialect, bytes: Seq<u8>)
    ensures
        bytes.len() == 0 ==> listing(dialect, bytes) == (Seq::<Instr>::empty(), None::<Fault>),
        bytes.len() > 0 ==> (decode_step(dialect, bytes, 0) matches Ok((i, n)) ==> listing(dialect, bytes) == (
            seq![i] + listing(dialect, bytes.skip(n)).0,
            listing(dialect, bytes.skip(n)).1,
        )),
        bytes.len() > 0 ==> (decode_step(dialect, bytes, 0) matches Err(f) ==> listing(dialect, bytes) == (
            Seq::<Instr>::empty(),
            Some(f),
        )),
{
    if bytes.len() > 0 {
        crate::decode::lemma_step_in_bounds(dialect, bytes, 0);
        if let Ok((i, n)) = decode_step(dialect, bytes, 0) {
            crate::laws::lemma_listing_reads_suffix(dialect, bytes, n);
        }
    }
}

} // verus!
