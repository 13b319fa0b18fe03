//! Properties that hold across the decoders and across calls.

use vstd::prelude::*;
use crate::decode::{decode_step, listing, listing_from, lemma_step_in_bounds, Dialect, Fault, Instr};
use crate::names::{address_equation, reg_name};
use crate::numbers::decimal;
use crate::render::instr_text;
use crate::fields::{mode_of, opcode6_of, MODE_REG_TO_REG, MOV_REG_MEM_OPCODE};

verus! {

/// The direction bit only says which field is the destination: a
/// register-to-register `mov` with `d = 1` and operands `reg = r`,
/// `r/m = m` decodes, in every dialect, to the same instruction as the one
/// with `d = 0`, `reg = m`, `r/m = r`; namely `mov r, m`.
pub proof fn lemma_direction_bit_symmetry(dialect: Dialect, w: u8, r: u8, m: u8)
    requires
        w < 2,
        r < 8,
        m < 8,
    ensures
        decode_step(dialect, seq![(0x8A + w) as u8, (0xC0 + 8 * r + m) as u8], 0)
            == decode_step(dialect, seq![(0x88 + w) as u8, (0xC0 + 8 * m + r) as u8], 0),
        decode_step(dialect, seq![(0x8A + w) as u8, (0xC0 + 8 * r + m) as u8], 0)
            == Ok::<(Instr, int), Fault>((Instr::RegToReg { wide: w == 1, dst: r, src: m }, 2)),
{
    let first_d: u8 = (0x8A + w) as u8;
    let first: u8 = (0x88 + w) as u8;
    let modrm_d: u8 = (0xC0 + 8 * r + m) as u8;
    let modrm: u8 = (0xC0 + 8 * m + r) as u8;
    assert(first_d / 4 == 34 && first / 4 == 34 && first_d / 16 == 8 && first / 16 == 8);
    assert((first_d / 2) % 2 == 1 && (first / 2) % 2 == 0);
    assert(first_d % 2 == w && first % 2 == w);
    assert(modrm_d / 64 == 3 && (modrm_d / 8) % 8 == r && modrm_d % 8 == m) by (nonlinear_arith)
        requires
            modrm_d == 0xC0 + 8 * r + m,
            r < 8,
            m < 8,
    ;
    assert(modrm / 64 == 3 && (modrm / 8) % 8 == m && modrm % 8 == r) by (nonlinear_arith)
        requires
            modrm == 0xC0 + 8 * m + r,
            r < 8,
            m < 8,
    ;
}

/// On a register-to-register `mov`, all three dialects decode the same
/// instruction of the same length.
pub proof fn lemma_dialects_agree_on_register_moves(bytes: Seq<u8>, pos: int)
    requires
        0 <= pos,
        pos + 1 < bytes.len(),
        opcode6_of(bytes[pos]) == MOV_REG_MEM_OPCODE,
        mode_of(bytes[pos + 1]) == MODE_REG_TO_REG,
    ensures
        decode_step(Dialect::RegisterMoves, bytes, pos) == decode_step(Dialect::Moves, bytes, pos),
        decode_step(Dialect::RegisterMovesSkipUnknown, bytes, pos) == decode_step(
            Dialect::Moves,
            bytes,
            pos,
        ),
        decode_step(Dialect::Moves, bytes, pos) matches Ok((Instr::RegToReg { .. }, n)) && n == 2,
{
}

/// A step reads only the bytes from its position on.
pub proof fn lemma_step_reads_suffix(dialect: Dialect, bytes: Seq<u8>, pos: int)
    requires
        0 <= pos < bytes.len(),
    ensures
        decode_step(dialect, bytes, pos) == decode_step(dialect, bytes.skip(pos), 0),
{
    let s = bytes.skip(pos);
    assert(s[0] == bytes[pos]);
    if pos + 1 < bytes.len() {
        assert(s[1] == bytes[pos + 1]);
    }
    if pos + 2 < bytes.len() {
        assert(s[2] == bytes[pos + 2]);
    }
    if pos + 3 < bytes.len() {
        assert(s[3] == bytes[pos + 3]);
    }
}

/// A step that decodes an instruction, or finds an unknown opcode, reads
/// nothing beyond that instruction: appending bytes leaves it unchanged.
pub proof fn lemma_step_reads_only_its_bytes(dialect: Dialect, a: Seq<u8>, b: Seq<u8>, pos: int)
    requires
        0 <= pos < a.len(),
        !(decode_step(dialect, a, pos) matches Err(Fault::Truncated(_))),
    ensures
        decode_step(dialect, a + b, pos) == decode_step(dialect, a, pos),
{
    let s = a + b;
    assert(s[pos] == a[pos]);
    if pos + 1 < a.len() {
        assert(s[pos + 1] == a[pos + 1]);
    }
    if pos + 2 < a.len() {
        assert(s[pos + 2] == a[pos + 2]);
    }
    if pos + 3 < a.len() {
        assert(s[pos + 3] == a[pos + 3]);
    }
}

/// The listing from a position is the listing of the bytes from there on.
pub proof fn lemma_listing_reads_suffix(dialect: Dialect, bytes: Seq<u8>, pos: int)
    requires
        0 <= pos <= bytes.len(),
    ensures
        listing_from(dialect, bytes, pos) == listing(dialect, bytes.skip(pos)),
    decreases bytes.len() - pos,
{
    let s = bytes.skip(pos);
    if pos < bytes.len() {
        lemma_step_reads_suffix(dialect, bytes, pos);
        lemma_step_in_bounds(dialect, bytes, pos);
        if let Ok((i, n)) = decode_step(dialect, bytes, pos) {
            lemma_listing_reads_suffix(dialect, bytes, pos + n);
            lemma_listing_reads_suffix(dialect, s, n);
            assert(s.skip(n) =~= bytes.skip(pos + n));
        }
    }
}

/// The listing of `a` from `pos`, when it ends without a fault, is followed
/// in the listing of `a + b` by the listing of `b`.
proof fn lemma_listing_from_concat(dialect: Dialect, a: Seq<u8>, b: Seq<u8>, pos: int)
    requires
        0 <= pos <= a.len(),
        listing_from(dialect, a, pos).1 is None,
    ensures
        listing_from(dialect, a + b, pos) == (
            listing_from(dialect, a, pos).0 + listing(dialect, b).0,
            listing(dialect, b).1,
        ),
    decreases a.len() - pos,
{
    if pos == a.len() {
        lemma_listing_reads_suffix(dialect, a + b, pos);
        assert((a + b).skip(pos) =~= b);
        assert(listing_from(dialect, a, pos).0 + listing(dialect, b).0 =~= listing(dialect, b).0);
    } else {
        lemma_step_in_bounds(dialect, a, pos);
        lemma_step_reads_only_its_bytes(dialect, a, b, pos);
        if let Ok((i, n)) = decode_step(dialect, a, pos) {
            lemma_listing_from_concat(dialect, a, b, pos + n);
            assert(seq![i] + listing_from(dialect, a, pos + n).0 + listing(dialect, b).0 =~= seq![i]
                + (listing_from(dialect, a, pos + n).0 + listing(dialect, b).0));
        }
    }
}

/// Disassembly is compositional: when `a` disassembles to the end without
/// a fault, the listing of `a` followed by `b` is the instructions of `a`
/// followed by the listing of `b`.
pub proof fn lemma_listing_concat(dialect: Dialect, a: Seq<u8>, b: Seq<u8>)
    requires
        listing(dialect, a).1 is None,
    ensures
        listing(dialect, a + b) == (listing(dialect, a).0 + listing(dialect, b).0, listing(dialect, b).1),
{
    lemma_listing_from_concat(dialect, a, b, 0);
}

proof fn lemma_skip_unknown_from(bytes: Seq<u8>, pos: int)
    requires
        0 <= pos <= bytes.len(),
    ensures
        listing_from(Dialect::RegisterMoves, bytes, pos).0.len() <= listing_from(
            Dialect::RegisterMovesSkipUnknown,
            bytes,
            pos,
        ).0.len(),
        listing_from(Dialect::RegisterMovesSkipUnknown, bytes, pos).0.take(
            listing_from(Dialect::RegisterMoves, bytes, pos).0.len() as int,
        ) == listing_from(Dialect::RegisterMoves, bytes, pos).0,
        !(listing_from(Dialect::RegisterMoves, bytes, pos).1 matches Some(Fault::UnknownOpcode { .. }))
            ==> listing_from(Dialect::RegisterMovesSkipUnknown, bytes, pos) == listing_from(
            Dialect::RegisterMoves,
            bytes,
            pos,
        ),
    decreases bytes.len() - pos,
{
    let strict = listing_from(Dialect::RegisterMoves, bytes, pos);
    let lenient = listing_from(Dialect::RegisterMovesSkipUnknown, bytes, pos);
    if pos < bytes.len() {
        lemma_step_in_bounds(Dialect::RegisterMoves, bytes, pos);
        lemma_step_in_bounds(Dialect::RegisterMovesSkipUnknown, bytes, pos);
        match decode_step(Dialect::RegisterMoves, bytes, pos) {
            Ok((i, n)) => {
                lemma_skip_unknown_from(bytes, pos + n);
                let s2 = listing_from(Dialect::RegisterMoves, bytes, pos + n);
                let l2 = listing_from(Dialect::RegisterMovesSkipUnknown, bytes, pos + n);
                assert(lenient.0.take(strict.0.len() as int) =~= seq![i] + l2.0.take(
                    s2.0.len() as int,
                ));
            },
            Err(f) => {
                assert(lenient.0.take(0) =~= strict.0);
            },
        }
    } else {
        assert(lenient.0.take(0) =~= strict.0);
    }
}

/// Skipping unknown opcodes only lengthens a listing: the listing of
/// `Dialect::RegisterMoves` is a prefix of that of
/// `Dialect::RegisterMovesSkipUnknown`, and the two are equal unless the
/// first stopped at an unknown opcode.
pub proof fn lemma_skip_unknown_extends(bytes: Seq<u8>)
    ensures
        listing(Dialect::RegisterMovesSkipUnknown, bytes).0.take(
            listing(Dialect::RegisterMoves, bytes).0.len() as int,
        ) == listing(Dialect::RegisterMoves, bytes).0,
        !(listing(Dialect::RegisterMoves, bytes).1 matches Some(Fault::UnknownOpcode { .. }))
            ==> listing(Dialect::RegisterMovesSkipUnknown, bytes) == listing(Dialect::RegisterMoves, bytes),
{
    lemma_skip_unknown_from(bytes, 0);
}

proof fn reveal_register_names()
    ensures
        "ax"@ == seq!['a', 'x'],
        "al"@ == seq!['a', 'l'],
        "cx"@ == seq!['c', 'x'],
        "cl"@ == seq!['c', 'l'],
        "dx"@ == seq!['d', 'x'],
        "dl"@ == seq!['d', 'l'],
        "bx"@ == seq!['b', 'x'],
        "bl"@ == seq!['b', 'l'],
        "sp"@ == seq!['s', 'p'],
        "ah"@ == seq!['a', 'h'],
        "bp"@ == seq!['b', 'p'],
        "ch"@ == seq!['c', 'h'],
        "si"@ == seq!['s', 'i'],
        "dh"@ == seq!['d', 'h'],
        "di"@ == seq!['d', 'i'],
        "bh"@ == seq!['b', 'h'],
        "??"@ == seq!['?', '?'],
{
    reveal_strlit("ax");
    reveal_strlit("al");
    reveal_strlit("cx");
    reveal_strlit("cl");
    reveal_strlit("dx");
    reveal_strlit("dl");
    reveal_strlit("bx");
    reveal_strlit("bl");
    reveal_strlit("sp");
    reveal_strlit("ah");
    reveal_strlit("bp");
    reveal_strlit("ch");
    reveal_strlit("si");
    reveal_strlit("dh");
    reveal_strlit("di");
    reveal_strlit("bh");
    reveal_strlit("??");
}

/// Every three-bit register field names a two-letter register, and only a
/// value outside the field's range gives `"??"`.
pub proof fn lemma_reg_name_total(reg: u8, wide: bool)
    ensures
        reg_name(reg, wide).len() == 2,
        reg_name(reg, wide) == "??"@ <==> reg >= 8,
{
    reveal_register_names();
}

/// Register names are unambiguous: two register fields with the same name
/// are the same field at the same width.
pub proof fn lemma_reg_name_injective(r1: u8, w1: bool, r2: u8, w2: bool)
    requires
        r1 < 8,
        r2 < 8,
        reg_name(r1, w1) == reg_name(r2, w2),
    ensures
        r1 == r2,
        w1 == w2,
{
    reveal_register_names();
    assert(reg_name(r1, w1)[0] == reg_name(r2, w2)[0]);
    assert(reg_name(r1, w1)[1] == reg_name(r2, w2)[1]);
}

/// Every three-bit `r/m` field names an equation, and only a value outside
/// the field's range gives `"??"`.
pub proof fn lemma_address_equation_total(rm: u8)
    ensures
        address_equation(rm) == "??"@ <==> rm >= 8,
{
    reveal_strlit("bx+si");
    reveal_strlit("bx+di");
    reveal_strlit("bp+si");
    reveal_strlit("bp+di");
    reveal_strlit("si");
    reveal_strlit("di");
    reveal_strlit("bp");
    reveal_strlit("bx");
    reveal_strlit("??");
    if rm < 8 {
        assert(address_equation(rm)[0] != '?');
    }
}

/// The fields of an instruction fit their bit widths: registers and `r/m`
/// fields in three bits, `mod` in two and a listed unknown opcode in six.
pub open spec fn instr_well_formed(i: Instr) -> bool {
    match i {
        Instr::RegToReg { wide, dst, src } => dst < 8 && src < 8,
        Instr::UnhandledMode { mode, dst, src } => mode < 4 && dst < 8 && src < 8,
        Instr::ImmToReg { wide, reg, data } => reg < 8,
        Instr::MemNoDisp { to_reg, wide, reg, rm } => reg < 8 && rm < 8,
        Instr::MemDirect { to_reg, wide, reg, addr } => reg < 8,
        Instr::MemDisp { to_reg, wide, reg, rm, disp } => reg < 8 && rm < 8,
        Instr::ImmToMem => true,
        Instr::MemToAcc => true,
        Instr::Unknown { opcode } => opcode < 64,
    }
}

/// Every instruction a step decodes is well formed, so its text never
/// shows the `"??"` of an out-of-range field.
pub proof fn lemma_step_well_formed(dialect: Dialect, bytes: Seq<u8>, pos: int)
    requires
        0 <= pos < bytes.len(),
    ensures
        decode_step(dialect, bytes, pos) matches Ok((i, n)) ==> instr_well_formed(i),
{
}

/// Every instruction of every listing is well formed.
pub proof fn lemma_listing_well_formed(dialect: Dialect, bytes: Seq<u8>, pos: int)
    requires
        0 <= pos,
    ensures
        forall|k: int|
            0 <= k < listing_from(dialect, bytes, pos).0.len() ==> instr_well_formed(
                #[trigger] listing_from(dialect, bytes, pos).0[k],
            ),
    decreases bytes.len() - pos,
{
    if pos < bytes.len() {
        lemma_step_in_bounds(dialect, bytes, pos);
        lemma_step_well_formed(dialect, bytes, pos);
        if let Ok((i, n)) = decode_step(dialect, bytes, pos) {
            lemma_listing_well_formed(dialect, bytes, pos + n);
            let rest = listing_from(dialect, bytes, pos + n).0;
            assert forall|k: int| 0 <= k < listing_from(dialect, bytes, pos).0.len() implies instr_well_formed(
                #[trigger] listing_from(dialect, bytes, pos).0[k],
            ) by {
                if k > 0 {
                    assert(listing_from(dialect, bytes, pos).0[k] == rest[k - 1]);
                }
            }
        }
    }
}

/// The width bit decides the kind of name: an 8-bit register name ends in
/// `l` or `h`, a 16-bit one in `x`, `p` or `i`; so no name is both.
pub proof fn lemma_reg_name_width(reg: u8, wide: bool)
    requires
        reg < 8,
    ensures
        reg_name(reg, wide).len() == 2,
        !wide ==> reg_name(reg, wide)[1] == 'l' || reg_name(reg, wide)[1] == 'h',
        wide ==> reg_name(reg, wide)[1] == 'x' || reg_name(reg, wide)[1] == 'p' || reg_name(reg, wide)[1] == 'i',
        reg_name(reg, false) != reg_name(reg, true),
{
    reveal_register_names();
    assert(reg_name(reg, false)[1] != reg_name(reg, true)[1]);
}

/// Every line that moves a value into or out of a register names that
/// register at the instruction's own width, in the same way a
/// register-to-register `mov` names it: the line starts with `mov ` and
/// the name, and the name's last letter shows the width (`l`/`h` for
/// bytes, `x`/`p`/`i` for words).
pub proof fn lemma_text_names_register_at_width(wide: bool, reg: u8, rm: u8, addr: u16, disp: u16, data: u16)
    requires
        reg < 8,
    ensures
        instr_text(Instr::RegToReg { wide, dst: reg, src: rm }).subrange(0, 6) == "mov "@ + reg_name(reg, wide),
        instr_text(Instr::ImmToReg { wide, reg, data }) == "mov "@ + reg_name(reg, wide) + ", "@ + decimal(data as nat),
        instr_text(Instr::MemNoDisp { to_reg: true, wide, reg, rm }) == "mov "@ + reg_name(reg, wide) + ", "@
            + ("["@ + address_equation(rm) + "]"@),
        instr_text(Instr::MemDirect { to_reg: true, wide, reg, addr }) == "mov "@ + reg_name(reg, wide) + ", "@
            + ("["@ + decimal(addr as nat) + "]"@),
        instr_text(Instr::MemDisp { to_reg: true, wide, reg, rm, disp }) == "mov "@ + reg_name(reg, wide) + ", "@
            + ("["@ + address_equation(rm) + "+"@ + decimal(disp as nat) + "]"@),
        instr_text(Instr::MemNoDisp { to_reg: false, wide, reg, rm }) == "mov "@ + ("["@ + address_equation(rm)
            + "]"@) + ", "@ + reg_name(reg, wide),
        instr_text(Instr::MemDirect { to_reg: false, wide, reg, addr }) == "mov "@ + ("["@ + decimal(addr as nat)
            + "]"@) + ", "@ + reg_name(reg, wide),
        instr_text(Instr::MemDisp { to_reg: false, wide, reg, rm, disp }) == "mov "@ + ("["@ + address_equation(rm)
            + "+"@ + decimal(disp as nat) + "]"@) + ", "@ + reg_name(reg, wide),
        ({
            let t = instr_text(Instr::MemDirect { to_reg: true, wide, reg, addr });
            &&& t.subrange(0, 6) == "mov "@ + reg_name(reg, wide)
            &&& !wide ==> (t[5] == 'l' || t[5] == 'h')
            &&& wide ==> (t[5] == 'x' || t[5] == 'p' || t[5] == 'i')
        }),
        ({
            let t = instr_text(Instr::MemDisp { to_reg: true, wide, reg, rm, disp });
            &&& t.subrange(0, 6) == "mov "@ + reg_name(reg, wide)
            &&& !wide ==> (t[5] == 'l' || t[5] == 'h')
            &&& wide ==> (t[5] == 'x' || t[5] == 'p' || t[5] == 'i')
        }),
        ({
            let t = instr_text(Instr::MemNoDisp { to_reg: true, wide, reg, rm });
            &&& t.subrange(0, 6) == "mov "@ + reg_name(reg, wide)
            &&& !wide ==> (t[5] == 'l' || t[5] == 'h')
            &&& wide ==> (t[5] == 'x' || t[5] == 'p' || t[5] == 'i')
        }),
        ({
            let t = instr_text(Instr::ImmToReg { wide, reg, data });
            &&& t.subrange(0, 6) == "mov "@ + reg_name(reg, wide)
            &&& !wide ==> (t[5] == 'l' || t[5] == 'h')
            &&& wide ==> (t[5] == 'x' || t[5] == 'p' || t[5] == 'i')
        }),
{
    reveal_strlit("mov ");
    lemma_reg_name_width(reg, wide);
    let n = reg_name(reg, wide);
    let head = "mov "@ + n;
    assert(head.len() == 6);
    let t1 = instr_text(Instr::RegToReg { wide, dst: reg, src: rm });
    assert(t1.subrange(0, 6) =~= head);
    let t2 = instr_text(Instr::MemDirect { to_reg: true, wide, reg, addr });
    assert(t2.subrange(0, 6) =~= head);
    assert(t2[5] == n[1]);
    let t3 = instr_text(Instr::MemDisp { to_reg: true, wide, reg, rm, disp });
    assert(t3.subrange(0, 6) =~= head);
    assert(t3[5] == n[1]);
    let t4 = instr_text(Instr::MemNoDisp { to_reg: true, wide, reg, rm });
    assert(t4.subrange(0, 6) =~= head);
    assert(t4[5] == n[1]);
    let t5 = instr_text(Instr::ImmToReg { wide, reg, data });
    assert(t5.subrange(0, 6) =~= head);
    assert(t5[5] == n[1]);
}

/// The first letter of the general registers `ax`, `cx`, `dx`, `bx`.
pub open spec fn general_register_letter(r: u8) -> char {
    if r == 0 {
        'a'
    } else if r == 1 {
        'c'
    } else if r == 2 {
        'd'
    } else {
        'b'
    }
}

/// The register encoding: fields 0-3 are the general registers
/// `a`, `c`, `d`, `b`, named `?x` as words and `?l` (low byte) as bytes;
/// as bytes, fields 4-7 are the high bytes `?h` of the same four registers;
/// as words, fields 4-7 are `sp`, `bp`, `si`, `di`.
pub proof fn lemma_register_encoding(r: u8)
    requires
        r < 4,
    ensures
        reg_name(r, true) == seq![general_register_letter(r), 'x'],
        reg_name(r, false) == seq![general_register_letter(r), 'l'],
        reg_name((r + 4) as u8, false) == seq![general_register_letter(r), 'h'],
        reg_name((r + 4) as u8, true) == (if r == 0 {
            seq!['s', 'p']
        } else if r == 1 {
            seq!['b', 'p']
        } else if r == 2 {
            seq!['s', 'i']
        } else {
            seq!['d', 'i']
        }),
{
    reveal_register_names();
}

/// The address encoding: `r/m` 0-3 add a base register (`bx` for 0-1,
/// `bp` for 2-3) and an index register (`si` for even, `di` for odd
/// fields); 4 to 7 are `si`, `di`, `bp` and `bx` alone.
pub proof fn lemma_address_encoding(rm: u8)
    requires
        rm < 8,
    ensures
        rm < 4 ==> address_equation(rm) == seq![
            'b',
            if rm < 2 { 'x' } else { 'p' },
            '+',
            if rm % 2 == 0 { 's' } else { 'd' },
            'i',
        ],
        address_equation(4) == seq!['s', 'i'],
        address_equation(5) == seq!['d', 'i'],
        address_equation(6) == seq!['b', 'p'],
        address_equation(7) == seq!['b', 'x'],
{
    reveal_strlit("bx+si");
    reveal_strlit("bx+di");
    reveal_strlit("bp+si");
    reveal_strlit("bp+di");
    reveal_strlit("si");
    reveal_strlit("di");
    reveal_strlit("bp");
    reveal_strlit("bx");
}

} // verus!
