//! What the text of an instruction shows: the numbers in it denote the
//! instruction's fields, in the base and width the line format asks for.

use vstd::prelude::*;
use crate::decode::{Fault, Instr, Missing};
use crate::laws::{lemma_address_encoding, lemma_reg_name_width};
use crate::names::{address_equation, reg_name};
use crate::numbers::{
    all_digits, binary, decimal, digit_count, digits_value, hex2, lemma_padded_value,
    lemma_quotient_smaller, lemma_radix_digits_value, padded, radix_digits,
};
use crate::render::{fault_text, header_text, instr_text, unknown_opcode_text};

verus! {

/// `radix` to the power `k`.
pub open spec fn power(radix: nat, k: nat) -> nat
    decreases k,
{
    if k == 0 {
        1
    } else {
        radix * power(radix, (k - 1) as nat)
    }
}

/// A number below `radix` to the `k` has at most `k` digits.
pub proof fn lemma_digit_count_bound(n: nat, radix: nat, k: nat)
    requires
        2 <= radix <= 16,
        1 <= k,
        n < power(radix, k),
    ensures
        digit_count(n, radix) <= k,
    decreases k,
{
    if n >= radix {
        if k == 1 {
            assert(power(radix, 0) == 1);
            assert(power(radix, 1) == radix * power(radix, 0));
            assert(false) by (nonlinear_arith)
                requires
                    n >= radix,
                    n < power(radix, 1),
                    power(radix, 1) == radix * 1,
            ;
        } else {
            let p = power(radix, (k - 1) as nat);
            assert(power(radix, k) == radix * p);
            assert(n / radix < p) by (nonlinear_arith)
                requires
                    n < radix * p,
                    2 <= radix,
            ;
            lemma_quotient_smaller(n, radix);
            lemma_digit_count_bound(n / radix, radix, (k - 1) as nat);
            assert(digit_count(n, radix) == digit_count(n / radix, radix) + 1);
        }
    }
}

/// A number below `radix` to the `width`, padded to `width`, is exactly
/// `width` digits that denote it.
pub proof fn lemma_padded_exact(n: nat, radix: nat, width: nat)
    requires
        2 <= radix <= 16,
        1 <= width,
        n < power(radix, width),
    ensures
        padded(n, radix, width).len() == width,
        digits_value(padded(n, radix, width), radix) == n,
        all_digits(padded(n, radix, width), radix),
{
    lemma_padded_value(n, radix, width);
    lemma_digit_count_bound(n, radix, width);
    if padded(n, radix, width).len() > width {
        crate::numbers::lemma_digit_count_len(n, radix);
    }
}

/// The line of an unresolved register/memory `mov` is `mov(MM) RRR, SSS`:
/// sixteen characters whose three binary numbers, two, three and three
/// digits wide, denote the `mod` field and the two operand fields.
pub proof fn lemma_unhandled_mode_text(mode: u8, dst: u8, src: u8)
    requires
        mode < 4,
        dst < 8,
        src < 8,
    ensures
        ({
            let t = instr_text(Instr::UnhandledMode { mode, dst, src });
            &&& t.len() == 16
            &&& t.subrange(0, 4) == "mov("@
            &&& digits_value(t.subrange(4, 6), 2) == mode && all_digits(t.subrange(4, 6), 2)
            &&& t.subrange(6, 8) == ") "@
            &&& digits_value(t.subrange(8, 11), 2) == dst && all_digits(t.subrange(8, 11), 2)
            &&& t.subrange(11, 13) == ", "@
            &&& digits_value(t.subrange(13, 16), 2) == src && all_digits(t.subrange(13, 16), 2)
        }),
{
    reveal_strlit("mov(");
    reveal_strlit(") ");
    reveal_strlit(", ");
    reveal_with_fuel(power, 4);
    lemma_padded_exact(mode as nat, 2, 2);
    lemma_padded_exact(dst as nat, 2, 3);
    lemma_padded_exact(src as nat, 2, 3);
    let t = instr_text(Instr::UnhandledMode { mode, dst, src });
    assert(t.subrange(0, 4) =~= "mov("@);
    assert(t.subrange(4, 6) =~= binary(mode as nat, 2));
    assert(t.subrange(6, 8) =~= ") "@);
    assert(t.subrange(8, 11) =~= binary(dst as nat, 3));
    assert(t.subrange(11, 13) =~= ", "@);
    assert(t.subrange(13, 16) =~= binary(src as nat, 3));
}

/// The text of an unknown opcode of `bits` bits is
/// `Unknown opcode: 0b<binary> 0x<hex>`: the binary number is exactly
/// `bits` digits wide and the hexadecimal one two digits wide, and both
/// denote the opcode.
pub proof fn lemma_unknown_opcode_text(opcode: u8, bits: u8)
    requires
        bits == 6 || bits == 7,
        opcode < power(2, bits as nat),
    ensures
        ({
            let t = unknown_opcode_text(opcode, bits);
            &&& t.len() == 18 + bits + 3 + 2
            &&& t.subrange(0, 18) == "Unknown opcode: 0b"@
            &&& digits_value(t.subrange(18, 18 + bits), 2) == opcode
            &&& all_digits(t.subrange(18, 18 + bits), 2)
            &&& t.subrange(18 + bits, 21 + bits) == " 0x"@
            &&& digits_value(t.subrange(21 + bits, 23 + bits), 16) == opcode
            &&& all_digits(t.subrange(21 + bits, 23 + bits), 16)
        }),
        instr_text(Instr::Unknown { opcode }) == unknown_opcode_text(opcode, 6),
        fault_text(Fault::UnknownOpcode { opcode, opcode_bits: bits }) == unknown_opcode_text(opcode, bits),
{
    reveal_strlit("Unknown opcode: 0b");
    reveal_strlit(" 0x");
    reveal_with_fuel(power, 8);
    lemma_padded_exact(opcode as nat, 2, bits as nat);
    lemma_padded_exact(opcode as nat, 16, 2);
    let t = unknown_opcode_text(opcode, bits);
    let w = bits as int;
    assert(t.subrange(0, 18) =~= "Unknown opcode: 0b"@);
    assert(t.subrange(18, 18 + w) =~= binary(opcode as nat, bits as nat));
    assert(t.subrange(18 + w, 21 + w) =~= " 0x"@);
    assert(t.subrange(21 + w, 23 + w) =~= hex2(opcode as nat));
}

/// In the line of an immediate-to-register `mov` the number after
/// `mov NN, ` is decimal and denotes the immediate.
pub proof fn lemma_immediate_text(wide: bool, reg: u8, data: u16)
    requires
        reg < 8,
    ensures
        ({
            let t = instr_text(Instr::ImmToReg { wide, reg, data });
            &&& digits_value(t.subrange(8, t.len() as int), 10) == data
            &&& all_digits(t.subrange(8, t.len() as int), 10)
            &&& t.len() > 8
        }),
{
    reveal_strlit("mov ");
    reveal_strlit(", ");
    lemma_reg_name_width(reg, wide);
    lemma_radix_digits_value(data as nat, 10);
    let t = instr_text(Instr::ImmToReg { wide, reg, data });
    assert(t.subrange(8, t.len() as int) =~= decimal(data as nat));
}

/// In the line of a `mov` from memory into a register, the direct address
/// `[addr]` and the displacement of `[equation+disp]` are decimal and
/// denote the address and the displacement.
pub proof fn lemma_memory_number_text(wide: bool, reg: u8, rm: u8, addr: u16, disp: u16)
    requires
        reg < 8,
        rm < 8,
    ensures
        ({
            let t = instr_text(Instr::MemDirect { to_reg: true, wide, reg, addr });
            &&& t.len() > 10
            &&& t.subrange(6, 9) == ", ["@
            &&& t[t.len() - 1] == ']'
            &&& digits_value(t.subrange(9, t.len() - 1), 10) == addr
            &&& all_digits(t.subrange(9, t.len() - 1), 10)
        }),
        ({
            let t = instr_text(Instr::MemDisp { to_reg: true, wide, reg, rm, disp });
            let e: int = if rm < 4 { 5 } else { 2 };
            &&& t.len() > 11 + e
            &&& t.subrange(9, 9 + e) == address_equation(rm)
            &&& t[9 + e] == '+'
            &&& t[t.len() - 1] == ']'
            &&& digits_value(t.subrange(10 + e, t.len() - 1), 10) == disp
            &&& all_digits(t.subrange(10 + e, t.len() - 1), 10)
        }),
{
    reveal_strlit("mov ");
    reveal_strlit(", ");
    reveal_strlit("[");
    reveal_strlit("]");
    reveal_strlit("+");
    reveal_strlit(", [");
    lemma_reg_name_width(reg, wide);
    lemma_address_encoding(rm);
    lemma_radix_digits_value(addr as nat, 10);
    lemma_radix_digits_value(disp as nat, 10);
    let n = reg_name(reg, wide);
    let t = instr_text(Instr::MemDirect { to_reg: true, wide, reg, addr });
    assert(t =~= "mov "@ + n + ", "@ + ("["@ + decimal(addr as nat) + "]"@));
    assert(t.subrange(6, 9) =~= ", ["@);
    assert(t.subrange(9, t.len() - 1) =~= decimal(addr as nat));
    let eq = address_equation(rm);
    let e: int = if rm < 4 { 5 } else { 2 };
    assert(eq.len() == e);
    let u = instr_text(Instr::MemDisp { to_reg: true, wide, reg, rm, disp });
    assert(u =~= "mov "@ + n + ", "@ + ("["@ + eq + "+"@ + decimal(disp as nat) + "]"@));
    assert(u.subrange(9, 9 + e) =~= eq);
    assert(u.subrange(10 + e, u.len() - 1) =~= decimal(disp as nat));
}

/// The line of a register-to-register `mov` is `mov DD, SS`: ten
/// characters naming the destination and then the source, both at the
/// instruction's width.
pub proof fn lemma_register_move_text(wide: bool, dst: u8, src: u8)
    requires
        dst < 8,
        src < 8,
    ensures
        ({
            let t = instr_text(Instr::RegToReg { wide, dst, src });
            &&& t.len() == 10
            &&& t.subrange(0, 4) == "mov "@
            &&& t.subrange(4, 6) == reg_name(dst, wide)
            &&& t.subrange(6, 8) == ", "@
            &&& t.subrange(8, 10) == reg_name(src, wide)
        }),
{
    reveal_strlit("mov ");
    reveal_strlit(", ");
    lemma_reg_name_width(dst, wide);
    lemma_reg_name_width(src, wide);
    let t = instr_text(Instr::RegToReg { wide, dst, src });
    assert(t.subrange(0, 4) =~= "mov "@);
    assert(t.subrange(4, 6) =~= reg_name(dst, wide));
    assert(t.subrange(6, 8) =~= ", "@);
    assert(t.subrange(8, 10) =~= reg_name(src, wide));
}

/// How many more bytes a truncation reports.
pub open spec fn missing_count(m: Missing) -> nat {
    match m {
        Missing::OneMoreByte => 1,
        Missing::TwoMoreByte => 2,
        Missing::TwoMoreBytes => 2,
        Missing::ThreeMoreBytes => 3,
    }
}

/// A truncation message reads `MOV opcode expected N more byte...` with
/// the count of missing bytes as its digit `N`.
pub proof fn lemma_truncation_text(m: Missing)
    ensures
        ({
            let t = fault_text(Fault::Truncated(m));
            &&& t.len() > 21
            &&& t.subrange(0, 20) == "MOV opcode expected "@
            &&& crate::numbers::char_value(t[20]) == missing_count(m)
            &&& t[21] == ' '
        }),
{
    reveal_strlit("MOV opcode expected 1 more byte, but we reached the end of the file!");
    reveal_strlit("MOV opcode expected 2 more byte, but we reached the end of the file!");
    reveal_strlit("MOV opcode expected 2 more bytes, but we reached the end of the file!");
    reveal_strlit("MOV opcode expected 3 more bytes, but we reached the end of the file!");
    reveal_strlit("MOV opcode expected ");
    let t = fault_text(Fault::Truncated(m));
    assert(t.subrange(0, 20) =~= "MOV opcode expected "@);
}

/// A header is six lines: a ruler of `=`, the line naming the program,
/// the same ruler, an empty line, `bits 16` and an empty line.
pub proof fn lemma_header_text(program_path: Seq<char>)
    ensures
        ({
            let h = header_text(program_path);
            &&& h.len() == 6
            &&& h[0] == h[2]
            &&& h[0].len() == 74
            &&& h[0][0] == ';' && h[0][1] == ' '
            &&& forall|i: int| 2 <= i < 74 ==> #[trigger] h[0][i] == '='
            &&& h[1] == "; This file is disassembled by "@ + program_path
            &&& h[1].subrange(h[1].len() - program_path.len(), h[1].len() as int) == program_path
            &&& h[3].len() == 0 && h[5].len() == 0
            &&& h[4] == seq!['b', 'i', 't', 's', ' ', '1', '6']
        }),
{
    reveal_strlit("; ========================================================================");
    reveal_strlit("bits 16");
    reveal_strlit("");
    let h = header_text(program_path);
    assert(h[1].subrange(h[1].len() - program_path.len(), h[1].len() as int) =~= program_path);
}

} // verus!
