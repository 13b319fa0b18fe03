//! Assembly text of decoded instructions, of faults, and of the header of
//! a listing.

use vstd::prelude::*;
use crate::decode::{Fault, Instr, Missing};
use crate::names::{address_equation, get_effective_address_equation_str, get_reg_name, reg_name};
use crate::numbers::{binary, decimal, hex2, push_digits, push_padded};

verus! {

/// A `mov` between the register named `reg` and the memory operand `mem`
/// (brackets included): into the register when `to_reg`, else into memory.
pub open spec fn memory_move(to_reg: bool, reg: Seq<char>, mem: Seq<char>) -> Seq<char> {
    if to_reg {
        "mov "@ + reg + ", "@ + mem
    } else {
        "mov "@ + mem + ", "@ + reg
    }
}

/// The text of an unknown six- or seven-bit opcode.
pub open spec fn unknown_opcode_text(opcode: u8, opcode_bits: u8) -> Seq<char> {
    "Unknown opcode: 0b"@ + binary(opcode as nat, opcode_bits as nat) + " 0x"@ + hex2(opcode as nat)
}

/// The line of assembly that stands for `i`.
pub open spec fn instr_text(i: Instr) -> Seq<char> {
    match i {
        Instr::RegToReg { wide, dst, src } => "mov "@ + reg_name(dst, wide) + ", "@ + reg_name(src, wide),
        Instr::UnhandledMode { mode, dst, src } => "mov("@ + binary(mode as nat, 2) + ") "@ + binary(
            dst as nat,
            3,
        ) + ", "@ + binary(src as nat, 3),
        Instr::ImmToReg { wide, reg, data } => "mov "@ + reg_name(reg, wide) + ", "@ + decimal(
            data as nat,
        ),
        Instr::MemNoDisp { to_reg, wide, reg, rm } => memory_move(
            to_reg,
            reg_name(reg, wide),
            "["@ + address_equation(rm) + "]"@,
        ),
        Instr::MemDirect { to_reg, wide, reg, addr } => memory_move(
            to_reg,
            reg_name(reg, wide),
            "["@ + decimal(addr as nat) + "]"@,
        ),
        Instr::MemDisp { to_reg, wide, reg, rm, disp } => memory_move(
            to_reg,
            reg_name(reg, wide),
            "["@ + address_equation(rm) + "+"@ + decimal(disp as nat) + "]"@,
        ),
        Instr::ImmToMem => "mov immediate to memory..."@,
        Instr::MemToAcc => "mov memory to accumulator..."@,
        Instr::Unknown { opcode } => unknown_opcode_text(opcode, 6),
    }
}

/// The message that reports `f`.
pub open spec fn fault_text(f: Fault) -> Seq<char> {
    match f {
        Fault::Truncated(Missing::OneMoreByte) =>
            "MOV opcode expected 1 more byte, but we reached the end of the file!"@,
        Fault::Truncated(Missing::TwoMoreByte) =>
            "MOV opcode expected 2 more byte, but we reached the end of the file!"@,
        Fault::Truncated(Missing::TwoMoreBytes) =>
            "MOV opcode expected 2 more bytes, but we reached the end of the file!"@,
        Fault::Truncated(Missing::ThreeMoreBytes) =>
            "MOV opcode expected 3 more bytes, but we reached the end of the file!"@,
        Fault::UnknownOpcode { opcode, opcode_bits } => unknown_opcode_text(opcode, opcode_bits),
    }
}

/// The ruler line of the header.
pub open spec fn ruler() -> Seq<char> {
    "; ========================================================================"@
}

/// The lines that open a listing disassembled by the program at `program_path`.
pub open spec fn header_text(program_path: Seq<char>) -> Seq<Seq<char>> {
    seq![
        ruler(),
        "; This file is disassembled by "@ + program_path,
        ruler(),
        ""@,
        "bits 16"@,
        ""@,
    ]
}

fn push_unknown_opcode(out: &mut String, opcode: u8, opcode_bits: u8)
    ensures
        final(out)@ == old(out)@ + unknown_opcode_text(opcode, opcode_bits),
{
    out.append("Unknown opcode: 0b");
    push_padded(out, opcode as u16, 2, opcode_bits as u32);
    out.append(" 0x");
    push_padded(out, opcode as u16, 16, 2);
    assert(out@ =~= old(out)@ + unknown_opcode_text(opcode, opcode_bits));
}

fn push_memory_move(out: &mut String, to_reg: bool, reg: &str, mem: &str)
    ensures
        final(out)@ == old(out)@ + memory_move(to_reg, reg@, mem@),
{
    out.append("mov ");
    if to_reg {
        out.append(reg);
        out.append(", ");
        out.append(mem);
    } else {
        out.append(mem);
        out.append(", ");
        out.append(reg);
    }
    assert(out@ =~= old(out)@ + memory_move(to_reg, reg@, mem@));
}

/// Renders `i` as one line of assembly.
pub fn render_instr(i: &Instr) -> (text: String)
    ensures
        text@ == instr_text(*i),
{
    let mut out: String = String::new();
    match *i {
        Instr::RegToReg { wide, dst, src } => {
            out.append("mov ");
            out.append(get_reg_name(dst, wide));
            out.append(", ");
            out.append(get_reg_name(src, wide));
        },
        Instr::UnhandledMode { mode, dst, src } => {
            out.append("mov(");
            push_padded(&mut out, mode as u16, 2, 2);
            out.append(") ");
            push_padded(&mut out, dst as u16, 2, 3);
            out.append(", ");
            push_padded(&mut out, src as u16, 2, 3);
        },
        Instr::ImmToReg { wide, reg, data } => {
            out.append("mov ");
            out.append(get_reg_name(reg, wide));
            out.append(", ");
            push_digits(&mut out, data, 10);
        },
        Instr::MemNoDisp { to_reg, wide, reg, rm } => {
            let mut mem: String = String::new();
            mem.append("[");
            mem.append(get_effective_address_equation_str(rm));
            mem.append("]");
            push_memory_move(&mut out, to_reg, get_reg_name(reg, wide), mem.as_str());
        },
        Instr::MemDirect { to_reg, wide, reg, addr } => {
            let mut mem: String = String::new();
            mem.append("[");
            push_digits(&mut mem, addr, 10);
            mem.append("]");
            push_memory_move(&mut out, to_reg, get_reg_name(reg, wide), mem.as_str());
        },
        Instr::MemDisp { to_reg, wide, reg, rm, disp } => {
            let mut mem: String = String::new();
            mem.append("[");
            mem.append(get_effective_address_equation_str(rm));
            mem.append("+");
            push_digits(&mut mem, disp, 10);
            mem.append("]");
            push_memory_move(&mut out, to_reg, get_reg_name(reg, wide), mem.as_str());
        },
        Instr::ImmToMem => {
            out.append("mov immediate to memory...");
        },
        Instr::MemToAcc => {
            out.append("mov memory to accumulator...");
        },
        Instr::Unknown { opcode } => {
            push_unknown_opcode(&mut out, opcode, 6);
        },
    }
    assert(out@ =~= instr_text(*i));
    out
}

/// Renders the message that reports `f`.
pub fn render_fault(f: &Fault) -> (text: String)
    ensures
        text@ == fault_text(*f),
{
    let mut out: String = String::new();
    match *f {
        Fault::Truncated(Missing::OneMoreByte) => {
            out.append("MOV opcode expected 1 more byte, but we reached the end of the file!");
        },
        Fault::Truncated(Missing::TwoMoreByte) => {
            out.append("MOV opcode expected 2 more byte, but we reached the end of the file!");
        },
        Fault::Truncated(Missing::TwoMoreBytes) => {
            out.append("MOV opcode expected 2 more bytes, but we reached the end of the file!");
        },
        Fault::Truncated(Missing::ThreeMoreBytes) => {
            out.append("MOV opcode expected 3 more bytes, but we reached the end of the file!");
        },
        Fault::UnknownOpcode { opcode, opcode_bits } => {
            push_unknown_opcode(&mut out, opcode, opcode_bits);
        },
    }
    assert(out@ =~= fault_text(*f));
    out
}

fn text_line(s: &str) -> (line: String)
    ensures
        line@ == s@,
{
    let mut out: String = String::new();
    out.append(s);
    assert(out@ =~= s@);
    out
}

/// The lines that open a listing disassembled by the program at
/// `program_path`.
pub fn listing_header(program_path: &str) -> (lines: Vec<String>)
    ensures
        lines@.map_values(|l: String| l@) == header_text(program_path@),
{
    let mut lines: Vec<String> = Vec::new();
    lines.push(text_line("; ========================================================================"));
    let mut by: String = String::new();
    by.append("; This file is disassembled by ");
    by.append(program_path);
    lines.push(by);
    lines.push(text_line("; ========================================================================"));
    lines.push(text_line(""));
    lines.push(text_line("bits 16"));
    lines.push(text_line(""));
    assert(lines@.map_values(|l: String| l@) =~= header_text(program_path@));
    lines
}

} // verus!
