use disasm8086::decode::{decode_at, disassemble, Dialect, Fault, Instr, Listing, Missing};
use disasm8086::names::{get_effective_address_equation_str, get_reg_name};
use disasm8086::render::{listing_header, render_fault, render_instr};

fn lines(listing: &Listing) -> Vec<String> {
    listing.instrs.iter().map(render_instr).collect()
}

#[test]
fn register_names_follow_the_width_bit() {
    let wide = ["ax", "cx", "dx", "bx", "sp", "bp", "si", "di"];
    let narrow = ["al", "cl", "dl", "bl", "ah", "ch", "dh", "bh"];
    for reg in 0u8..8 {
        assert_eq!(get_reg_name(reg, true), wide[reg as usize]);
        assert_eq!(get_reg_name(reg, false), narrow[reg as usize]);
    }
    assert_eq!(get_reg_name(8, true), "??");
    assert_eq!(get_reg_name(255, false), "??");
}

#[test]
fn address_equations_of_each_rm_field() {
    let expected = ["bx+si", "bx+di", "bp+si", "bp+di", "si", "di", "bp", "bx"];
    for rm in 0u8..8 {
        assert_eq!(get_effective_address_equation_str(rm), expected[rm as usize]);
    }
    assert_eq!(get_effective_address_equation_str(8), "??");
}

#[test]
fn single_register_move() {
    let listing = disassemble(Dialect::RegisterMoves, &[0x89, 0xd9]);
    assert_eq!(lines(&listing), vec!["mov cx, bx"]);
    assert_eq!(listing.fault, None);
}

#[test]
fn many_register_moves() {
    let bytes = [
        0x89, 0xd9, 0x88, 0xe5, 0x89, 0xda, 0x89, 0xde, 0x89, 0xfb, 0x88, 0xc8, 0x88, 0xed, 0x88,
        0xc3, 0x88, 0xf3, 0x89, 0xfc, 0x89, 0xc5,
    ];
    let expected = vec![
        "mov cx, bx", "mov ch, ah", "mov dx, bx", "mov si, bx", "mov bx, di", "mov al, cl",
        "mov ch, ch", "mov bl, al", "mov bl, dh", "mov sp, di", "mov bp, ax",
    ];
    for dialect in [Dialect::RegisterMoves, Dialect::RegisterMovesSkipUnknown, Dialect::Moves] {
        let listing = disassemble(dialect, &bytes);
        assert_eq!(lines(&listing), expected);
        assert_eq!(listing.fault, None);
    }
}

#[test]
fn memory_forms_are_left_unresolved_by_register_moves() {
    let listing = disassemble(Dialect::RegisterMoves, &[0x89, 0x07, 0x8b, 0x5e]);
    assert_eq!(lines(&listing), vec!["mov(00) 111, 000", "mov(01) 011, 110"]);
}

#[test]
fn register_moves_stop_at_an_unknown_opcode() {
    let listing = disassemble(Dialect::RegisterMoves, &[0x89, 0xd9, 0xff, 0x89, 0xd9]);
    assert_eq!(lines(&listing), vec!["mov cx, bx"]);
    let fault = listing.fault.unwrap();
    assert_eq!(fault, Fault::UnknownOpcode { opcode: 0b111111, opcode_bits: 6 });
    assert_eq!(render_fault(&fault), "Unknown opcode: 0b111111 0x3F");
}

#[test]
fn skipping_dialect_lists_unknown_opcodes_and_goes_on() {
    let listing = disassemble(Dialect::RegisterMovesSkipUnknown, &[0x89, 0xd9, 0x05, 0x89, 0xd9]);
    assert_eq!(listing.instrs[1], Instr::Unknown { opcode: 1 });
    assert_eq!(
        lines(&listing),
        vec!["mov cx, bx", "Unknown opcode: 0b000001 0x01", "mov cx, bx"]
    );
    assert_eq!(listing.fault, None);
}

#[test]
fn truncated_register_move() {
    let listing = disassemble(Dialect::RegisterMoves, &[0x89, 0xd9, 0x89]);
    assert_eq!(lines(&listing), vec!["mov cx, bx"]);
    assert_eq!(listing.fault, Some(Fault::Truncated(Missing::OneMoreByte)));
    assert_eq!(
        render_fault(&listing.fault.unwrap()),
        "MOV opcode expected 1 more byte, but we reached the end of the file!"
    );
}

#[test]
fn moves_with_immediates_and_memory_operands() {
    let bytes = [
        0x89, 0xde, 0x88, 0xc6, 0xb1, 0x0c, 0xb5, 0xf4, 0xb9, 0x0c, 0x00, 0xb9, 0xf4, 0xff, 0xba,
        0x6c, 0x0f, 0xba, 0x94, 0xf0, 0x8a, 0x00, 0x8b, 0x1b, 0x8b, 0x56, 0x00, 0x8a, 0x60, 0x04,
        0x8a, 0x80, 0x87, 0x13, 0x89, 0x09, 0x88, 0x0a, 0x88, 0x6e, 0x00,
    ];
    let expected = vec![
        "mov si, bx",
        "mov dh, al",
        "mov cl, 12",
        "mov ch, 244",
        "mov cx, 12",
        "mov cx, 65524",
        "mov dx, 3948",
        "mov dx, 61588",
        "mov al, [bx+si]",
        "mov bx, [bp+di]",
        "mov dx, [bp+0]",
        "mov ah, [bx+si+4]",
        "mov al, [bx+si+4999]",
        "mov [bx+di], cx",
        "mov [bp+si], cl",
        "mov [bp+0], ch",
    ];
    let listing = disassemble(Dialect::Moves, &bytes);
    assert_eq!(lines(&listing), expected);
    assert_eq!(listing.fault, None);
}

#[test]
fn direct_addresses_and_recognised_forms() {
    let listing = disassemble(Dialect::Moves, &[0x8b, 0x2e, 0x05, 0x00, 0x89, 0x0e, 0x10, 0x27, 0xc6, 0xa1]);
    assert_eq!(
        lines(&listing),
        vec!["mov bp, [5]", "mov [10000], cx", "mov immediate to memory...", "mov memory to accumulator..."]
    );
    assert_eq!(listing.fault, None);
}

#[test]
fn moves_stop_at_an_unknown_seven_bit_opcode() {
    let listing = disassemble(Dialect::Moves, &[0xb0, 0x01, 0x00]);
    assert_eq!(lines(&listing), vec!["mov al, 1"]);
    let fault = listing.fault.unwrap();
    assert_eq!(fault, Fault::UnknownOpcode { opcode: 0, opcode_bits: 7 });
    assert_eq!(render_fault(&fault), "Unknown opcode: 0b0000000 0x00");
    let high = disassemble(Dialect::Moves, &[0xfe]).fault.unwrap();
    assert_eq!(render_fault(&high), "Unknown opcode: 0b1111111 0x7F");
}

#[test]
fn each_truncation_has_its_message() {
    let cases: [(&[u8], Missing, &str); 5] = [
        (&[0xb8, 0x01], Missing::TwoMoreByte, "MOV opcode expected 2 more byte, but we reached the end of the file!"),
        (&[0xb0], Missing::OneMoreByte, "MOV opcode expected 1 more byte, but we reached the end of the file!"),
        (&[0x8b], Missing::OneMoreByte, "MOV opcode expected 1 more byte, but we reached the end of the file!"),
        (&[0x8b, 0x46], Missing::TwoMoreBytes, "MOV opcode expected 2 more bytes, but we reached the end of the file!"),
        (&[0x8b, 0x86, 0x01], Missing::ThreeMoreBytes, "MOV opcode expected 3 more bytes, but we reached the end of the file!"),
    ];
    for (bytes, missing, message) in cases {
        let listing = disassemble(Dialect::Moves, bytes);
        assert!(listing.instrs.is_empty());
        assert_eq!(listing.fault, Some(Fault::Truncated(missing)));
        assert_eq!(render_fault(&listing.fault.unwrap()), message);
    }
    let direct = disassemble(Dialect::Moves, &[0x8b, 0x06, 0x01]);
    assert_eq!(direct.fault, Some(Fault::Truncated(Missing::ThreeMoreBytes)));
}

#[test]
fn empty_input_gives_an_empty_listing() {
    for dialect in [Dialect::RegisterMoves, Dialect::RegisterMovesSkipUnknown, Dialect::Moves] {
        let listing = disassemble(dialect, &[]);
        assert!(listing.instrs.is_empty());
        assert_eq!(listing.fault, None);
    }
}

#[test]
fn single_steps_report_their_length() {
    let bytes = [0x8a, 0x80, 0x87, 0x13, 0xb9, 0x0c, 0x00];
    assert_eq!(
        decode_at(Dialect::Moves, &bytes, 0),
        Ok((Instr::MemDisp { to_reg: true, wide: false, reg: 0, rm: 0, disp: 4999 }, 4))
    );
    assert_eq!(
        decode_at(Dialect::Moves, &bytes, 4),
        Ok((Instr::ImmToReg { wide: true, reg: 1, data: 12 }, 3))
    );
    assert_eq!(decode_at(Dialect::RegisterMovesSkipUnknown, &bytes, 4), Ok((Instr::Unknown { opcode: 0b101110 }, 1)));
}

#[test]
fn direction_bit_swaps_the_fields() {
    for dialect in [Dialect::RegisterMoves, Dialect::RegisterMovesSkipUnknown, Dialect::Moves] {
        let to_reg = disassemble(dialect, &[0x8b, 0xc1]);
        let from_reg = disassemble(dialect, &[0x89, 0xc8]);
        assert_eq!(to_reg.instrs, from_reg.instrs);
        assert_eq!(lines(&to_reg), vec!["mov ax, cx"]);
    }
}

#[test]
fn listing_of_concatenated_programs() {
    let a = [0xb1, 0x0c, 0x89, 0xd9];
    let b = [0x8b, 0x56, 0x00, 0x8b];
    let whole: Vec<u8> = a.iter().chain(b.iter()).copied().collect();
    let la = disassemble(Dialect::Moves, &a);
    let lb = disassemble(Dialect::Moves, &b);
    let lw = disassemble(Dialect::Moves, &whole);
    let mut joined = la.instrs.clone();
    joined.extend(lb.instrs.iter().copied());
    assert_eq!(lw.instrs, joined);
    assert_eq!(lw.fault, lb.fault);
    assert_eq!(lw.fault, Some(Fault::Truncated(Missing::OneMoreByte)));
}

#[test]
fn header_names_the_program() {
    let header = listing_header("disasm");
    assert_eq!(
        header,
        vec![
            "; ========================================================================",
            "; This file is disassembled by disasm",
            "; ========================================================================",
            "",
            "bits 16",
            "",
        ]
    );
}

#[test]
fn decoded_text_never_shows_an_unknown_register() {
    for dialect in [Dialect::RegisterMoves, Dialect::RegisterMovesSkipUnknown, Dialect::Moves] {
        for first in 0u16..256 {
            for second in 0u16..256 {
                let bytes = [first as u8, second as u8, 0x34, 0x12];
                for instr in disassemble(dialect, &bytes).instrs {
                    assert!(!render_instr(&instr).contains("??"));
                }
            }
        }
    }
}
