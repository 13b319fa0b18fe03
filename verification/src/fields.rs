//! The bit fields of the bytes of an 8086 `mov` instruction.
//!
//! Each field is specified arithmetically (a quotient and a remainder by a
//! power of two) and extracted in code with the masks and shifts of the
//! instruction format; each extractor proves that the two agree.

use vstd::prelude::*;

verus! {

/// Top four bits of the first byte: `1011` is "immediate to register".
pub const MOV_IMM_TO_REG_OPCODE: u8 = 0b1011;

/// Top six bits of the first byte: `100010` is "register/memory to/from register".
pub const MOV_REG_MEM_OPCODE: u8 = 0b100010;

/// Top seven bits of the first byte: `1100011` is "immediate to register/memory".
pub const MOV_IMM_TO_MEM_OPCODE: u8 = 0b1100011;

/// Top seven bits of the first byte: `1010000` is "memory to accumulator".
pub const MOV_MEM_TO_ACC_OPCODE: u8 = 0b1010000;

/// `mod` field: memory operand without displacement (except a direct address).
pub const MODE_MEM_NO_DISP: u8 = 0b00;

/// `mod` field: memory operand with an 8-bit displacement.
pub const MODE_MEM_DISP8: u8 = 0b01;

/// `mod` field: memory operand with a 16-bit displacement.
pub const MODE_MEM_DISP16: u8 = 0b10;

/// `mod` field: both operands are registers.
pub const MODE_REG_TO_REG: u8 = 0b11;

/// `r/m` pattern that, with `mod == 00`, stands for a direct 16-bit address.
pub const RM_DIRECT_ADDRESS: u8 = 0b110;

/// The top four bits of `b`.
pub open spec fn opcode4_of(b: u8) -> u8 {
    b / 16
}

/// The top six bits of `b`.
pub open spec fn opcode6_of(b: u8) -> u8 {
    b / 4
}

/// The top seven bits of `b`.
pub open spec fn opcode7_of(b: u8) -> u8 {
    b / 2
}

/// The `d` (direction) bit of a register/memory `mov`: set when `reg` is the destination.
pub open spec fn d_bit_of(b: u8) -> bool {
    (b / 2) % 2 == 1
}

/// The `w` (word) bit of a register/memory `mov`: bit 0.
pub open spec fn w_bit_of(b: u8) -> bool {
    b % 2 == 1
}

/// The `w` bit of an immediate-to-register `mov`: bit 3.
pub open spec fn imm_w_bit_of(b: u8) -> bool {
    (b / 8) % 2 == 1
}

/// The `mod` field of a mod-reg-r/m byte: its top two bits.
pub open spec fn mode_of(m: u8) -> u8 {
    m / 64
}

/// The `reg` field of a mod-reg-r/m byte: bits 5 to 3.
pub open spec fn reg_of(m: u8) -> u8 {
    (m / 8) % 8
}

/// The `r/m` field of a mod-reg-r/m byte (or the register of an
/// immediate-to-register `mov`): its low three bits.
pub open spec fn rm_of(m: u8) -> u8 {
    m % 8
}

/// The little-endian 16-bit value of the bytes `lo`, `hi`.
pub open spec fn word_of(lo: u8, hi: u8) -> u16 {
    (lo + 256 * hi) as u16
}

/// Top four bits of `byte`.
pub fn opcode4(byte: u8) -> (r: u8)
    ensures
        r == opcode4_of(byte),
        r < 16,
{
    let r: u8 = (byte & 0b11110000) >> 4u8;
    assert((byte & 0b11110000) >> 4u8 == byte / 16) by (bit_vector);
    r
}

/// Top six bits of `byte`.
pub fn opcode6(byte: u8) -> (r: u8)
    ensures
        r == opcode6_of(byte),
        r < 64,
{
    let r: u8 = (byte & 0b11111100) >> 2u8;
    assert((byte & 0b11111100) >> 2u8 == byte / 4) by (bit_vector);
    r
}

/// Top seven bits of `byte`.
pub fn opcode7(byte: u8) -> (r: u8)
    ensures
        r == opcode7_of(byte),
        r < 128,
{
    let r: u8 = (byte & 0b11111110) >> 1u8;
    assert((byte & 0b11111110) >> 1u8 == byte / 2) by (bit_vector);
    r
}

/// Bit 1 of `byte` (the `d` bit).
pub fn d_bit(byte: u8) -> (r: bool)
    ensures
        r == d_bit_of(byte),
{
    assert(((byte & 0b00000010) != 0) == ((byte / 2) % 2 == 1)) by (bit_vector);
    (byte & 0b00000010) != 0
}

/// Bit 0 of `byte` (the `w` bit of a register/memory `mov`).
pub fn w_bit(byte: u8) -> (r: bool)
    ensures
        r == w_bit_of(byte),
{
    assert(((byte & 0b00000001) != 0) == (byte % 2 == 1)) by (bit_vector);
    (byte & 0b00000001) != 0
}

/// Bit 3 of `byte` (the `w` bit of an immediate-to-register `mov`).
pub fn imm_w_bit(byte: u8) -> (r: bool)
    ensures
        r == imm_w_bit_of(byte),
{
    assert(((byte & 0b00001000) != 0) == ((byte / 8) % 2 == 1)) by (bit_vector);
    (byte & 0b00001000) != 0
}

/// The `mod` field of `byte`.
pub fn mode(byte: u8) -> (r: u8)
    ensures
        r == mode_of(byte),
        r < 4,
{
    let r: u8 = (byte & 0b11000000) >> 6u8;
    assert((byte & 0b11000000) >> 6u8 == byte / 64) by (bit_vector);
    r
}

/// The `reg` field of `byte`.
pub fn reg(byte: u8) -> (r: u8)
    ensures
        r == reg_of(byte),
        r < 8,
{
    let r: u8 = (byte & 0b00111000) >> 3u8;
    assert((byte & 0b00111000) >> 3u8 == (byte / 8) % 8) by (bit_vector);
    r
}

/// The `r/m` field of `byte`.
pub fn rm(byte: u8) -> (r: u8)
    ensures
        r == rm_of(byte),
        r < 8,
{
    let r: u8 = byte & 0b00000111;
    assert(byte & 0b00000111 == byte % 8) by (bit_vector);
    r
}

/// The little-endian 16-bit value of `lo`, `hi`.
pub fn word(lo: u8, hi: u8) -> (r: u16)
    ensures
        r == word_of(lo, hi),
        r == lo + 256 * hi,
{
    let r: u16 = ((hi as u16) << 8u16) | (lo as u16);
    assert(((hi as u16) << 8u16) | (lo as u16) == lo + 256 * hi) by (bit_vector);
    r
}

} // verus!
