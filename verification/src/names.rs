//! Names of registers and of effective-address equations.

use vstd::prelude::*;

verus! {

/// The register encoded by the three-bit field `reg` (the `reg` or `r/m`
/// field of a `mov`), as a 16-bit register when `wide` and as an 8-bit
/// register otherwise; `"??"` for a value that is not a three-bit field.
pub open spec fn reg_name(reg: u8, wide: bool) -> Seq<char> {
    if reg == 0 {
        if wide { "ax"@ } else { "al"@ }
    } else if reg == 1 {
        if wide { "cx"@ } else { "cl"@ }
    } else if reg == 2 {
        if wide { "dx"@ } else { "dl"@ }
    } else if reg == 3 {
        if wide { "bx"@ } else { "bl"@ }
    } else if reg == 4 {
        if wide { "sp"@ } else { "ah"@ }
    } else if reg == 5 {
        if wide { "bp"@ } else { "ch"@ }
    } else if reg == 6 {
        if wide { "si"@ } else { "dh"@ }
    } else if reg == 7 {
        if wide { "di"@ } else { "bh"@ }
    } else {
        "??"@
    }
}

/// Returns the assembly name of register `reg_operand`.
pub fn get_reg_name<'a>(reg_operand: u8, is_word_size: bool) -> (name: &'a str)
    ensures
        name@ == reg_name(reg_operand, is_word_size),
{
    if reg_operand == 0 {
        return if is_word_size { "ax" } else { "al" };
    }
    if reg_operand == 1 {
        return if is_word_size { "cx" } else { "cl" };
    }
    if reg_operand == 2 {
        return if is_word_size { "dx" } else { "dl" };
    }
    if reg_operand == 3 {
        return if is_word_size { "bx" } else { "bl" };
    }
    if reg_operand == 4 {
        return if is_word_size { "sp" } else { "ah" };
    }
    if reg_operand == 5 {
        return if is_word_size { "bp" } else { "ch" };
    }
    if reg_operand == 6 {
        return if is_word_size { "si" } else { "dh" };
    }
    if reg_operand == 7 {
        return if is_word_size { "di" } else { "bh" };
    } else {
        return "??";
    }
}

/// The base-register sum that the three-bit `r/m` field `rm` selects in a
/// memory operand; `"??"` for a value that is not a three-bit field.
///
/// The pattern `110` names `bp` here: with a displacement it addresses
/// `[bp+disp]`; without one the decoder reads a direct address instead and
/// never asks for this name.
pub open spec fn address_equation(rm: u8) -> Seq<char> {
    if rm == 0 {
        "bx+si"@
    } else if rm == 1 {
        "bx+di"@
    } else if rm == 2 {
        "bp+si"@
    } else if rm == 3 {
        "bp+di"@
    } else if rm == 4 {
        "si"@
    } else if rm == 5 {
        "di"@
    } else if rm == 6 {
        "bp"@
    } else if rm == 7 {
        "bx"@
    } else {
        "??"@
    }
}

/// Returns the effective-address equation selected by `mem_operand`.
pub fn get_effective_address_equation_str<'a>(mem_operand: u8) -> (equation: &'a str)
    ensures
        equation@ == address_equation(mem_operand),
{
    if mem_operand == 0 {
        return "bx+si";
    }
    if mem_operand == 1 {
        return "bx+di";
    }
    if mem_operand == 2 {
        return "bp+si";
    }
    if mem_operand == 3 {
        return "bp+di";
    }
    if mem_operand == 4 {
        return "si";
    }
    if mem_operand == 5 {
        return "di";
    }
    if mem_operand == 6 {
        return "bp";
    }
    if mem_operand == 7 {
        return "bx";
    } else {
        return "??";
    }
}

} // verus!
