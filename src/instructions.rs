use vstd::prelude::*;

verus! {

/// Moves a 16-bit literal into a register.
pub const MOV_LIT_REG: u8 = 0x10;

/// Copies one register into another.
pub const MOV_REG_REG: u8 = 0x11;

/// Stores a register into two consecutive memory cells.
pub const MOV_REG_MEM: u8 = 0x12;

/// Loads two consecutive memory cells into a register.
pub const MOV_MEM_REG: u8 = 0x13;

/// Adds two registers into the accumulator, wrapping at 16 bits.
pub const ADD_REG_REG: u8 = 0x14;

/// Jumps to a target address when the accumulator differs from a literal.
pub const JMP_NEQ: u8 = 0x15;

} // verus!
