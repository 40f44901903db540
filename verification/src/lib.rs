//! A table-driven assembler core for a 16-bit RISC instruction set in the style
//! of ARM Thumb: source text is split into fields, commands are matched against
//! the syntax variants of their mnemonic, labels are resolved in two passes and
//! the operands are packed into the bit fields of the selected format.
use vstd::prelude::*;

pub mod compile;
pub mod definitions;
pub mod prelude;
pub mod virtual_processor;

verus! {

/// The sum of two numbers that can be added without overflow.
pub fn add(left: u64, right: u64) -> (sum: u64)
    requires
        left + right <= u64::MAX,
    ensures
        sum == left + right,
{
    left + right
}

} // verus!
