//! An 8-bit instruction-set architecture with predicated instructions and a
//! 4-bit immediate accumulator, together with the macro assembler that
//! targets it.
//!
//! Both halves share one addressing model: 256 banks of 256 bytes each.

pub mod assembler;
pub mod ast;
pub mod cpu;
pub mod encode;
pub mod error;
pub mod expand;
pub mod isa;
pub mod memory;
pub mod symbol;
