//! The names that most users of the assembler need.
pub use crate::compile::Complier;
