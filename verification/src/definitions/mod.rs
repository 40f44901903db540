//! Descriptions of a target: the instruction formats of a processor and the
//! assembly language that is written for it.
pub mod bits;
pub mod language;
pub mod prelude;
pub mod processor;
pub mod syntax;
pub mod thumb_default;
