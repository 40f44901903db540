//! The names that most users of the definitions need.
pub use crate::definitions::language::CommandDefinition;
pub use crate::definitions::language::LanguageDefinition;
pub use crate::definitions::processor::Format;
pub use crate::definitions::processor::OperationSeg;
pub use crate::definitions::processor::ProcessorDefinition;
pub use crate::definitions::processor::SegType;
