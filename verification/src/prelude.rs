//! The names that most users of the library need.
pub use crate::compile::prelude::Complier;
pub use crate::definitions::prelude::CommandDefinition;
pub use crate::definitions::prelude::Format;
pub use crate::definitions::prelude::LanguageDefinition;
pub use crate::definitions::prelude::OperationSeg;
pub use crate::definitions::prelude::ProcessorDefinition;
pub use crate::definitions::prelude::SegType;
