//! What can go wrong while a source is assembled.
use vstd::prelude::*;

verus! {

/// The kinds of error.
#[derive(Debug, Clone, Copy, PartialEq, Eq, Structural)]
pub enum ErrorKind {
    /// A line that is not blank shows none of the parts that the language
    /// knows.
    TokenizeError,
    /// The command starts with a word that is no mnemonic of the language.
    UnknownMnemonic,
    /// The mnemonic is known, but the command has none of its shapes; or an
    /// operand or a literal is written in a way that cannot be read.
    InvalidOperandSyntax,
    /// A label is defined a second time.
    DuplicateSymbol,
    /// An operand names a label that the source does not define.
    UndefinedSymbol,
    /// A number does not fit in the bits of its field.
    ImmediateOverflow,
    /// A distance does not fit in the bits of its field, or an address lies
    /// beyond what can be addressed.
    OffsetOutOfRange,
    /// A field with fixed legal values is given another value.
    InvalidFixedFieldValue,
}

/// An error, with the line that caused it.
#[derive(Debug, Clone, PartialEq, Eq)]
pub struct AssemblyError {
    pub kind: ErrorKind,
    /// The position of the line in the source, counted from zero.
    pub line: usize,
    /// The text that the error is about: the line, the command, the operand or
    /// the label.
    pub text: String,
}

impl ErrorKind {
    /// The name of the kind.
    pub fn name(&self) -> (name: &'static str)
        ensures
            name@ == match *self {
                ErrorKind::TokenizeError => "TokenizeError"@,
                ErrorKind::UnknownMnemonic => "UnknownMnemonic"@,
                ErrorKind::InvalidOperandSyntax => "InvalidOperandSyntax"@,
                ErrorKind::DuplicateSymbol => "DuplicateSymbol"@,
                ErrorKind::UndefinedSymbol => "UndefinedSymbol"@,
                ErrorKind::ImmediateOverflow => "ImmediateOverflow"@,
                ErrorKind::OffsetOutOfRange => "OffsetOutOfRange"@,
                ErrorKind::InvalidFixedFieldValue => "InvalidFixedFieldValue"@,
            },
    {
        match *self {
            ErrorKind::TokenizeError => "TokenizeError",
            ErrorKind::UnknownMnemonic => "UnknownMnemonic",
            ErrorKind::InvalidOperandSyntax => "InvalidOperandSyntax",
            ErrorKind::DuplicateSymbol => "DuplicateSymbol",
            ErrorKind::UndefinedSymbol => "UndefinedSymbol",
            ErrorKind::ImmediateOverflow => "ImmediateOverflow",
            ErrorKind::OffsetOutOfRange => "OffsetOutOfRange",
            ErrorKind::InvalidFixedFieldValue => "InvalidFixedFieldValue",
        }
    }
}

} // verus!
