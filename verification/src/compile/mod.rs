//! Turning assembly source into machine code.
use vstd::prelude::*;
use crate::compile::encode::{assembly, lemma_assembly_idempotent};
use crate::compile::error::AssemblyError;
use crate::compile::parse_code::{errors_view, faults_upto, line_settled, ParsedCode};
use crate::compile::resolve::{commands_keep_source, fault_view, vars_keep_source, Fault};
use crate::compile::text::{push_char, source_lines, texts_view};
use crate::definitions::language::LanguageDefinition;
use crate::definitions::syntax::default_line_patterns;
use crate::definitions::thumb_default::{all_default, is_default_processor};

pub mod data;
pub mod encode;
pub mod error;
pub mod matching;
pub mod parse_code;
pub mod pattern;
pub mod prelude;
pub mod resolve;
pub mod text;
pub mod tokenize;

verus! {

/// The character that writes a number below sixteen in hexadecimal, with
/// capital letters.
pub open spec fn hex_char(n: int) -> char {
    if n < 10 {
        ((48 + n) as u8) as char
    } else {
        ((55 + n) as u8) as char
    }
}

/// The bytes written in hexadecimal, two digits for each byte.
pub open spec fn hex_text(bytes: Seq<u8>) -> Seq<char>
    decreases bytes.len(),
{
    if bytes.len() == 0 {
        Seq::empty()
    } else {
        hex_text(bytes.drop_last()).push(hex_char(bytes.last() as int / 16)).push(
            hex_char(bytes.last() as int % 16),
        )
    }
}

/// The low `n` bits of `byte`, written with `0` and `1`, the upper bit first.
pub open spec fn bit_text(byte: int, n: int) -> Seq<char>
    decreases n,
{
    if n <= 0 {
        Seq::empty()
    } else {
        bit_text(byte / 2, n - 1).push(
            if byte % 2 == 1 {
                '1'
            } else {
                '0'
            },
        )
    }
}

/// The bytes written in binary, eight digits for each byte.
pub open spec fn binary_text(bytes: Seq<u8>) -> Seq<char>
    decreases bytes.len(),
{
    if bytes.len() == 0 {
        Seq::empty()
    } else {
        binary_text(bytes.drop_last()) + bit_text(bytes.last() as int, 8)
    }
}

/// The character that writes a number below sixteen in hexadecimal.
pub fn hex_digit_of(n: u8) -> (c: char)
    requires
        n < 16,
    ensures
        c == hex_char(n as int),
{
    if n < 10 {
        (48 + n) as char
    } else {
        (55 + n) as char
    }
}

/// The bytes written in hexadecimal, two digits for each byte.
pub fn to_hex(bytes: &Vec<u8>) -> (text: String)
    ensures
        text@ == hex_text(bytes@),
{
    let n = bytes.len();
    let mut text = String::new();
    let mut i: usize = 0;
    while i < n
        invariant
            n == bytes@.len(),
            i <= n,
            text@ == hex_text(bytes@.take(i as int)),
        decreases n - i,
    {
        push_char(&mut text, hex_digit_of(bytes[i] / 16));
        push_char(&mut text, hex_digit_of(bytes[i] % 16));
        i += 1;
        assert(bytes@.take(i as int).drop_last() =~= bytes@.take(i - 1));
    }
    assert(bytes@.take(n as int) =~= bytes@);
    text
}

/// Appends the low `n` bits of `byte` to `text`, the upper bit first.
pub fn push_bits(text: &mut String, byte: u8, n: u8)
    requires
        n <= 8,
    ensures
        final(text)@ == old(text)@ + bit_text(byte as int, n as int),
    decreases n,
{
    if n > 0 {
        push_bits(text, byte / 2, n - 1);
        push_char(
            text,
            if byte % 2 == 1 {
                '1'
            } else {
                '0'
            },
        );
        assert(text@ =~= old(text)@ + bit_text(byte as int, n as int));
    } else {
        assert(text@ =~= old(text)@ + bit_text(byte as int, n as int));
    }
}

/// The bytes written in binary, eight digits for each byte.
pub fn to_binary(bytes: &Vec<u8>) -> (text: String)
    ensures
        text@ == binary_text(bytes@),
{
    let n = bytes.len();
    let mut text = String::new();
    let mut i: usize = 0;
    while i < n
        invariant
            n == bytes@.len(),
            i <= n,
            text@ == binary_text(bytes@.take(i as int)),
        decreases n - i,
    {
        push_bits(&mut text, bytes[i], 8);
        i += 1;
        assert(bytes@.take(i as int).drop_last() =~= bytes@.take(i - 1));
    }
    assert(bytes@.take(n as int) =~= bytes@);
    text
}

/// An assembler for one language: it holds a source, the unit that the source
/// was parsed into, and the machine code of the unit.
pub struct Complier {
    language_def: LanguageDefinition,
    source: String,
    parsed_code: ParsedCode,
    complied_code: Vec<u8>,
}

impl Complier {
    /// The language that the assembler reads.
    pub closed spec fn language(&self) -> &LanguageDefinition {
        &self.language_def
    }

    /// The source that was loaded last.
    pub closed spec fn source(&self) -> Seq<char> {
        self.source@
    }

    /// The unit that the source was parsed into.
    pub closed spec fn unit(&self) -> &ParsedCode {
        &self.parsed_code
    }

    /// The machine code that was compiled last.
    pub closed spec fn output(&self) -> Seq<u8> {
        self.complied_code@
    }

    /// The language is well formed, and so is the unit.
    pub closed spec fn wf(&self) -> bool {
        &&& self.language_def.wf()
        &&& self.parsed_code.wf()
    }

    /// Whether the assembler holds nothing but its language.
    pub open spec fn is_fresh(&self) -> bool {
        &&& self.source().len() == 0
        &&& self.output().len() == 0
        &&& self.unit().lines@.len() == 0
        &&& self.unit().commands@.len() == 0
        &&& self.unit().vars@.len() == 0
        &&& self.unit().labels@.len() == 0
        &&& self.unit().errors@.len() == 0
    }

    /// Whether the unit is what parsing `source` with the language gives.
    pub open spec fn parsed(&self, source: Seq<char>) -> bool {
        &&& self.unit().lines@.len() == source_lines(source).len()
        &&& forall|i: int|
            0 <= i < self.unit().lines@.len() ==> (#[trigger] self.unit().lines@[i]).text@
                == source_lines(source)[i]
        &&& self.unit().parsed_with(self.language())
    }

    /// What compiling the unit gives: the first of the errors that parsing
    /// found, else what assembling the unit gives.
    pub open spec fn outcome(&self) -> Result<Seq<u8>, Fault> {
        let faults = faults_upto(
            self.language(),
            self.unit().lines@,
            self.unit().lines@.len() as int,
        );
        if faults.len() > 0 {
            Err(faults[0])
        } else {
            assembly(self.language(), self.unit().lines@, self.unit().commands@, self.unit().vars@)
        }
    }

    /// An assembler for `def` that holds no source yet.
    pub fn new(def: LanguageDefinition) -> (made: Complier)
        requires
            def.wf(),
        ensures
            made.wf(),
            *made.language() == def,
            made.is_fresh(),
    {
        Complier {
            language_def: def,
            source: String::new(),
            parsed_code: ParsedCode::default(),
            complied_code: Vec::new(),
        }
    }

    /// Replaces the language. What was loaded, parsed and compiled is dropped.
    pub fn set_def(&mut self, def: LanguageDefinition)
        requires
            def.wf(),
        ensures
            final(self).wf(),
            *final(self).language() == def,
            final(self).is_fresh(),
    {
        self.language_def = def;
        self.source = String::new();
        self.parsed_code = ParsedCode::default();
        self.complied_code = Vec::new();
    }

    /// Loads a source. What was parsed and compiled before is dropped.
    pub fn load_from_str(&mut self, source: &str)
        requires
            old(self).wf(),
        ensures
            final(self).wf(),
            final(self).language() == old(self).language(),
            final(self).source() == source@,
            final(self).output().len() == 0,
            final(self).unit().lines@.len() == 0,
            final(self).unit().errors@.len() == 0,
    {
        self.source = source.to_owned();
        self.parsed_code = ParsedCode::default();
        self.complied_code = Vec::new();
    }

    /// Parses the source that was loaded. The lines that fail are noted among
    /// the errors of the unit.
    pub fn parse(&mut self)
        requires
            old(self).wf(),
        ensures
            final(self).wf(),
            final(self).language() == old(self).language(),
            final(self).source() == old(self).source(),
            final(self).output() == old(self).output(),
            final(self).parsed(old(self).source()),
    {
        self.parsed_code.parse_from_str("", self.source.as_str(), &self.language_def);
        proof {
            self.parsed_code.lemma_parsed_wf(&self.language_def);
        }
    }

    /// Loads a source and parses it.
    pub fn parse_from_str(&mut self, source: &str)
        requires
            old(self).wf(),
        ensures
            final(self).wf(),
            final(self).language() == old(self).language(),
            final(self).source() == source@,
            final(self).output().len() == 0,
            final(self).parsed(source@),
    {
        self.load_from_str(source);
        self.parse();
    }

    /// Parses the source that was loaded and assembles it. Where a line failed
    /// to parse, the first such error is returned; else the unit is resolved
    /// and encoded, and its first error is returned. The machine code is
    /// replaced only by a complete result: an error leaves none.
    pub fn compile(&mut self) -> (done: Result<(), AssemblyError>)
        requires
            old(self).wf(),
        ensures
            final(self).wf(),
            final(self).language() == old(self).language(),
            final(self).source() == old(self).source(),
            final(self).parsed(old(self).source()),
            match done {
                Ok(()) => final(self).outcome() == Ok::<Seq<u8>, Fault>(final(self).output()),
                Err(error) => final(self).outcome() == Err::<Seq<u8>, Fault>(fault_view(&error))
                    && final(self).output().len() == 0,
            },
    {
        self.parse();
        self.complied_code = Vec::new();
        if self.parsed_code.errors.len() > 0 {
            let first = &self.parsed_code.errors[0];
            assert(errors_view(self.parsed_code.errors@)[0] == fault_view(first));
            return Err(
                AssemblyError { kind: first.kind, line: first.line, text: first.text.clone() },
            );
        }
        assert(errors_view(self.parsed_code.errors@).len() == 0);
        let ghost before = self.parsed_code;
        match self.parsed_code.assemble(&self.language_def) {
            Ok(bytes) => {
                proof {
                    lemma_assembly_idempotent(
                        &self.language_def,
                        before.lines@,
                        before.commands@,
                        self.parsed_code.commands@,
                        before.vars@,
                        self.parsed_code.vars@,
                    );
                    lemma_parsed_stays(&self.language_def, &before, &self.parsed_code);
                }
                self.complied_code = bytes;
                Ok(())
            },
            Err(error) => {
                proof {
                    lemma_assembly_idempotent(
                        &self.language_def,
                        before.lines@,
                        before.commands@,
                        self.parsed_code.commands@,
                        before.vars@,
                        self.parsed_code.vars@,
                    );
                    lemma_parsed_stays(&self.language_def, &before, &self.parsed_code);
                }
                Err(error)
            },
        }
    }

    /// Loads a source and compiles it.
    pub fn compile_from_str(&mut self, source: &str) -> (done: Result<(), AssemblyError>)
        requires
            old(self).wf(),
        ensures
            final(self).wf(),
            final(self).language() == old(self).language(),
            final(self).source() == source@,
            final(self).parsed(source@),
            match done {
                Ok(()) => final(self).outcome() == Ok::<Seq<u8>, Fault>(final(self).output()),
                Err(error) => final(self).outcome() == Err::<Seq<u8>, Fault>(fault_view(&error))
                    && final(self).output().len() == 0,
            },
    {
        self.load_from_str(source);
        self.compile()
    }

    /// The machine code that was compiled last.
    pub fn get_bin(&self) -> (bytes: &Vec<u8>)
        ensures
            bytes@ == self.output(),
    {
        &self.complied_code
    }

    /// The machine code in hexadecimal, two digits for each byte.
    pub fn get_bin_as_hex(&self) -> (text: String)
        ensures
            text@ == hex_text(self.output()),
    {
        to_hex(&self.complied_code)
    }

    /// The machine code in binary, eight digits for each byte.
    pub fn get_bin_as_bin(&self) -> (text: String)
        ensures
            text@ == binary_text(self.output()),
    {
        to_binary(&self.complied_code)
    }

    /// The unit that the source was parsed into.
    pub fn parsed_code(&self) -> (unit: &ParsedCode)
        ensures
            unit == self.unit(),
    {
        &self.parsed_code
    }

    /// The language that the assembler reads.
    pub fn language_def(&self) -> (def: &LanguageDefinition)
        ensures
            def == self.language(),
    {
        &self.language_def
    }
}

/// A unit that was parsed is still what parsing gives once it is resolved:
/// resolving changes no line, and of a command and of a piece of data only the
/// address and the values.
pub proof fn lemma_parsed_stays(def: &LanguageDefinition, before: &ParsedCode, after: &ParsedCode)
    requires
        before.parsed_with(def),
        after.lines == before.lines,
        after.errors == before.errors,
        commands_keep_source(before.commands@, after.commands@),
        vars_keep_source(before.vars@, after.vars@),
    ensures
        after.parsed_with(def),
{
    assert forall|i: int| 0 <= i < after.lines@.len() implies line_settled(
        def,
        after.lines@,
        after.commands@,
        after.vars@,
        i,
    ) by {
        assert(line_settled(
            def,
            before.lines@,
            before.commands@,
            before.vars@,
            i,
        ));
    }
}

impl Default for Complier {
    /// An assembler for the default language.
    fn default() -> (made: Complier)
        ensures
            made.wf(),
            made.is_fresh(),
            is_default_processor(&made.language().processor_def),
            made.language().commands@.len() == 49,
            all_default(made.language().commands@),
            texts_view(made.language().regex_list@) == default_line_patterns(),
    {
        Complier::new(LanguageDefinition::default())
    }
}

} // verus!
