//! The parts of an assembly unit, and parsing a source into one: every line is
//! split into its parts, its command is matched and its directive is read.
use vstd::prelude::*;
use vstd::string::{StringExecFns, StringSliceAdditionalSpecFns};
use crate::compile::data::{data_of, directive_data};
use crate::compile::error::{AssemblyError, ErrorKind};
use crate::compile::matching::{command_outcome, find_mnemonic, find_variant};
use crate::compile::matching::{lemma_command_outcome, lemma_operand_texts_len};
use crate::compile::matching::operands_from_groups;
use crate::compile::pattern::search;
use crate::compile::text::{blank_text, chars_of, is_blank_text, is_digit, letter_run};
use crate::compile::text::same_text;
use crate::compile::text::{source_lines, split_lines, texts_view};
use crate::compile::tokenize::{find_section, first_section, line_sections, sections_from_groups};
use crate::definitions::language::LanguageDefinition;
use crate::definitions::processor::SegType;

verus! {

/// The kinds of part that a line can show.
#[derive(Debug, PartialEq, Eq, Clone, Copy, Structural)]
pub enum SectionType {
    Comment,
    Label,
    OpCode,
    Command,
    Operand,
    ComplierMark,
    Literal,
}

impl Default for SectionType {
    fn default() -> (kind: SectionType)
        ensures
            kind == SectionType::Comment,
    {
        SectionType::Comment
    }
}

/// The kind of part that a capture group with this name gives: one of the
/// names `comment`, `label`, `opc`, `compliemark`, `literal` and `command`, or,
/// for an operand, a name that starts with `op` and ends with a digit.
pub open spec fn section_type(name: Seq<char>) -> Option<SectionType> {
    if name == "comment"@ {
        Some(SectionType::Comment)
    } else if name == "label"@ {
        Some(SectionType::Label)
    } else if name == "opc"@ {
        Some(SectionType::OpCode)
    } else if name == "compliemark"@ {
        Some(SectionType::ComplierMark)
    } else if name == "literal"@ {
        Some(SectionType::Literal)
    } else if name == "command"@ {
        Some(SectionType::Command)
    } else if name.len() >= 2 && name[0] == 'o' && name[1] == 'p' && is_digit(name.last()) {
        Some(SectionType::Operand)
    } else {
        None
    }
}

impl SectionType {
    /// The kind of part that a capture group with this name gives, or a
    /// message that says that the name is unknown.
    pub fn from_name(s: &str) -> (kind: Result<SectionType, String>)
        ensures
            match kind {
                Ok(k) => section_type(s@) == Some(k),
                Err(message) => section_type(s@) is None && message@ == "\""@ + s@
                    + "\": is an unknown type for SectionType"@,
            },
    {
        if same_text(s, "comment") {
            Ok(SectionType::Comment)
        } else if same_text(s, "label") {
            Ok(SectionType::Label)
        } else if same_text(s, "opc") {
            Ok(SectionType::OpCode)
        } else if same_text(s, "compliemark") {
            Ok(SectionType::ComplierMark)
        } else if same_text(s, "literal") {
            Ok(SectionType::Literal)
        } else if same_text(s, "command") {
            Ok(SectionType::Command)
        } else {
            let chars = chars_of(s);
            let n = chars.len();
            if n >= 2 && chars[0] == 'o' && chars[1] == 'p' && '0' <= chars[n - 1] && chars[n - 1]
                <= '9' {
                Ok(SectionType::Operand)
            } else {
                let mut message = String::from_str("\"");
                message.append(s);
                message.append("\": is an unknown type for SectionType");
                Err(message)
            }
        }
    }
}

impl core::str::FromStr for SectionType {
    type Err = String;

    /// The kind of part that a capture group with this name gives, or a
    /// message that says that the name is unknown.
    fn from_str(s: &str) -> (kind: Result<SectionType, String>)
        ensures
            match kind {
                Ok(k) => section_type(s@) == Some(k),
                Err(message) => section_type(s@) is None && message@ == "\""@ + s@
                    + "\": is an unknown type for SectionType"@,
            },
    {
        SectionType::from_name(s)
    }
}

/// What an operand stands for once it is resolved.
#[derive(Debug, Clone, Copy, PartialEq, Eq, Structural)]
pub struct OperandValue {
    pub value: i64,
    /// Whether the value is a distance to a label, which is signed, rather
    /// than a number, a register or a register list.
    pub relative: bool,
}

/// A command that was matched against a shape of its mnemonic.
#[derive(Debug, Default)]
pub struct ParsedCommand {
    /// The mnemonic, as the language writes it.
    pub op_code: String,
    /// Where the instruction stands, in bytes from the start of the unit.
    pub address: u32,
    /// The id of the format that the instruction is encoded in.
    pub format: i32,
    /// One entry for each field of the format that takes an operand: the role
    /// of the field and the text of the operand.
    pub operands: Vec<(SegType, String)>,
    /// The position of the line that holds the command.
    pub line: usize,
    /// What the operands stand for, once the labels are resolved.
    pub values: Vec<OperandValue>,
}

/// A label with the address that it names.
#[derive(Debug, Default)]
pub struct ParsedLabel {
    pub name: String,
    pub address: u32,
}

/// Data that a directive declares.
#[derive(Debug, Default)]
pub struct ParsedVar {
    /// The label of the line, or the empty string.
    pub label: String,
    /// Where the data stands, in bytes from the start of the unit.
    pub address: u32,
    /// The number of bytes.
    pub size: u32,
    /// The literal that the directive was given.
    pub value: String,
    /// The position of the line that holds the directive.
    pub line: usize,
    /// The bytes.
    pub bytes: Vec<u8>,
}

/// A line of the source, split into its parts.
#[derive(Debug, Default)]
pub struct ParsedLine {
    /// The line as the source has it.
    pub text: String,
    pub sections: Vec<(SectionType, String)>,
    /// The position of the line in the source, counted from zero.
    pub index: usize,
    /// The number of bytes that the line takes in the output.
    pub size: u32,
    /// Where the command of the line stands in the list of commands.
    pub command: Option<usize>,
    /// Where the data of the line stands in the list of data.
    pub var: Option<usize>,
}

/// The parts of a line as plain values.
pub open spec fn sections_view(sections: Seq<(SectionType, String)>) -> Seq<
    (SectionType, Seq<char>),
> {
    Seq::new(sections.len(), |i: int| (sections[i].0, sections[i].1@))
}

/// The operands of a command as plain values.
pub open spec fn operands_view(operands: Seq<(SegType, String)>) -> Seq<(SegType, Seq<char>)> {
    Seq::new(operands.len(), |i: int| (operands[i].0, operands[i].1@))
}

/// An assembly unit: the lines of one source with what was found in them.
#[derive(Debug)]
pub struct ParsedCode {
    pub file_name: String,
    /// The length of the source in bytes.
    pub file_size: usize,
    pub lines: Vec<ParsedLine>,
    /// The labels with their addresses, once the addresses are assigned.
    pub labels: Vec<ParsedLabel>,
    /// The data that directives declare, in the order of the lines.
    pub vars: Vec<ParsedVar>,
    /// The commands, in the order of the lines.
    pub commands: Vec<ParsedCommand>,
    /// The lines that could not be split or matched.
    pub errors: Vec<AssemblyError>,
}

impl Default for ParsedCode {
    /// A unit without lines.
    fn default() -> (code: ParsedCode)
        ensures
            code.file_name@.len() == 0,
            code.file_size == 0,
            code.lines@.len() == 0,
            code.labels@.len() == 0,
            code.vars@.len() == 0,
            code.commands@.len() == 0,
            code.errors@.len() == 0,
    {
        ParsedCode {
            file_name: String::new(),
            file_size: 0,
            lines: Vec::new(),
            labels: Vec::new(),
            vars: Vec::new(),
            commands: Vec::new(),
            errors: Vec::new(),
        }
    }
}

impl ParsedCode {
    /// Splits a line into its parts: every pattern of the language is held
    /// against the line, and every named group of a pattern that matches gives
    /// a part.
    pub fn parse_line(&self, line: &str, def: &LanguageDefinition) -> (parsed: ParsedLine)
        ensures
            sections_view(parsed.sections@) == line_sections(
                def.regex_list@,
                line@,
                def.regex_list@.len() as int,
            ),
            parsed.text@ == line@,
            parsed.index == self.lines@.len(),
            parsed.size == 0,
            parsed.command is None,
            parsed.var is None,
    {
        let n = def.regex_list.len();
        let mut sections: Vec<(SectionType, String)> = Vec::new();
        let mut i: usize = 0;
        assert(sections_view(sections@) =~= Seq::empty());
        while i < n
            invariant
                n == def.regex_list@.len(),
                i <= n,
                sections_view(sections@) == line_sections(def.regex_list@, line@, i as int),
            decreases n - i,
        {
            let ghost before = sections@;
            match search(def.regex_list[i].as_str(), line) {
                Some(groups) => {
                    let mut found = sections_from_groups(&groups);
                    let ghost more = found@;
                    sections.append(&mut found);
                    assert(sections_view(sections@) =~= sections_view(before) + sections_view(
                        more,
                    ));
                },
                None => {
                    assert(sections_view(sections@) =~= sections_view(before) + Seq::empty());
                },
            }
            i += 1;
        }
        ParsedLine {
            text: line.to_owned(),
            sections,
            index: self.lines.len(),
            size: 0,
            command: None,
            var: None,
        }
    }

    /// Matches a command against the language: the word it starts with names
    /// the mnemonic, whatever the case of its letters, and the first shape of
    /// the mnemonic whose pattern matches the command gives the format and the
    /// operand texts.
    pub fn parse_command(&self, command: String, def: &LanguageDefinition) -> (parsed: Result<
        ParsedCommand,
        ErrorKind,
    >)
        ensures
            match parsed {
                Ok(found) => {
                    &&& command_outcome(def, command@) matches Ok((m, v, texts))
                    &&& 0 <= m < def.commands@.len()
                    &&& 0 <= v < def.commands@[m].1@.len()
                    &&& found.op_code@ == def.commands@[m].0@
                    &&& found.format == def.commands@[m].1@[v].format_index
                    &&& operands_view(found.operands@) == texts
                    &&& found.operands@.len() == def.commands@[m].1@[v].segments@.len()
                    &&& found.address == 0
                    &&& found.line == self.lines@.len()
                    &&& found.values@.len() == 0
                },
                Err(kind) => command_outcome(def, command@) == Err::<
                    (int, int, Seq<(SegType, Seq<char>)>),
                    ErrorKind,
                >(kind),
            },
    {
        let chars = chars_of(command.as_str());
        let run = letter_run(&chars);
        let m = match find_mnemonic(def, &chars, run) {
            Some(m) => m,
            None => {
                return Err(ErrorKind::UnknownMnemonic);
            },
        };
        let variants = &def.commands[m].1;
        let (v, groups) = match find_variant(variants, command.as_str()) {
            Some(found) => found,
            None => {
                return Err(ErrorKind::InvalidOperandSyntax);
            },
        };
        match operands_from_groups(&variants[v], &groups) {
            Some(operands) => {
                proof {
                    lemma_operand_texts_len(
                        operands_view(variants@[v as int].segments@),
                        groups.deep_view(),
                        variants@[v as int].segments@.len() as int,
                    );
                }
                Ok(
                    ParsedCommand {
                        op_code: def.commands[m].0.clone(),
                        address: 0,
                        format: variants[v].format_index,
                        operands,
                        line: self.lines.len(),
                        values: Vec::new(),
                    },
                )
            },
            None => Err(ErrorKind::InvalidOperandSyntax),
        }
    }
}

/// What a line holds.
pub enum LineItem {
    /// Nothing that takes room in the output.
    Nothing,
    /// A command: the place of its mnemonic in the language, the place of its
    /// shape among the shapes of the mnemonic, and the operand texts.
    Command(int, int, Seq<(SegType, Seq<char>)>),
    /// Data: the bytes.
    Data(Seq<u8>),
    /// An error, with the text that it is about.
    Fault(ErrorKind, Seq<char>),
}

/// What a line holds, given its text and its parts. A line without parts must
/// be blank. A line with a command holds the command; any other line with a
/// directive holds what the directive declares.
pub open spec fn line_item(def: &LanguageDefinition, line: &ParsedLine) -> LineItem {
    if line.sections@.len() == 0 {
        if is_blank_text(line.text@) {
            LineItem::Nothing
        } else {
            LineItem::Fault(ErrorKind::TokenizeError, line.text@)
        }
    } else {
        match first_section(line.sections@, SectionType::Command) {
            Some(command) => match command_outcome(def, command) {
                Ok((m, v, texts)) => LineItem::Command(m, v, texts),
                Err(kind) => LineItem::Fault(kind, command),
            },
            None => match first_section(line.sections@, SectionType::ComplierMark) {
                Some(mark) => match data_of(
                    mark,
                    first_section(line.sections@, SectionType::Literal),
                ) {
                    Ok(Some(bytes)) => if bytes.len() <= u32::MAX {
                        LineItem::Data(bytes)
                    } else {
                        LineItem::Fault(ErrorKind::OffsetOutOfRange, mark)
                    },
                    Ok(None) => LineItem::Nothing,
                    Err(kind) => LineItem::Fault(kind, mark),
                },
                None => LineItem::Nothing,
            },
        }
    }
}

/// The number of bytes that an instruction of the format with this id takes.
pub open spec fn command_size(def: &LanguageDefinition, format: i32) -> int {
    match def.processor_def.position(format) {
        Some(p) => if def.processor_def.formats@[p].long {
            4
        } else {
            2
        },
        None => 2,
    }
}

/// Whether line `i` and the command or the data that it points to are what
/// its text and its parts give.
pub open spec fn line_settled(
    def: &LanguageDefinition,
    lines: Seq<ParsedLine>,
    commands: Seq<ParsedCommand>,
    vars: Seq<ParsedVar>,
    i: int,
) -> bool {
    let line = lines[i];
    &&& line.index == i
    &&& sections_view(line.sections@) == line_sections(
        def.regex_list@,
        line.text@,
        def.regex_list@.len() as int,
    )
    &&& match line_item(def, &line) {
        LineItem::Command(m, v, texts) => {
            &&& line.var is None
            &&& line.command matches Some(k) && k < commands.len() && {
                let found = commands[k as int];
                &&& found.line == i
                &&& found.op_code@ == def.commands@[m].0@
                &&& found.format == def.commands@[m].1@[v].format_index
                &&& operands_view(found.operands@) == texts
                &&& found.operands@.len() == def.commands@[m].1@[v].segments@.len()
                &&& line.size == command_size(def, found.format)
            }
        },
        LineItem::Data(bytes) => {
            &&& line.command is None
            &&& line.size == bytes.len()
            &&& line.var matches Some(k) && k < vars.len() && {
                let found = vars[k as int];
                &&& found.line == i
                &&& found.bytes@ == bytes
                &&& found.size == bytes.len()
                &&& Some(found.value@) == first_section(line.sections@, SectionType::Literal)
                &&& found.label@ == match first_section(line.sections@, SectionType::Label) {
                    Some(label) => label,
                    None => Seq::empty(),
                }
            }
        },
        _ => line.command is None && line.var is None && line.size == 0,
    }
}

/// The errors of the first `n` lines, each with its kind, its line and the
/// text that it is about.
pub open spec fn faults_upto(def: &LanguageDefinition, lines: Seq<ParsedLine>, n: int) -> Seq<
    (ErrorKind, int, Seq<char>),
>
    decreases n,
{
    if n <= 0 {
        Seq::empty()
    } else {
        match line_item(def, &lines[n - 1]) {
            LineItem::Fault(kind, text) => faults_upto(def, lines, n - 1).push((kind, n - 1, text)),
            _ => faults_upto(def, lines, n - 1),
        }
    }
}

/// Errors as plain values.
pub open spec fn errors_view(errors: Seq<AssemblyError>) -> Seq<(ErrorKind, int, Seq<char>)> {
    Seq::new(errors.len(), |i: int| (errors[i].kind, errors[i].line as int, errors[i].text@))
}

/// Whether every line is what its text gives, and every command and every
/// piece of data belongs to the line that points to it.
pub open spec fn unit_parsed(
    def: &LanguageDefinition,
    lines: Seq<ParsedLine>,
    commands: Seq<ParsedCommand>,
    vars: Seq<ParsedVar>,
) -> bool {
    &&& forall|i: int| 0 <= i < lines.len() ==> line_settled(def, lines, commands, vars, i)
    &&& forall|k: int|
        0 <= k < commands.len() ==> (#[trigger] commands[k]).line < lines.len() && (
        lines[commands[k].line as int].command matches Some(c) && c == k)
    &&& forall|k: int|
        0 <= k < vars.len() ==> (#[trigger] vars[k]).line < lines.len() && (
        lines[vars[k].line as int].var matches Some(v) && v == k)
}

/// What one line was found to hold.
pub enum Found {
    Nothing,
    Command(ParsedCommand),
    Data(ParsedVar),
    Fault(AssemblyError),
}

impl ParsedCode {
    /// Finds what a line holds: its command, matched against the language, or
    /// the data that its directive declares.
    pub fn examine(&self, line: &ParsedLine, def: &LanguageDefinition) -> (found: Found)
        ensures
            match found {
                Found::Nothing => line_item(def, line) is Nothing,
                Found::Command(cmd) => {
                    &&& line_item(def, line) matches LineItem::Command(m, v, texts)
                    &&& 0 <= m < def.commands@.len()
                    &&& 0 <= v < def.commands@[m].1@.len()
                    &&& cmd.line == line.index
                    &&& cmd.op_code@ == def.commands@[m].0@
                    &&& cmd.format == def.commands@[m].1@[v].format_index
                    &&& operands_view(cmd.operands@) == texts
                    &&& cmd.operands@.len() == def.commands@[m].1@[v].segments@.len()
                    &&& cmd.address == 0
                    &&& cmd.values@.len() == 0
                },
                Found::Data(var) => {
                    &&& line_item(def, line) matches LineItem::Data(bytes)
                    &&& var.line == line.index
                    &&& var.bytes@ == bytes
                    &&& var.size == bytes.len()
                    &&& var.address == 0
                    &&& Some(var.value@) == first_section(line.sections@, SectionType::Literal)
                    &&& var.label@ == match first_section(line.sections@, SectionType::Label) {
                        Some(label) => label,
                        None => Seq::empty(),
                    }
                },
                Found::Fault(error) => {
                    &&& line_item(def, line) matches LineItem::Fault(kind, text)
                    &&& error.kind == kind
                    &&& error.line == line.index
                    &&& error.text@ == text
                },
            },
    {
        if line.sections.len() == 0 {
            let chars = chars_of(line.text.as_str());
            if blank_text(&chars) {
                return Found::Nothing;
            }
            return Found::Fault(
                AssemblyError {
                    kind: ErrorKind::TokenizeError,
                    line: line.index,
                    text: line.text.clone(),
                },
            );
        }
        match find_section(&line.sections, SectionType::Command) {
            Some(command) => match self.parse_command(command.clone(), def) {
                Ok(matched) => {
                    let mut cmd = matched;
                    cmd.line = line.index;
                    Found::Command(cmd)
                },
                Err(kind) => Found::Fault(
                    AssemblyError { kind, line: line.index, text: command.clone() },
                ),
            },
            None => match find_section(&line.sections, SectionType::ComplierMark) {
                Some(mark) => {
                    let literal = find_section(&line.sections, SectionType::Literal);
                    match directive_data(mark.as_str(), literal) {
                        Ok(Some(bytes)) => {
                            if bytes.len() > u32::MAX as usize {
                                return Found::Fault(
                                    AssemblyError {
                                        kind: ErrorKind::OffsetOutOfRange,
                                        line: line.index,
                                        text: mark.clone(),
                                    },
                                );
                            }
                            let label = match find_section(&line.sections, SectionType::Label) {
                                Some(label) => label.clone(),
                                None => String::new(),
                            };
                            let value = match literal {
                                Some(text) => text.clone(),
                                None => String::new(),
                            };
                            Found::Data(
                                ParsedVar {
                                    label,
                                    address: 0,
                                    size: bytes.len() as u32,
                                    value,
                                    line: line.index,
                                    bytes,
                                },
                            )
                        },
                        Ok(None) => Found::Nothing,
                        Err(kind) => Found::Fault(
                            AssemblyError { kind, line: line.index, text: mark.clone() },
                        ),
                    }
                },
                None => Found::Nothing,
            },
        }
    }
}

/// Whether `longer` starts with the elements of `shorter`.
pub open spec fn extends<T>(longer: Seq<T>, shorter: Seq<T>) -> bool {
    &&& shorter.len() <= longer.len()
    &&& forall|i: int| 0 <= i < shorter.len() ==> longer[i] == shorter[i]
}

/// A line that is settled stays so when lines, commands and data are added.
pub proof fn lemma_line_settled_grows(
    def: &LanguageDefinition,
    lines: Seq<ParsedLine>,
    commands: Seq<ParsedCommand>,
    vars: Seq<ParsedVar>,
    more_lines: Seq<ParsedLine>,
    more_commands: Seq<ParsedCommand>,
    more_vars: Seq<ParsedVar>,
    i: int,
)
    requires
        0 <= i < lines.len(),
        line_settled(def, lines, commands, vars, i),
        extends(more_lines, lines),
        extends(more_commands, commands),
        extends(more_vars, vars),
    ensures
        line_settled(def, more_lines, more_commands, more_vars, i),
{
    assert(more_lines[i] == lines[i]);
}

/// The errors of the first lines do not depend on the lines that follow.
pub proof fn lemma_faults_upto_grows(
    def: &LanguageDefinition,
    lines: Seq<ParsedLine>,
    more_lines: Seq<ParsedLine>,
    n: int,
)
    requires
        0 <= n <= lines.len(),
        extends(more_lines, lines),
    ensures
        faults_upto(def, more_lines, n) == faults_upto(def, lines, n),
    decreases n,
{
    if n > 0 {
        lemma_faults_upto_grows(def, lines, more_lines, n - 1);
        assert(more_lines[n - 1] == lines[n - 1]);
    }
}

/// The number of bytes that an instruction of the format with this id takes.
pub fn size_of_command(def: &LanguageDefinition, format: i32) -> (size: u32)
    ensures
        size == command_size(def, format),
{
    match def.processor_def.find_format(format) {
        Some(p) => if def.processor_def.formats[p].long {
            4
        } else {
            2
        },
        None => 2,
    }
}

impl ParsedCode {
    /// Whether the unit holds what parsing with `def` gives for the texts of
    /// its lines.
    pub open spec fn parsed_with(&self, def: &LanguageDefinition) -> bool {
        &&& unit_parsed(def, self.lines@, self.commands@, self.vars@)
        &&& errors_view(self.errors@) == faults_upto(def, self.lines@, self.lines@.len() as int)
    }

    /// Replaces the unit by what the source gives: every line is split into
    /// its parts, its command is matched and its directive is read. A line that
    /// fails is noted among the errors, and the lines after it are still read.
    pub fn parse_from_str(&mut self, file_name: &str, contents: &str, def: &LanguageDefinition)
        ensures
            final(self).file_name@ == file_name@,
            final(self).file_size == contents.spec_bytes().len(),
            final(self).lines@.len() == source_lines(contents@).len(),
            forall|i: int|
                0 <= i < final(self).lines@.len() ==> (#[trigger] final(self).lines@[i]).text@
                    == source_lines(contents@)[i],
            final(self).parsed_with(def),
            final(self).labels@.len() == 0,
    {
        self.file_name = file_name.to_owned();
        self.file_size = contents.as_bytes().len();
        self.lines = Vec::new();
        self.labels = Vec::new();
        self.vars = Vec::new();
        self.commands = Vec::new();
        self.errors = Vec::new();
        let texts = split_lines(contents);
        let n = texts.len();
        let mut i: usize = 0;
        assert(errors_view(self.errors@) =~= Seq::empty());
        assert(texts_view(texts@).len() == n);
        while i < n
            invariant
                n == texts@.len(),
                texts_view(texts@) == source_lines(contents@),
                i <= n,
                self.lines@.len() == i,
                self.file_name@ == file_name@,
                self.file_size == contents.spec_bytes().len(),
                self.labels@.len() == 0,
                forall|j: int|
                    0 <= j < i ==> (#[trigger] self.lines@[j]).text@ == source_lines(contents@)[j],
                self.parsed_with(def),
            decreases n - i,
        {
            let ghost lines = self.lines@;
            let ghost commands = self.commands@;
            let ghost vars = self.vars@;
            let ghost errors = errors_view(self.errors@);
            assert(texts_view(texts@)[i as int] == texts@[i as int]@);
            let mut line = self.parse_line(texts[i].as_str(), def);
            let ghost item = line_item(def, &line);
            match self.examine(&line, def) {
                Found::Nothing => {},
                Found::Command(found) => {
                    line.size = size_of_command(def, found.format);
                    line.command = Some(self.commands.len());
                    self.commands.push(found);
                },
                Found::Data(found) => {
                    line.size = found.size;
                    line.var = Some(self.vars.len());
                    self.vars.push(found);
                },
                Found::Fault(error) => {
                    self.errors.push(error);
                    assert(errors_view(self.errors@) =~= errors.push(
                        (error.kind, i as int, error.text@),
                    ));
                },
            }
            assert(line_item(def, &line) == item);
            self.lines.push(line);
            proof {
                assert(extends(self.lines@, lines));
                assert(extends(self.commands@, commands));
                assert(extends(self.vars@, vars));
                assert forall|j: int| 0 <= j < self.lines@.len() implies line_settled(
                    def,
                    self.lines@,
                    self.commands@,
                    self.vars@,
                    j,
                ) by {
                    if j < i {
                        lemma_line_settled_grows(
                            def,
                            lines,
                            commands,
                            vars,
                            self.lines@,
                            self.commands@,
                            self.vars@,
                            j,
                        );
                    }
                }
                lemma_faults_upto_grows(def, lines, self.lines@, i as int);
            }
            i += 1;
        }
    }
}

/// In a unit that was parsed with a well-formed language, every command fits
/// its format: the processor has the format, and the command has one operand
/// for each field of the format that takes one, role by role.
pub proof fn lemma_parsed_commands_fit(
    def: &LanguageDefinition,
    lines: Seq<ParsedLine>,
    commands: Seq<ParsedCommand>,
    vars: Seq<ParsedVar>,
    k: int,
)
    requires
        def.wf(),
        unit_parsed(def, lines, commands, vars),
        0 <= k < commands.len(),
    ensures
        def.processor_def.position(commands[k].format) matches Some(p) && {
            let format = def.processor_def.formats@[p];
            &&& commands[k].operands@.len() == format.operand_count()
            &&& forall|i: int|
                0 <= i < format.segments@.len() && format.takes_operand(i)
                    ==> commands[k].operands@[format.operands_before(i)].0
                    == (#[trigger] format.segments@[i]).seg_type
        },
{
    let i = commands[k].line as int;
    assert(lines[i].command matches Some(c) && c == k);
    assert(line_settled(def, lines, commands, vars, i));
    let command = first_section(lines[i].sections@, SectionType::Command)->0;
    lemma_command_outcome(def, command);
    match line_item(def, &lines[i]) {
        LineItem::Command(m, v, texts) => {
            let variant = def.commands@[m].1@[v];
            assert(def.variant_ok(&variant));
            let p = def.processor_def.position(variant.format_index)->0;
            let format = def.processor_def.formats@[p];
            assert forall|j: int|
                0 <= j < format.segments@.len() && format.takes_operand(
                    j,
                ) implies commands[k].operands@[format.operands_before(j)].0
                == (#[trigger] format.segments@[j]).seg_type by {
                format.lemma_operands_before_bounds(j);
                format.lemma_operands_before_monotone(j, format.segments@.len() as int);
                let at = format.operands_before(j);
                assert(operands_view(commands[k].operands@)[at] == texts[at]);
            }
        },
        _ => {},
    }
}

} // verus!
