//! The two passes that give every label its address and every operand its
//! value.
use vstd::prelude::*;
use crate::compile::error::{AssemblyError, ErrorKind};
use crate::compile::parse_code::{line_settled, OperandValue};
use crate::compile::parse_code::{ParsedCode, ParsedCommand, ParsedLabel, ParsedLine, ParsedVar};
use crate::compile::parse_code::SectionType;
use crate::compile::text::{chars_of, is_list, is_name, is_name_char, is_name_start};
use crate::compile::text::{is_radix_digit, list_bits, name, number, parse_list, parse_number};
use crate::compile::text::{parse_register, register, NumberFault, NUMBER_LIMIT};
use crate::compile::tokenize::{find_section, first_section};
use crate::definitions::bits::{lemma_pow2_monotone, pow2, two_pow};
use crate::definitions::language::LanguageDefinition;
use crate::definitions::processor::SegType;

verus! {

/// An error as plain values: its kind, its line and the text it is about.
pub type Fault = (ErrorKind, int, Seq<char>);

/// The labels of a unit as plain values: names with their addresses.
pub type Symbols = Seq<(Seq<char>, int)>;

/// Where line `i` starts, in bytes from the start of the unit: the sizes of
/// the lines before it, added up.
pub open spec fn address_of(lines: Seq<ParsedLine>, i: int) -> int
    decreases i,
{
    if i <= 0 {
        0
    } else {
        address_of(lines, i - 1) + lines[i - 1].size
    }
}

/// The label that a line defines.
pub open spec fn label_of(line: &ParsedLine) -> Option<Seq<char>> {
    first_section(line.sections@, SectionType::Label)
}

/// The address that `name` has among the symbols.
pub open spec fn lookup(symbols: Symbols, name: Seq<char>) -> Option<int>
    decreases symbols.len(),
{
    if symbols.len() == 0 {
        None
    } else if symbols.last().0 == name {
        Some(symbols.last().1)
    } else {
        lookup(symbols.drop_last(), name)
    }
}

/// The first pass over the first `n` lines: the labels that they define, each
/// with the address of its line, or the first error. A label that is defined
/// before is an error, and so is a line that ends beyond the last address.
pub open spec fn layout_upto(lines: Seq<ParsedLine>, n: int) -> Result<Symbols, Fault>
    decreases n,
{
    if n <= 0 {
        Ok(Seq::empty())
    } else {
        match layout_upto(lines, n - 1) {
            Err(fault) => Err(fault),
            Ok(symbols) => {
                let line = lines[n - 1];
                let defined = match label_of(&line) {
                    Some(name) => lookup(symbols, name) is Some,
                    None => false,
                };
                if defined {
                    Err((ErrorKind::DuplicateSymbol, n - 1, label_of(&line)->0))
                } else if address_of(lines, n) > u32::MAX {
                    Err((ErrorKind::OffsetOutOfRange, n - 1, line.text@))
                } else {
                    match label_of(&line) {
                        Some(name) => Ok(symbols.push((name, address_of(lines, n - 1)))),
                        None => Ok(symbols),
                    }
                }
            },
        }
    }
}

/// The first pass over a unit.
pub open spec fn layout(lines: Seq<ParsedLine>) -> Result<Symbols, Fault> {
    layout_upto(lines, lines.len() as int)
}

/// How a distance to a label is measured for an instruction.
#[derive(Debug, Clone, Copy, PartialEq, Eq, Structural)]
pub struct Reach {
    /// How far the program counter is ahead of the instruction, in bytes.
    pub bias: u32,
    /// The number of low bits of the distance that are dropped.
    pub shift: u32,
}

/// How a distance is measured for an instruction of the format with this id:
/// as the format says, or in bytes from the instruction where the processor
/// has no such format.
pub open spec fn reach_of(def: &LanguageDefinition, format: i32) -> Reach {
    match def.processor_def.position(format) {
        Some(p) => Reach {
            bias: def.processor_def.formats@[p].pc_bias,
            shift: def.processor_def.formats@[p].shift,
        },
        None => Reach { bias: 0, shift: 0 },
    }
}

/// How a distance is measured for each command.
pub open spec fn reaches_of(def: &LanguageDefinition, commands: Seq<ParsedCommand>) -> Seq<Reach> {
    Seq::new(commands.len(), |k: int| reach_of(def, commands[k].format))
}

/// What an operand stands for at an instruction at `address`: the number of a
/// register within its half, the byte of a register list, a number, or, for a
/// name, the distance from the program counter to the label. The program
/// counter is `reach.bias` bytes ahead of the instruction, and the distance is
/// divided by two to the power `reach.shift`, rounded down.
pub open spec fn operand_value(
    text: Seq<char>,
    symbols: Symbols,
    address: int,
    reach: Reach,
) -> Result<OperandValue, ErrorKind> {
    match register(text) {
        Some(r) => Ok(OperandValue { value: r.spec_field() as i64, relative: false }),
        None => if is_list(text) {
            Ok(OperandValue { value: list_bits(text, 8) as i64, relative: false })
        } else {
            match number(text) {
                Some(n) => if -NUMBER_LIMIT <= n <= NUMBER_LIMIT {
                    Ok(OperandValue { value: n as i64, relative: false })
                } else {
                    Err(ErrorKind::ImmediateOverflow)
                },
                None => if is_name(text) {
                    match lookup(symbols, text) {
                        Some(target) => Ok(
                            OperandValue {
                                value: ((target - (address + reach.bias)) / pow2(
                                    reach.shift as nat,
                                ) as int) as i64,
                                relative: true,
                            },
                        ),
                        None => Err(ErrorKind::UndefinedSymbol),
                    }
                } else {
                    Err(ErrorKind::InvalidOperandSyntax)
                },
            }
        },
    }
}

/// The values of the first `n` operands, or the place and the kind of the
/// first error among them.
pub open spec fn values_upto(
    operands: Seq<(SegType, String)>,
    symbols: Symbols,
    address: int,
    reach: Reach,
    n: int,
) -> Result<Seq<OperandValue>, (int, ErrorKind)>
    decreases n,
{
    if n <= 0 {
        Ok(Seq::empty())
    } else {
        match values_upto(operands, symbols, address, reach, n - 1) {
            Err(fault) => Err(fault),
            Ok(values) => match operand_value(operands[n - 1].1@, symbols, address, reach) {
                Ok(value) => Ok(values.push(value)),
                Err(kind) => Err((n - 1, kind)),
            },
        }
    }
}

/// The address of the line of each command.
pub open spec fn line_addresses(lines: Seq<ParsedLine>, commands: Seq<ParsedCommand>) -> Seq<int> {
    Seq::new(commands.len(), |k: int| address_of(lines, commands[k].line as int))
}

/// The address that each command holds.
pub open spec fn own_addresses(commands: Seq<ParsedCommand>) -> Seq<int> {
    Seq::new(commands.len(), |k: int| commands[k].address as int)
}

/// The second pass over the first `n` commands, each at its address and with
/// its way to measure distances: the values of their operands, or the first
/// error.
pub open spec fn resolve_upto(
    commands: Seq<ParsedCommand>,
    addresses: Seq<int>,
    reaches: Seq<Reach>,
    symbols: Symbols,
    n: int,
) -> Result<Seq<Seq<OperandValue>>, Fault>
    decreases n,
{
    if n <= 0 {
        Ok(Seq::empty())
    } else {
        match resolve_upto(commands, addresses, reaches, symbols, n - 1) {
            Err(fault) => Err(fault),
            Ok(done) => {
                let command = commands[n - 1];
                match values_upto(
                    command.operands@,
                    symbols,
                    addresses[n - 1],
                    reaches[n - 1],
                    command.operands@.len() as int,
                ) {
                    Ok(values) => Ok(done.push(values)),
                    Err((j, kind)) => Err((kind, command.line as int, command.operands@[j].1@)),
                }
            },
        }
    }
}

/// Both passes: the symbols and the values of the operands of every command,
/// or the first error. The second pass starts when the first is done, so that
/// a label may be used before the line that defines it.
pub open spec fn resolution(
    def: &LanguageDefinition,
    lines: Seq<ParsedLine>,
    commands: Seq<ParsedCommand>,
) -> Result<(Symbols, Seq<Seq<OperandValue>>), Fault> {
    match layout(lines) {
        Err(fault) => Err(fault),
        Ok(symbols) => match resolve_upto(
            commands,
            line_addresses(lines, commands),
            reaches_of(def, commands),
            symbols,
            commands.len() as int,
        ) {
            Err(fault) => Err(fault),
            Ok(values) => Ok((symbols, values)),
        },
    }
}

/// Labels as plain values.
pub open spec fn symbols_view(labels: Seq<ParsedLabel>) -> Symbols {
    Seq::new(labels.len(), |i: int| (labels[i].name@, labels[i].address as int))
}

/// An error as plain values.
pub open spec fn fault_view(error: &AssemblyError) -> Fault {
    (error.kind, error.line as int, error.text@)
}

/// The address that a name has among the labels.
pub fn lookup_symbol(labels: &Vec<ParsedLabel>, name: &String) -> (found: Option<u32>)
    ensures
        match found {
            Some(address) => lookup(symbols_view(labels@), name@) == Some(address as int),
            None => lookup(symbols_view(labels@), name@) is None,
        },
{
    let mut i = labels.len();
    let ghost symbols = symbols_view(labels@);
    assert(symbols.take(i as int) =~= symbols);
    while i > 0
        invariant
            i <= labels@.len(),
            symbols == symbols_view(labels@),
            lookup(symbols, name@) == lookup(symbols.take(i as int), name@),
        decreases i,
    {
        i -= 1;
        assert(symbols.take(i + 1).drop_last() =~= symbols.take(i as int));
        assert(symbols.take(i + 1).last() == symbols[i as int]);
        if labels[i].name == *name {
            return Some(labels[i].address);
        }
    }
    None
}

/// How a distance is measured for an instruction of the format with this id.
pub fn reach_for(def: &LanguageDefinition, format: i32) -> (reach: Reach)
    requires
        def.processor_def.wf(),
    ensures
        reach == reach_of(def, format),
        reach.shift < 32,
{
    match def.processor_def.format(format) {
        Some(found) => {
            assert(def.processor_def.formats@[def.processor_def.position(format)->0].wf());
            Reach { bias: found.pc_bias, shift: found.shift }
        },
        None => Reach { bias: 0, shift: 0 },
    }
}

/// What an operand stands for at an instruction at `address`.
pub fn resolve_operand(
    text: &String,
    labels: &Vec<ParsedLabel>,
    address: u32,
    reach: Reach,
) -> (resolved: Result<OperandValue, ErrorKind>)
    requires
        reach.shift < 32,
    ensures
        resolved == operand_value(text@, symbols_view(labels@), address as int, reach),
{
    let chars = chars_of(text.as_str());
    match parse_register(&chars) {
        Some(r) => {
            return Ok(OperandValue { value: r.field() as i64, relative: false });
        },
        None => {},
    }
    if chars.len() > 0 && chars[0] == '{' {
        return Ok(OperandValue { value: parse_list(&chars) as i64, relative: false });
    }
    match parse_number(&chars) {
        Ok(n) => Ok(OperandValue { value: n, relative: false }),
        Err(NumberFault::TooLarge) => Err(ErrorKind::ImmediateOverflow),
        Err(NumberFault::Malformed) => {
            if name(&chars) {
                match lookup_symbol(labels, text) {
                    Some(target) => {
                        let distance: i64 = target as i64 - (address as i64 + reach.bias as i64);
                        let unit: i64 = two_pow(reach.shift) as i64;
                        proof {
                            lemma_pow2_monotone(0, reach.shift as nat);
                            lemma_floor_division(distance as int, unit as int);
                        }
                        let steps: i64 = if distance >= 0 {
                            distance / unit
                        } else {
                            -((unit - 1 - distance) / unit)
                        };
                        Ok(OperandValue { value: steps, relative: true })
                    },
                    None => Err(ErrorKind::UndefinedSymbol),
                }
            } else {
                Err(ErrorKind::InvalidOperandSyntax)
            }
        },
    }
}

/// The values of the operands of a command at `address`, or the place and the
/// kind of the first error among them.
pub fn resolve_command(
    operands: &Vec<(SegType, String)>,
    labels: &Vec<ParsedLabel>,
    address: u32,
    reach: Reach,
) -> (resolved: Result<Vec<OperandValue>, (usize, ErrorKind)>)
    requires
        reach.shift < 32,
    ensures
        match resolved {
            Ok(values) => values_upto(
                operands@,
                symbols_view(labels@),
                address as int,
                reach,
                operands@.len() as int,
            ) == Ok::<Seq<OperandValue>, (int, ErrorKind)>(values@),
            Err((j, kind)) => j < operands@.len() && values_upto(
                operands@,
                symbols_view(labels@),
                address as int,
                reach,
                operands@.len() as int,
            ) == Err::<Seq<OperandValue>, (int, ErrorKind)>((j as int, kind)),
        },
{
    let n = operands.len();
    let mut values: Vec<OperandValue> = Vec::new();
    let mut j: usize = 0;
    while j < n
        invariant
            n == operands@.len(),
            j <= n,
            reach.shift < 32,
            values_upto(operands@, symbols_view(labels@), address as int, reach, j as int)
                == Ok::<Seq<OperandValue>, (int, ErrorKind)>(values@),
        decreases n - j,
    {
        match resolve_operand(&operands[j].1, labels, address, reach) {
            Ok(value) => {
                values.push(value);
            },
            Err(kind) => {
                proof {
                    lemma_values_upto_err(
                        operands@,
                        symbols_view(labels@),
                        address as int,
                        reach,
                        j + 1,
                        n as int,
                    );
                }
                return Err((j, kind));
            },
        }
        j += 1;
    }
    Ok(values)
}

/// An error among the first operands is the error of the whole list.
pub proof fn lemma_values_upto_err(
    operands: Seq<(SegType, String)>,
    symbols: Symbols,
    address: int,
    reach: Reach,
    failed: int,
    n: int,
)
    requires
        failed <= n,
        values_upto(operands, symbols, address, reach, failed) is Err,
    ensures
        values_upto(operands, symbols, address, reach, n) == values_upto(
            operands,
            symbols,
            address,
            reach,
            failed,
        ),
    decreases n - failed,
{
    if failed < n {
        lemma_values_upto_err(operands, symbols, address, reach, failed, n - 1);
    }
}

/// Dividing a negative number and rounding down is dividing its opposite and
/// rounding up.
pub proof fn lemma_floor_division(d: int, unit: int)
    requires
        unit > 0,
    ensures
        d < 0 ==> d / unit == -((unit - 1 - d) / unit),
{
    if d < 0 {
        let q = (unit - 1 - d) / unit;
        let r = (unit - 1 - d) % unit;
        assert(unit - 1 - d == q * unit + r && 0 <= r < unit) by (nonlinear_arith)
            requires
                unit > 0,
                q == (unit - 1 - d) / unit,
                r == (unit - 1 - d) % unit,
        ;
        assert(d == (-q) * unit + (unit - 1 - r)) by (nonlinear_arith)
            requires
                unit - 1 - d == q * unit + r,
        ;
        vstd::arithmetic::div_mod::lemma_fundamental_div_mod_converse(
            d,
            unit,
            -q,
            unit - 1 - r,
        );
    }
}

/// Whether the commands after are the commands before, but for the addresses
/// and the values that resolving gives them.
pub open spec fn commands_keep_source(before: Seq<ParsedCommand>, after: Seq<ParsedCommand>) -> bool {
    &&& after.len() == before.len()
    &&& forall|k: int|
        0 <= k < before.len() ==> {
            &&& (#[trigger] after[k]).op_code == before[k].op_code
            &&& after[k].format == before[k].format
            &&& after[k].operands == before[k].operands
            &&& after[k].line == before[k].line
        }
}

/// Whether the data after is the data before, but for the addresses.
pub open spec fn vars_keep_source(before: Seq<ParsedVar>, after: Seq<ParsedVar>) -> bool {
    &&& after.len() == before.len()
    &&& forall|k: int|
        0 <= k < before.len() ==> {
            &&& (#[trigger] after[k]).label == before[k].label
            &&& after[k].size == before[k].size
            &&& after[k].value == before[k].value
            &&& after[k].line == before[k].line
            &&& after[k].bytes == before[k].bytes
        }
}

/// The values of the operands of each command.
pub open spec fn values_view(commands: Seq<ParsedCommand>) -> Seq<Seq<OperandValue>> {
    Seq::new(commands.len(), |k: int| commands[k].values@)
}

/// An error of the first pass among the first lines is the error of the pass.
pub proof fn lemma_layout_err(lines: Seq<ParsedLine>, failed: int, n: int)
    requires
        failed <= n,
        layout_upto(lines, failed) is Err,
    ensures
        layout_upto(lines, n) == layout_upto(lines, failed),
    decreases n - failed,
{
    if failed < n {
        lemma_layout_err(lines, failed, n - 1);
    }
}

/// An error of the second pass among the first commands is the error of the
/// pass.
pub proof fn lemma_resolve_err(
    commands: Seq<ParsedCommand>,
    addresses: Seq<int>,
    reaches: Seq<Reach>,
    symbols: Symbols,
    failed: int,
    n: int,
)
    requires
        failed <= n,
        resolve_upto(commands, addresses, reaches, symbols, failed) is Err,
    ensures
        resolve_upto(commands, addresses, reaches, symbols, n) == resolve_upto(
            commands,
            addresses,
            reaches,
            symbols,
            failed,
        ),
    decreases n - failed,
{
    if failed < n {
        lemma_resolve_err(commands, addresses, reaches, symbols, failed, n - 1);
    }
}

/// The second pass reads of a command only what the source gave it: not the
/// address or the values that an earlier resolution left.
pub proof fn lemma_resolve_reads_source(
    before: Seq<ParsedCommand>,
    after: Seq<ParsedCommand>,
    addresses: Seq<int>,
    reaches: Seq<Reach>,
    symbols: Symbols,
    n: int,
)
    requires
        commands_keep_source(before, after),
        n <= before.len(),
    ensures
        resolve_upto(after, addresses, reaches, symbols, n) == resolve_upto(
            before,
            addresses,
            reaches,
            symbols,
            n,
        ),
    decreases n,
{
    if n > 0 {
        lemma_resolve_reads_source(before, after, addresses, reaches, symbols, n - 1);
        assert(after[n - 1].operands == before[n - 1].operands);
    }
}

impl ParsedCode {
    /// Every command and every piece of data belongs to a line of the unit, and
    /// what a line points to is there.
    pub open spec fn wf(&self) -> bool {
        &&& forall|k: int|
            0 <= k < self.commands@.len() ==> (#[trigger] self.commands@[k]).line
                < self.lines@.len()
        &&& forall|k: int|
            0 <= k < self.vars@.len() ==> (#[trigger] self.vars@[k]).line < self.lines@.len()
        &&& forall|i: int|
            0 <= i < self.lines@.len() ==> ((#[trigger] self.lines@[i]).command matches Some(k)
                ==> k < self.commands@.len())
        &&& forall|i: int|
            0 <= i < self.lines@.len() ==> ((#[trigger] self.lines@[i]).var matches Some(k) ==> k
                < self.vars@.len())
    }

    /// Checks the unit against [`ParsedCode::wf`].
    pub fn is_well_formed(&self) -> (valid: bool)
        ensures
            valid == self.wf(),
    {
        let lines = self.lines.len();
        let mut k: usize = 0;
        while k < self.commands.len()
            invariant
                lines == self.lines@.len(),
                k <= self.commands@.len(),
                forall|j: int| 0 <= j < k ==> (#[trigger] self.commands@[j]).line < lines,
            decreases self.commands@.len() - k,
        {
            if self.commands[k].line >= lines {
                assert(!(self.commands@[k as int].line < self.lines@.len()));
                return false;
            }
            k += 1;
        }
        let mut k: usize = 0;
        while k < self.vars.len()
            invariant
                lines == self.lines@.len(),
                k <= self.vars@.len(),
                forall|j: int|
                    0 <= j < self.commands@.len() ==> (#[trigger] self.commands@[j]).line < lines,
                forall|j: int| 0 <= j < k ==> (#[trigger] self.vars@[j]).line < lines,
            decreases self.vars@.len() - k,
        {
            if self.vars[k].line >= lines {
                assert(!(self.vars@[k as int].line < self.lines@.len()));
                return false;
            }
            k += 1;
        }
        let mut i: usize = 0;
        while i < lines
            invariant
                lines == self.lines@.len(),
                i <= lines,
                forall|j: int|
                    0 <= j < self.commands@.len() ==> (#[trigger] self.commands@[j]).line < lines,
                forall|j: int| 0 <= j < self.vars@.len() ==> (#[trigger] self.vars@[j]).line < lines,
                forall|j: int|
                    0 <= j < i ==> ((#[trigger] self.lines@[j]).command matches Some(c) ==> c
                        < self.commands@.len()),
                forall|j: int|
                    0 <= j < i ==> ((#[trigger] self.lines@[j]).var matches Some(v) ==> v
                        < self.vars@.len()),
            decreases lines - i,
        {
            match self.lines[i].command {
                Some(c) => {
                    if c >= self.commands.len() {
                        assert(self.lines@[i as int].command == Some(c));
                        return false;
                    }
                },
                None => {},
            }
            match self.lines[i].var {
                Some(v) => {
                    if v >= self.vars.len() {
                        assert(self.lines@[i as int].var == Some(v));
                        return false;
                    }
                },
                None => {},
            }
            i += 1;
        }
        true
    }

    /// Whether every command and every piece of data has the address of its
    /// line.
    pub open spec fn laid_out(&self) -> bool {
        &&& forall|k: int|
            0 <= k < self.commands@.len() ==> (#[trigger] self.commands@[k]).address
                == address_of(self.lines@, self.commands@[k].line as int)
        &&& forall|k: int|
            0 <= k < self.vars@.len() ==> (#[trigger] self.vars@[k]).address == address_of(
                self.lines@,
                self.vars@[k].line as int,
            )
    }

    /// A unit that was parsed is well formed.
    pub proof fn lemma_parsed_wf(&self, def: &LanguageDefinition)
        requires
            self.parsed_with(def),
        ensures
            self.wf(),
    {
        assert forall|i: int| 0 <= i < self.lines@.len() implies ((
        #[trigger] self.lines@[i]).command matches Some(k) ==> k < self.commands@.len()) by {
            assert(line_settled(
                def,
                self.lines@,
                self.commands@,
                self.vars@,
                i,
            ));
        }
        assert forall|i: int| 0 <= i < self.lines@.len() implies ((
        #[trigger] self.lines@[i]).var matches Some(k) ==> k < self.vars@.len()) by {
            assert(line_settled(
                def,
                self.lines@,
                self.commands@,
                self.vars@,
                i,
            ));
        }
    }

    /// The first pass: walks the lines in order, notes every label with the
    /// address of its line, and gives every command and every piece of data
    /// the address of its line. The labels that the unit had are dropped.
    pub fn assign_addresses(&mut self) -> (done: Result<(), AssemblyError>)
        requires
            old(self).wf(),
        ensures
            final(self).lines == old(self).lines,
            final(self).errors == old(self).errors,
            final(self).file_name == old(self).file_name,
            final(self).file_size == old(self).file_size,
            commands_keep_source(old(self).commands@, final(self).commands@),
            vars_keep_source(old(self).vars@, final(self).vars@),
            final(self).wf(),
            match done {
                Ok(()) => {
                    &&& layout(old(self).lines@) == Ok::<Symbols, Fault>(
                        symbols_view(final(self).labels@),
                    )
                    &&& final(self).laid_out()
                    &&& forall|k: int|
                        0 <= k < old(self).commands@.len() ==> (
                        #[trigger] final(self).commands@[k]).values == old(self).commands@[k].values
                },
                Err(error) => layout(old(self).lines@) == Err::<Symbols, Fault>(
                    fault_view(&error),
                ),
            },
    {
        let n = self.lines.len();
        let mut labels: Vec<ParsedLabel> = Vec::new();
        let mut starts: Vec<u32> = Vec::new();
        let mut here: u32 = 0;
        let mut i: usize = 0;
        assert(symbols_view(labels@) =~= Seq::empty());
        while i < n
            invariant
                n == self.lines@.len(),
                *self == *old(self),
                old(self).wf(),
                i <= n,
                here == address_of(self.lines@, i as int),
                starts@.len() == i,
                forall|j: int| 0 <= j < i ==> starts@[j] == address_of(self.lines@, j),
                layout_upto(self.lines@, i as int) == Ok::<Symbols, Fault>(symbols_view(labels@)),
            decreases n - i,
        {
            let ghost symbols = symbols_view(labels@);
            let line = &self.lines[i];
            let label = find_section(&line.sections, SectionType::Label);
            match label {
                Some(found) => {
                    if lookup_symbol(&labels, found).is_some() {
                        proof {
                            lemma_layout_err(self.lines@, i + 1, n as int);
                        }
                        return Err(
                            AssemblyError {
                                kind: ErrorKind::DuplicateSymbol,
                                line: i,
                                text: found.clone(),
                            },
                        );
                    }
                },
                None => {},
            }
            if line.size > u32::MAX - here {
                proof {
                    lemma_layout_err(self.lines@, i + 1, n as int);
                }
                return Err(
                    AssemblyError {
                        kind: ErrorKind::OffsetOutOfRange,
                        line: i,
                        text: line.text.clone(),
                    },
                );
            }
            match label {
                Some(found) => {
                    labels.push(ParsedLabel { name: found.clone(), address: here });
                    assert(symbols_view(labels@) =~= symbols.push((found@, here as int)));
                },
                None => {},
            }
            starts.push(here);
            here = here + line.size;
            i += 1;
        }
        let count = self.commands.len();
        let mut k: usize = 0;
        while k < count
            invariant
                count == self.commands@.len(),
                k <= count,
                n == self.lines@.len(),
                self.lines == old(self).lines,
                self.errors == old(self).errors,
                self.vars == old(self).vars,
                self.file_name == old(self).file_name,
                self.file_size == old(self).file_size,
                old(self).wf(),
                commands_keep_source(old(self).commands@, self.commands@),
                starts@.len() == n,
                forall|j: int| 0 <= j < n ==> starts@[j] == address_of(self.lines@, j),
                forall|j: int|
                    0 <= j < count ==> (#[trigger] self.commands@[j]).values == old(
                        self,
                    ).commands@[j].values,
                forall|j: int|
                    0 <= j < k ==> (#[trigger] self.commands@[j]).address == address_of(
                        self.lines@,
                        self.commands@[j].line as int,
                    ),
            decreases count - k,
        {
            assert(old(self).commands@[k as int].line < n);
            let line = self.commands[k].line;
            self.commands[k].address = starts[line];
            k += 1;
        }
        let count = self.vars.len();
        let mut k: usize = 0;
        while k < count
            invariant
                count == self.vars@.len(),
                k <= count,
                n == self.lines@.len(),
                self.lines == old(self).lines,
                self.errors == old(self).errors,
                self.file_name == old(self).file_name,
                self.file_size == old(self).file_size,
                old(self).wf(),
                commands_keep_source(old(self).commands@, self.commands@),
                vars_keep_source(old(self).vars@, self.vars@),
                starts@.len() == n,
                forall|j: int| 0 <= j < n ==> starts@[j] == address_of(self.lines@, j),
                forall|j: int|
                    0 <= j < self.commands@.len() ==> (#[trigger] self.commands@[j]).values == old(
                        self,
                    ).commands@[j].values,
                forall|j: int|
                    0 <= j < self.commands@.len() ==> (#[trigger] self.commands@[j]).address
                        == address_of(self.lines@, self.commands@[j].line as int),
                forall|j: int|
                    0 <= j < k ==> (#[trigger] self.vars@[j]).address == address_of(
                        self.lines@,
                        self.vars@[j].line as int,
                    ),
            decreases count - k,
        {
            assert(old(self).vars@[k as int].line < n);
            let line = self.vars[k].line;
            self.vars[k].address = starts[line];
            k += 1;
        }
        self.labels = labels;
        Ok(())
    }

    /// The second pass: gives every operand of every command its value, from
    /// the labels of the unit, the address that the command holds, and the
    /// way in which its format measures distances.
    pub fn resolve_operands(&mut self, def: &LanguageDefinition) -> (done: Result<
        (),
        AssemblyError,
    >)
        requires
            def.processor_def.wf(),
        ensures
            final(self).lines == old(self).lines,
            final(self).labels == old(self).labels,
            final(self).vars == old(self).vars,
            final(self).errors == old(self).errors,
            final(self).file_name == old(self).file_name,
            final(self).file_size == old(self).file_size,
            commands_keep_source(old(self).commands@, final(self).commands@),
            own_addresses(final(self).commands@) == own_addresses(old(self).commands@),
            match done {
                Ok(()) => resolve_upto(
                    old(self).commands@,
                    own_addresses(old(self).commands@),
                    reaches_of(def, old(self).commands@),
                    symbols_view(old(self).labels@),
                    old(self).commands@.len() as int,
                ) == Ok::<Seq<Seq<OperandValue>>, Fault>(values_view(final(self).commands@)),
                Err(error) => resolve_upto(
                    old(self).commands@,
                    own_addresses(old(self).commands@),
                    reaches_of(def, old(self).commands@),
                    symbols_view(old(self).labels@),
                    old(self).commands@.len() as int,
                ) == Err::<Seq<Seq<OperandValue>>, Fault>(fault_view(&error)),
            },
    {
        let count = self.commands.len();
        let mut k: usize = 0;
        let ghost symbols = symbols_view(self.labels@);
        let ghost addresses = own_addresses(self.commands@);
        let ghost reaches = reaches_of(def, self.commands@);
        assert(values_view(self.commands@.take(0)) =~= Seq::empty());
        while k < count
            invariant
                count == self.commands@.len(),
                k <= count,
                self.lines == old(self).lines,
                self.labels == old(self).labels,
                self.vars == old(self).vars,
                self.errors == old(self).errors,
                self.file_name == old(self).file_name,
                self.file_size == old(self).file_size,
                symbols == symbols_view(self.labels@),
                addresses == own_addresses(old(self).commands@),
                reaches == reaches_of(def, old(self).commands@),
                def.processor_def.wf(),
                commands_keep_source(old(self).commands@, self.commands@),
                forall|j: int|
                    0 <= j < count ==> (#[trigger] self.commands@[j]).address == old(
                        self,
                    ).commands@[j].address,
                resolve_upto(old(self).commands@, addresses, reaches, symbols, k as int) == Ok::<
                    Seq<Seq<OperandValue>>,
                    Fault,
                >(values_view(self.commands@.take(k as int))),
            decreases count - k,
        {
            let ghost done = values_view(self.commands@.take(k as int));
            assert(self.commands@[k as int].operands == old(self).commands@[k as int].operands);
            assert(self.commands@[k as int].address == old(self).commands@[k as int].address);
            assert(self.commands@[k as int].format == old(self).commands@[k as int].format);
            let reach = reach_for(def, self.commands[k].format);
            match resolve_command(
                &self.commands[k].operands,
                &self.labels,
                self.commands[k].address,
                reach,
            ) {
                Ok(values) => {
                    self.commands[k].values = values;
                    assert(values_view(self.commands@.take(k + 1)) =~= done.push(values@));
                },
                Err((j, kind)) => {
                    proof {
                        lemma_resolve_err(
                            old(self).commands@,
                            addresses,
                            reaches,
                            symbols,
                            k + 1,
                            count as int,
                        );
                    }
                    assert(own_addresses(self.commands@) =~= addresses);
                    return Err(
                        AssemblyError {
                            kind,
                            line: self.commands[k].line,
                            text: self.commands[k].operands[j].1.clone(),
                        },
                    );
                },
            }
            k += 1;
        }
        assert(self.commands@.take(count as int) =~= self.commands@);
        assert(own_addresses(self.commands@) =~= addresses);
        Ok(())
    }

    /// Resolves the unit in two passes: the first gives every label, every
    /// command and every piece of data its address, the second gives every
    /// operand its value. What an earlier resolution left does not matter.
    pub fn resolve(&mut self, def: &LanguageDefinition) -> (done: Result<(), AssemblyError>)
        requires
            old(self).wf(),
            def.processor_def.wf(),
        ensures
            final(self).lines == old(self).lines,
            final(self).errors == old(self).errors,
            final(self).file_name == old(self).file_name,
            final(self).file_size == old(self).file_size,
            commands_keep_source(old(self).commands@, final(self).commands@),
            vars_keep_source(old(self).vars@, final(self).vars@),
            final(self).wf(),
            match done {
                Ok(()) => {
                    &&& resolution(def, old(self).lines@, old(self).commands@) == Ok::<
                        (Symbols, Seq<Seq<OperandValue>>),
                        Fault,
                    >((symbols_view(final(self).labels@), values_view(final(self).commands@)))
                    &&& final(self).laid_out()
                },
                Err(error) => resolution(def, old(self).lines@, old(self).commands@) == Err::<
                    (Symbols, Seq<Seq<OperandValue>>),
                    Fault,
                >(fault_view(&error)),
            },
    {
        match self.assign_addresses() {
            Err(error) => {
                return Err(error);
            },
            Ok(()) => {},
        }
        let ghost between = self.commands@;
        proof {
            assert(own_addresses(between) =~= line_addresses(self.lines@, old(self).commands@));
            assert(reaches_of(def, between) =~= reaches_of(def, old(self).commands@));
            lemma_resolve_reads_source(
                old(self).commands@,
                between,
                own_addresses(between),
                reaches_of(def, between),
                symbols_view(self.labels@),
                between.len() as int,
            );
        }
        let done = self.resolve_operands(def);
        proof {
            assert(own_addresses(self.commands@) == own_addresses(between));
            assert forall|k: int| 0 <= k < self.commands@.len() implies (
            #[trigger] self.commands@[k]).address == address_of(
                self.lines@,
                self.commands@[k].line as int,
            ) by {
                assert(own_addresses(self.commands@)[k] == own_addresses(between)[k]);
            }
        }
        done
    }
}

/// After a first pass without error, every label is found with the address
/// of the line that defines it, and a name that no line defines is not found.
pub proof fn lemma_layout_finds_labels(lines: Seq<ParsedLine>, n: int, name: Seq<char>)
    requires
        0 <= n <= lines.len(),
        layout_upto(lines, n) is Ok,
    ensures
        forall|i: int|
            0 <= i < n && label_of(&#[trigger] lines[i]) == Some(name) ==> lookup(
                layout_upto(lines, n)->Ok_0,
                name,
            ) == Some(address_of(lines, i)),
        (forall|i: int| 0 <= i < n ==> label_of(&#[trigger] lines[i]) != Some(name)) ==> lookup(
            layout_upto(lines, n)->Ok_0,
            name,
        ) is None,
    decreases n,
{
    if n > 0 {
        lemma_layout_finds_labels(lines, n - 1, name);
        let before = layout_upto(lines, n - 1)->Ok_0;
        let line = lines[n - 1];
        match label_of(&line) {
            Some(defined) => {
                let after = before.push((defined, address_of(lines, n - 1)));
                assert(after.drop_last() =~= before);
                assert(after.last() == (defined, address_of(lines, n - 1)));
                if defined == name {
                    assert(lookup(before, name) is None);
                    assert forall|i: int|
                        0 <= i < n && label_of(&#[trigger] lines[i]) == Some(name) implies lookup(
                        after,
                        name,
                    ) == Some(address_of(lines, i)) by {
                        if i < n - 1 {
                            assert(lookup(before, name) == Some(address_of(lines, i)));
                        }
                    }
                }
            },
            None => {},
        }
    }
}

/// A name is never read as a number or as a register list.
pub proof fn lemma_name_is_no_number(text: Seq<char>)
    requires
        is_name(text),
    ensures
        number(text) is None,
        !is_list(text),
{
    assert(is_name_start(text[0]));
    assert(is_name_char(text[0]));
    assert(!is_radix_digit(text[0], 10));
}

/// A reference to a label resolves to the distance from the program counter
/// to the line that defines the label, shifted as the format of the
/// instruction says, wherever that line stands: before the instruction or
/// after it.
pub proof fn lemma_label_reference(
    lines: Seq<ParsedLine>,
    i: int,
    name: Seq<char>,
    address: int,
    reach: Reach,
)
    requires
        layout(lines) is Ok,
        0 <= i < lines.len(),
        label_of(&lines[i]) == Some(name),
        is_name(name),
        register(name) is None,
        0 <= address <= u32::MAX,
    ensures
        operand_value(name, layout(lines)->Ok_0, address, reach) == Ok::<OperandValue, ErrorKind>(
            OperandValue {
                value: ((address_of(lines, i) - (address + reach.bias)) / pow2(
                    reach.shift as nat,
                ) as int) as i64,
                relative: true,
            },
        ),
        0 <= address_of(lines, i) <= u32::MAX,
{
    lemma_layout_finds_labels(lines, lines.len() as int, name);
    lemma_name_is_no_number(name);
    lemma_layout_bounds(lines, lines.len() as int, i);
}

/// A name that no line defines is an undefined symbol.
pub proof fn lemma_label_missing(
    lines: Seq<ParsedLine>,
    name: Seq<char>,
    address: int,
    reach: Reach,
)
    requires
        layout(lines) is Ok,
        forall|i: int| 0 <= i < lines.len() ==> label_of(&#[trigger] lines[i]) != Some(name),
        is_name(name),
        register(name) is None,
    ensures
        operand_value(name, layout(lines)->Ok_0, address, reach) == Err::<OperandValue, ErrorKind>(
            ErrorKind::UndefinedSymbol,
        ),
{
    lemma_layout_finds_labels(lines, lines.len() as int, name);
    lemma_name_is_no_number(name);
}

/// After a first pass without error, every line starts at an address that
/// can be written.
pub proof fn lemma_layout_bounds(lines: Seq<ParsedLine>, n: int, i: int)
    requires
        0 <= i < n <= lines.len(),
        layout_upto(lines, n) is Ok,
    ensures
        0 <= address_of(lines, i) <= address_of(lines, i + 1) <= u32::MAX,
    decreases n,
{
    if i < n - 1 {
        lemma_layout_bounds(lines, n - 1, i);
    } else {
        lemma_address_grows(lines, i);
    }
}

/// Addresses are not negative.
pub proof fn lemma_address_grows(lines: Seq<ParsedLine>, i: int)
    ensures
        0 <= address_of(lines, i),
    decreases i,
{
    if i > 0 {
        lemma_address_grows(lines, i - 1);
    }
}

/// A name that is not found is the name of no symbol.
pub proof fn lemma_lookup_none(symbols: Symbols, name: Seq<char>)
    requires
        lookup(symbols, name) is None,
    ensures
        forall|k: int| 0 <= k < symbols.len() ==> (#[trigger] symbols[k]).0 != name,
    decreases symbols.len(),
{
    if symbols.len() > 0 {
        lemma_lookup_none(symbols.drop_last(), name);
        assert forall|k: int| 0 <= k < symbols.len() implies (#[trigger] symbols[k]).0 != name by {
            if k < symbols.len() - 1 {
                assert(symbols.drop_last()[k] == symbols[k]);
            }
        }
    }
}

/// The symbols of a first pass without error are all different: no name is
/// there twice.
pub proof fn lemma_layout_distinct(lines: Seq<ParsedLine>, n: int)
    requires
        layout_upto(lines, n) is Ok,
    ensures
        forall|a: int, b: int|
            #![trigger layout_upto(lines, n)->Ok_0[a], layout_upto(lines, n)->Ok_0[b]]
            0 <= a < b < layout_upto(lines, n)->Ok_0.len() ==> layout_upto(lines, n)->Ok_0[a].0
                != layout_upto(lines, n)->Ok_0[b].0,
    decreases n,
{
    if n > 0 {
        lemma_layout_distinct(lines, n - 1);
        let before = layout_upto(lines, n - 1)->Ok_0;
        match label_of(&lines[n - 1]) {
            Some(name) => {
                lemma_lookup_none(before, name);
            },
            None => {},
        }
    }
}

/// Resolving gives one value for each operand.
pub proof fn lemma_values_upto_len(
    operands: Seq<(SegType, String)>,
    symbols: Symbols,
    address: int,
    reach: Reach,
    n: int,
)
    requires
        0 <= n,
    ensures
        values_upto(operands, symbols, address, reach, n) matches Ok(values) ==> values.len() == n,
    decreases n,
{
    if n > 0 {
        lemma_values_upto_len(operands, symbols, address, reach, n - 1);
    }
}

/// The second pass gives every command one value for each of its operands.
pub proof fn lemma_resolve_upto_len(
    commands: Seq<ParsedCommand>,
    addresses: Seq<int>,
    reaches: Seq<Reach>,
    symbols: Symbols,
    n: int,
)
    requires
        0 <= n,
    ensures
        resolve_upto(commands, addresses, reaches, symbols, n) matches Ok(done) ==> {
            &&& done.len() == n
            &&& forall|k: int|
                0 <= k < n ==> (#[trigger] done[k]).len() == commands[k].operands@.len()
        },
    decreases n,
{
    if n > 0 {
        lemma_resolve_upto_len(commands, addresses, reaches, symbols, n - 1);
        let command = commands[n - 1];
        lemma_values_upto_len(
            command.operands@,
            symbols,
            addresses[n - 1],
            reaches[n - 1],
            command.operands@.len() as int,
        );
    }
}

} // verus!
