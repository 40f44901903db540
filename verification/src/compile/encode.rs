//! Packing the values of a command into the words of its instruction, and the
//! instructions and the data of a unit into its bytes.
use vstd::prelude::*;
use crate::compile::error::{AssemblyError, ErrorKind};
use crate::compile::parse_code::{command_size, lemma_parsed_commands_fit, line_settled};
use crate::compile::parse_code::{unit_parsed, OperandValue};
use crate::compile::parse_code::{ParsedCode, ParsedCommand, ParsedLine, ParsedVar};
use crate::compile::resolve::{address_of, commands_keep_source, fault_view, layout};
use crate::compile::resolve::{lemma_resolve_reads_source, line_addresses, reaches_of, resolution};
use crate::compile::resolve::{lemma_resolve_upto_len, values_view, vars_keep_source, Fault};
use crate::definitions::bits::{field_bits, lemma_field_bits, lemma_popcount_bound};
use crate::definitions::bits::{lemma_pow2_adds, lemma_pow2_monotone, lemma_pow2_values};
use crate::definitions::bits::{mask_width, pow2, sign_extend, to_field, two_pow};
use crate::definitions::language::{is_selector_role, selector_role, LanguageDefinition};
use crate::definitions::processor::{Format, SegType};

verus! {

/// Whether field `i` of the format carries half of its operand in each of the
/// two words of a long instruction.
pub open spec fn is_split(format: &Format, i: int) -> bool {
    format.long && format.segments@[i].seg_type is Offset
}

/// The number of bits that the operand of field `i` may take: the width of the
/// field, or twice the width where the field is split over two words.
pub open spec fn capacity(format: &Format, i: int) -> nat {
    if is_split(format, i) {
        2 * format.segments@[i].spec_width()
    } else {
        format.segments@[i].spec_width()
    }
}

/// The bits that the operand of field `i` is written with, or `None` where the
/// operand does not fit.
pub open spec fn operand_bits(format: &Format, values: Seq<OperandValue>, i: int) -> Option<nat> {
    let operand = values[format.operands_before(i)];
    field_bits(operand.value as int, capacity(format, i), operand.relative)
}

/// The kind of error for an operand that does not fit its field: a distance is
/// out of range, a selector has no such value, a number overflows.
pub open spec fn overflow_kind(role: SegType, relative: bool) -> ErrorKind {
    if relative {
        ErrorKind::OffsetOutOfRange
    } else if is_selector_role(role) {
        ErrorKind::InvalidFixedFieldValue
    } else {
        ErrorKind::ImmediateOverflow
    }
}

/// The error of the first of the first `n` fields whose operand does not fit.
pub open spec fn range_fault_upto(format: &Format, values: Seq<OperandValue>, n: int) -> Option<
    ErrorKind,
>
    decreases n,
{
    if n <= 0 {
        None
    } else {
        match range_fault_upto(format, values, n - 1) {
            Some(kind) => Some(kind),
            None => if format.takes_operand(n - 1) && operand_bits(format, values, n - 1) is None {
                Some(
                    overflow_kind(
                        format.segments@[n - 1].seg_type,
                        values[format.operands_before(n - 1)].relative,
                    ),
                )
            } else {
                None
            },
        }
    }
}

/// What field `i` holds in the first or the second word of the instruction. A
/// split field holds the upper half of its operand in the first word and the
/// lower half in the second; a `Flag` field of the second word holds all ones;
/// every other field holds its operand in both.
pub open spec fn word_field(format: &Format, values: Seq<OperandValue>, i: int, second: bool) -> u16 {
    let bits = operand_bits(format, values, i)->0;
    let top = pow2(format.segments@[i].spec_width());
    if is_split(format, i) {
        if second {
            (bits % top) as u16
        } else {
            (bits / top) as u16
        }
    } else if second && format.segments@[i].seg_type is Flag {
        (top - 1) as u16
    } else {
        bits as u16
    }
}

/// What the first `n` fields that take an operand hold in the first or the
/// second word.
pub open spec fn word_fields_upto(
    format: &Format,
    values: Seq<OperandValue>,
    second: bool,
    n: int,
) -> Seq<u16>
    decreases n,
{
    if n <= 0 {
        Seq::empty()
    } else if format.takes_operand(n - 1) {
        word_fields_upto(format, values, second, n - 1).push(
            word_field(format, values, n - 1, second),
        )
    } else {
        word_fields_upto(format, values, second, n - 1)
    }
}

/// What the fields that take an operand hold in the first or the second word.
pub open spec fn word_fields(format: &Format, values: Seq<OperandValue>, second: bool) -> Seq<u16> {
    word_fields_upto(format, values, second, format.segments@.len() as int)
}

/// Whether every field takes its value without fault.
pub open spec fn fields_ok(format: &Format, fields: Seq<u16>) -> bool {
    forall|i: int| 0 <= i < format.segments@.len() ==> format.segment_ok(fields, i)
}

/// The words of the instruction that holds `values` in `format`: one word, or
/// two for a long format. The operands are checked against the room of their
/// fields first, from the most significant field down, then the words are
/// checked against the legal values of the fields.
pub open spec fn encoded(format: &Format, values: Seq<OperandValue>) -> Result<
    Seq<u16>,
    ErrorKind,
> {
    if values.len() != format.operand_count() {
        Err(ErrorKind::InvalidOperandSyntax)
    } else {
        match range_fault_upto(format, values, format.segments@.len() as int) {
            Some(kind) => Err(kind),
            None => {
                let first = word_fields(format, values, false);
                let second = word_fields(format, values, true);
                if !fields_ok(format, first) {
                    Err(ErrorKind::InvalidFixedFieldValue)
                } else if !format.long {
                    Ok(seq![format.word(first)])
                } else if !fields_ok(format, second) {
                    Err(ErrorKind::InvalidFixedFieldValue)
                } else {
                    Ok(seq![format.word(first), format.word(second)])
                }
            },
        }
    }
}

/// There is one entry for each field that takes an operand, at the position
/// of the field's operand.
pub proof fn lemma_word_fields_upto(
    format: &Format,
    values: Seq<OperandValue>,
    second: bool,
    n: int,
)
    requires
        0 <= n,
    ensures
        word_fields_upto(format, values, second, n).len() == format.operands_before(n),
        forall|i: int|
            0 <= i < n && format.takes_operand(i) ==> word_fields_upto(
                format,
                values,
                second,
                n,
            )[format.operands_before(i)] == word_field(format, values, i, second),
    decreases n,
{
    if n > 0 {
        lemma_word_fields_upto(format, values, second, n - 1);
        assert forall|i: int| 0 <= i < n && format.takes_operand(i) implies word_fields_upto(
            format,
            values,
            second,
            n,
        )[format.operands_before(i)] == word_field(format, values, i, second) by {
            format.lemma_operands_before_bounds(i);
            format.lemma_operands_before_monotone(i, n - 1);
        }
    }
}

/// An operand that does not fit among the first fields is the error of the
/// whole list.
pub proof fn lemma_range_fault_stays(
    format: &Format,
    values: Seq<OperandValue>,
    failed: int,
    n: int,
)
    requires
        failed <= n,
        range_fault_upto(format, values, failed) is Some,
    ensures
        range_fault_upto(format, values, n) == range_fault_upto(format, values, failed),
    decreases n - failed,
{
    if failed < n {
        lemma_range_fault_stays(format, values, failed, n - 1);
    }
}

/// The kind of error for an operand that does not fit its field.
pub fn kind_of_overflow(role: SegType, relative: bool) -> (kind: ErrorKind)
    ensures
        kind == overflow_kind(role, relative),
{
    if relative {
        ErrorKind::OffsetOutOfRange
    } else if selector_role(role) {
        ErrorKind::InvalidFixedFieldValue
    } else {
        ErrorKind::ImmediateOverflow
    }
}

/// Packs the values of a command into the words of its instruction.
pub fn encode_command(format: &Format, values: &Vec<OperandValue>) -> (words: Result<
    Vec<u16>,
    ErrorKind,
>)
    requires
        format.wf(),
    ensures
        match words {
            Ok(packed) => encoded(format, values@) == Ok::<Seq<u16>, ErrorKind>(packed@),
            Err(kind) => encoded(format, values@) == Err::<Seq<u16>, ErrorKind>(kind),
        },
{
    let n = format.segments.len();
    if values.len() != format.count_operands() {
        return Err(ErrorKind::InvalidOperandSyntax);
    }
    let mut first: Vec<u16> = Vec::new();
    let mut second: Vec<u16> = Vec::new();
    let mut k: usize = 0;
    let mut i: usize = 0;
    while i < n
        invariant
            n == format.segments@.len(),
            values@.len() == format.operand_count(),
            i <= n,
            k == format.operands_before(i as int),
            range_fault_upto(format, values@, i as int) is None,
            first@ == word_fields_upto(format, values@, false, i as int),
            second@ == word_fields_upto(format, values@, true, i as int),
        decreases n - i,
    {
        let seg = &format.segments[i];
        if !matches!(seg.seg_type, SegType::Main) {
            proof {
                format.lemma_operands_before_monotone(i as int, n as int);
                lemma_pow2_values();
            }
            assert(k < values.len());
            let operand = values[k];
            let width = mask_width(seg.mask);
            let split = format.long && matches!(seg.seg_type, SegType::Offset);
            let room = if split {
                2 * width
            } else {
                width
            };
            let top = two_pow(width);
            proof {
                lemma_pow2_adds(width as nat, width as nat);
                lemma_pow2_monotone(width as nat, 16);
            }
            let bits = match to_field(operand.value, room, operand.relative) {
                Some(bits) => bits,
                None => {
                    proof {
                        lemma_range_fault_stays(format, values@, i + 1, n as int);
                    }
                    return Err(kind_of_overflow(seg.seg_type, operand.relative));
                },
            };
            if split {
                assert(bits / top < top) by (nonlinear_arith)
                    requires
                        bits < top * top,
                        top > 0,
                ;
                first.push((bits / top) as u16);
                second.push((bits % top) as u16);
            } else {
                first.push(bits as u16);
                if matches!(seg.seg_type, SegType::Flag) {
                    second.push((top - 1) as u16);
                } else {
                    second.push(bits as u16);
                }
            }
            k += 1;
        }
        i += 1;
    }
    proof {
        lemma_word_fields_upto(format, values@, false, n as int);
        lemma_word_fields_upto(format, values@, true, n as int);
    }
    let mut words: Vec<u16> = Vec::new();
    match format.encode_fields(&first) {
        Ok(word) => {
            words.push(word);
        },
        Err(_) => {
            return Err(ErrorKind::InvalidFixedFieldValue);
        },
    }
    if format.long {
        match format.encode_fields(&second) {
            Ok(word) => {
                words.push(word);
            },
            Err(_) => {
                return Err(ErrorKind::InvalidFixedFieldValue);
            },
        }
    }
    assert(words@ =~= if format.long {
        seq![format.word(first@), format.word(second@)]
    } else {
        seq![format.word(first@)]
    });
    Ok(words)
}

/// The bits of the operand of field `i` as the words of an instruction hold
/// them: the field of the first word, or, for a split field, the field of the
/// first word above the field of the second.
pub open spec fn read_bits(format: &Format, words: Seq<u16>, i: int) -> nat {
    let k = format.operands_before(i);
    if is_split(format, i) {
        (format.fields_of(words[0])[k] * pow2(format.segments@[i].spec_width())
            + format.fields_of(words[1])[k]) as nat
    } else {
        format.fields_of(words[0])[k] as nat
    }
}

/// What the encoder writes can be read back. Every word of an instruction
/// shows a legal pattern in every field of its format, and the fields of the
/// words hold the bits of the operands: read as a signed number they give back
/// a distance, read as they stand they give back a number that is not
/// negative.
pub proof fn lemma_encoded_decodes(format: &Format, values: Seq<OperandValue>)
    requires
        format.wf(),
        encoded(format, values) is Ok,
    ensures
        ({
            let words = encoded(format, values)->Ok_0;
            &&& words.len() == if format.long {
                2int
            } else {
                1int
            }
            &&& forall|w: int| 0 <= w < words.len() ==> format.recognizes(#[trigger] words[w])
            &&& format.fields_of(words[0]) == word_fields(format, values, false)
            &&& format.long ==> format.fields_of(words[1]) == word_fields(format, values, true)
            &&& forall|i: int|
                0 <= i < format.segments@.len() && format.takes_operand(i) ==> {
                    let operand = values[format.operands_before(i)];
                    let bits = #[trigger] read_bits(format, words, i);
                    &&& Some(bits) == operand_bits(format, values, i)
                    &&& operand.relative ==> sign_extend(bits, capacity(format, i))
                        == operand.value
                    &&& operand.value >= 0 ==> bits == operand.value
                }
        }),
{
    let n = format.segments@.len() as int;
    let words = encoded(format, values)->Ok_0;
    let first = word_fields(format, values, false);
    let second = word_fields(format, values, true);
    lemma_word_fields_upto(format, values, false, n);
    lemma_word_fields_upto(format, values, true, n);
    format.lemma_decode_encode(first);
    if format.long {
        format.lemma_decode_encode(second);
    }
    assert forall|i: int| 0 <= i < n && format.takes_operand(i) implies {
        let operand = values[format.operands_before(i)];
        let bits = #[trigger] read_bits(format, words, i);
        &&& Some(bits) == operand_bits(format, values, i)
        &&& operand.relative ==> sign_extend(bits, capacity(format, i)) == operand.value
        &&& operand.value >= 0 ==> bits == operand.value
    } by {
        let operand = values[format.operands_before(i)];
        let width = format.segments@[i].spec_width();
        lemma_no_range_fault(format, values, n, i);
        let written = operand_bits(format, values, i)->0;
        lemma_field_bits(operand.value as int, capacity(format, i), operand.relative);
        lemma_pow2_values();
        lemma_popcount_bound(format.segments@[i].mask as nat, 16);
        lemma_pow2_monotone(width, 16);
        let top = pow2(width);
        assert(first[format.operands_before(i)] == word_field(format, values, i, false));
        if is_split(format, i) {
            assert(second[format.operands_before(i)] == word_field(format, values, i, true));
            lemma_pow2_adds(width, width);
            assert(written / top < top) by (nonlinear_arith)
                requires
                    written < top * top,
                    top > 0,
            ;
            assert((written / top) * top + written % top == written) by (nonlinear_arith)
                requires
                    top > 0,
            ;
        }
    }
}

/// Reads the bits of every operand out of the words of an instruction: a field
/// of the first word, or, for a split field, the field of the first word above
/// the field of the second. Nothing is read where there are too few words, or
/// a word shows a pattern that a field of the format does not take.
pub fn decode_words(format: &Format, words: &Vec<u16>) -> (read: Option<Vec<u64>>)
    ensures
        read is Some <==> {
            &&& words@.len() >= if format.long {
                2int
            } else {
                1int
            }
            &&& format.recognizes(words@[0])
            &&& format.long ==> format.recognizes(words@[1])
        },
        read matches Some(bits) ==> {
            &&& bits@.len() == format.operand_count()
            &&& forall|i: int|
                #![trigger format.operands_before(i)]
                0 <= i < format.segments@.len() && format.takes_operand(i) ==> {
                    &&& 0 <= format.operands_before(i) < bits@.len()
                    &&& bits@[format.operands_before(i)] == read_bits(format, words@, i)
                }
        },
{
    let n = format.segments.len();
    let needed: usize = if format.long {
        2
    } else {
        1
    };
    if words.len() < needed {
        return None;
    }
    let first = match format.decode(words[0]) {
        Some(fields) => fields,
        None => {
            return None;
        },
    };
    let second = if format.long {
        match format.decode(words[1]) {
            Some(fields) => fields,
            None => {
                return None;
            },
        }
    } else {
        Vec::new()
    };
    proof {
        format.lemma_fields_count(words@[0], n as int);
        if format.long {
            format.lemma_fields_count(words@[1], n as int);
        }
    }
    let mut bits: Vec<u64> = Vec::new();
    let mut k: usize = 0;
    let mut i: usize = 0;
    while i < n
        invariant
            n == format.segments@.len(),
            i <= n,
            k == format.operands_before(i as int),
            words@.len() >= needed,
            needed == if format.long {
                2int
            } else {
                1int
            },
            first@ == format.fields_of(words@[0]),
            first@.len() == format.operand_count(),
            format.long ==> second@ == format.fields_of(words@[1]) && second@.len()
                == format.operand_count(),
            bits@.len() == k,
            forall|j: int|
                #![trigger format.operands_before(j)]
                0 <= j < i && format.takes_operand(j) ==> {
                    &&& 0 <= format.operands_before(j) < bits@.len()
                    &&& bits@[format.operands_before(j)] == read_bits(format, words@, j)
                },
        decreases n - i,
    {
        let seg = &format.segments[i];
        if !matches!(seg.seg_type, SegType::Main) {
            proof {
                format.lemma_operands_before_monotone(i as int, n as int);
                lemma_pow2_values();
            }
            assert(k < first.len());
            let ghost before = bits@;
            if format.long && matches!(seg.seg_type, SegType::Offset) {
                let width = mask_width(seg.mask);
                let top = two_pow(width);
                proof {
                    lemma_pow2_monotone(width as nat, 16);
                }
                assert(first[k as int] * top <= 0xFFFF * 0x1_0000) by (nonlinear_arith)
                    requires
                        first[k as int] <= 0xFFFF,
                        top <= 0x1_0000,
                ;
                bits.push(first[k] as u64 * top + second[k] as u64);
            } else {
                bits.push(first[k] as u64);
            }
            assert(format.takes_operand(i as int));
            assert(bits@.len() == k + 1);
            assert(bits@[k as int] == read_bits(format, words@, i as int));
            assert forall|j: int|
                #![trigger format.operands_before(j)]
                0 <= j < i + 1 && format.takes_operand(j) implies {
                &&& 0 <= format.operands_before(j) < bits@.len()
                &&& bits@[format.operands_before(j)] == read_bits(format, words@, j)
            } by {
                if j < i {
                    format.lemma_operands_before_monotone(j, i as int);
                    format.lemma_operands_before_bounds(j);
                    assert(bits@[format.operands_before(j)] == before[format.operands_before(j)]);
                }
            }
            k += 1;
        } else {
            assert(!format.takes_operand(i as int));
        }
        i += 1;
    }
    Some(bits)
}

/// Where no operand among the first `n` fields fails to fit, every one of
/// them fits.
pub proof fn lemma_no_range_fault(format: &Format, values: Seq<OperandValue>, n: int, i: int)
    requires
        0 <= i < n,
        format.takes_operand(i),
        range_fault_upto(format, values, n) is None,
    ensures
        operand_bits(format, values, i) is Some,
    decreases n,
{
    if i < n - 1 {
        lemma_no_range_fault(format, values, n - 1, i);
    }
}

/// The bytes of the words, each word with its upper byte first.
pub open spec fn words_bytes(words: Seq<u16>) -> Seq<u8>
    decreases words.len(),
{
    if words.len() == 0 {
        Seq::empty()
    } else {
        words_bytes(words.drop_last()).push((words.last() / 256) as u8).push(
            (words.last() % 256) as u8,
        )
    }
}

/// The words of the instruction of a command in the format with this id.
pub open spec fn command_words(
    def: &LanguageDefinition,
    format: i32,
    values: Seq<OperandValue>,
) -> Result<Seq<u16>, ErrorKind> {
    match def.processor_def.position(format) {
        Some(p) => encoded(&def.processor_def.formats@[p], values),
        None => Err(ErrorKind::InvalidOperandSyntax),
    }
}

/// The bytes of the first `n` lines, in the order of the lines: the words of
/// the instruction for a line with a command, the declared bytes for a line
/// with data. The first command that cannot be encoded ends it with an error.
pub open spec fn emit_upto(
    def: &LanguageDefinition,
    lines: Seq<ParsedLine>,
    commands: Seq<ParsedCommand>,
    values: Seq<Seq<OperandValue>>,
    vars: Seq<ParsedVar>,
    n: int,
) -> Result<Seq<u8>, Fault>
    decreases n,
{
    if n <= 0 {
        Ok(Seq::empty())
    } else {
        match emit_upto(def, lines, commands, values, vars, n - 1) {
            Err(fault) => Err(fault),
            Ok(bytes) => {
                let line = lines[n - 1];
                match line.command {
                    Some(k) => match command_words(
                        def,
                        commands[k as int].format,
                        values[k as int],
                    ) {
                        Ok(words) => Ok(bytes + words_bytes(words)),
                        Err(kind) => Err((kind, n - 1, line.text@)),
                    },
                    None => match line.var {
                        Some(k) => Ok(bytes + vars[k as int].bytes@),
                        None => Ok(bytes),
                    },
                }
            },
        }
    }
}

/// What assembling a unit gives: its bytes, or the first error. The unit is
/// resolved in two passes, then its lines are encoded in order.
pub open spec fn assembly(
    def: &LanguageDefinition,
    lines: Seq<ParsedLine>,
    commands: Seq<ParsedCommand>,
    vars: Seq<ParsedVar>,
) -> Result<Seq<u8>, Fault> {
    match resolution(def, lines, commands) {
        Err(fault) => Err(fault),
        Ok((symbols, values)) => emit_upto(def, lines, commands, values, vars, lines.len() as int),
    }
}

/// An error among the first lines is the error of the unit.
pub proof fn lemma_emit_err(
    def: &LanguageDefinition,
    lines: Seq<ParsedLine>,
    commands: Seq<ParsedCommand>,
    values: Seq<Seq<OperandValue>>,
    vars: Seq<ParsedVar>,
    failed: int,
    n: int,
)
    requires
        failed <= n,
        emit_upto(def, lines, commands, values, vars, failed) is Err,
    ensures
        emit_upto(def, lines, commands, values, vars, n) == emit_upto(
            def,
            lines,
            commands,
            values,
            vars,
            failed,
        ),
    decreases n - failed,
{
    if failed < n {
        lemma_emit_err(def, lines, commands, values, vars, failed, n - 1);
    }
}

/// Encoding reads of a command and of a piece of data only what the source
/// gave them.
pub proof fn lemma_emit_reads_source(
    def: &LanguageDefinition,
    lines: Seq<ParsedLine>,
    before: Seq<ParsedCommand>,
    after: Seq<ParsedCommand>,
    values: Seq<Seq<OperandValue>>,
    vars_before: Seq<ParsedVar>,
    vars_after: Seq<ParsedVar>,
    n: int,
)
    requires
        commands_keep_source(before, after),
        vars_keep_source(vars_before, vars_after),
        0 <= n <= lines.len(),
        forall|i: int|
            0 <= i < lines.len() ==> ((#[trigger] lines[i]).command matches Some(k) ==> k
                < before.len()),
        forall|i: int|
            0 <= i < lines.len() ==> ((#[trigger] lines[i]).var matches Some(k) ==> k
                < vars_before.len()),
    ensures
        emit_upto(def, lines, after, values, vars_after, n) == emit_upto(
            def,
            lines,
            before,
            values,
            vars_before,
            n,
        ),
    decreases n,
{
    if n > 0 {
        lemma_emit_reads_source(def, lines, before, after, values, vars_before, vars_after, n - 1);
        let line = lines[n - 1];
        match line.command {
            Some(k) => {
                assert(after[k as int].format == before[k as int].format);
            },
            None => match line.var {
                Some(k) => {
                    assert(vars_after[k as int].bytes == vars_before[k as int].bytes);
                },
                None => {},
            },
        }
    }
}

/// Assembling is idempotent: a unit that was resolved and encoded before gives
/// the same bytes, or the same error, when it is assembled again. What the
/// first run left in the commands and the data plays no part in the second.
pub proof fn lemma_assembly_idempotent(
    def: &LanguageDefinition,
    lines: Seq<ParsedLine>,
    before: Seq<ParsedCommand>,
    after: Seq<ParsedCommand>,
    vars_before: Seq<ParsedVar>,
    vars_after: Seq<ParsedVar>,
)
    requires
        commands_keep_source(before, after),
        vars_keep_source(vars_before, vars_after),
        forall|i: int|
            0 <= i < lines.len() ==> ((#[trigger] lines[i]).command matches Some(k) ==> k
                < before.len()),
        forall|i: int|
            0 <= i < lines.len() ==> ((#[trigger] lines[i]).var matches Some(k) ==> k
                < vars_before.len()),
    ensures
        assembly(def, lines, after, vars_after) == assembly(def, lines, before, vars_before),
{
    match layout(lines) {
        Ok(symbols) => {
            assert(line_addresses(lines, after)
                =~= line_addresses(lines, before));
            assert(reaches_of(def, after) =~= reaches_of(def, before));
            lemma_resolve_reads_source(
                before,
                after,
                line_addresses(lines, before),
                reaches_of(def, before),
                symbols,
                before.len() as int,
            );
            match resolution(def, lines, before) {
                Ok((_, values)) => {
                    lemma_emit_reads_source(
                        def,
                        lines,
                        before,
                        after,
                        values,
                        vars_before,
                        vars_after,
                        lines.len() as int,
                    );
                },
                Err(_) => {},
            }
        },
        Err(_) => {},
    }
}

/// Whether every line takes the room that encoding it gives: the size of the
/// instruction for a line with a command, the number of declared bytes for a
/// line with data, none for any other line.
pub open spec fn sizes_match(
    def: &LanguageDefinition,
    lines: Seq<ParsedLine>,
    commands: Seq<ParsedCommand>,
    vars: Seq<ParsedVar>,
) -> bool {
    forall|i: int|
        0 <= i < lines.len() ==> match (#[trigger] lines[i]).command {
            Some(k) => lines[i].size == command_size(def, commands[k as int].format),
            None => match lines[i].var {
                Some(k) => lines[i].size == vars[k as int].bytes@.len(),
                None => lines[i].size == 0,
            },
        }
}

/// Every word gives two bytes.
pub proof fn lemma_words_bytes_len(words: Seq<u16>)
    ensures
        words_bytes(words).len() == 2 * words.len(),
    decreases words.len(),
{
    if words.len() > 0 {
        lemma_words_bytes_len(words.drop_last());
    }
}

/// The output is as long as the first pass counted: the bytes of the first
/// `n` lines end at the address where line `n` starts. So every label names
/// the place in the output of what its line holds.
pub proof fn lemma_emit_length(
    def: &LanguageDefinition,
    lines: Seq<ParsedLine>,
    commands: Seq<ParsedCommand>,
    values: Seq<Seq<OperandValue>>,
    vars: Seq<ParsedVar>,
    n: int,
)
    requires
        sizes_match(def, lines, commands, vars),
        0 <= n <= lines.len(),
        emit_upto(def, lines, commands, values, vars, n) is Ok,
    ensures
        emit_upto(def, lines, commands, values, vars, n)->Ok_0.len() == address_of(lines, n),
    decreases n,
{
    if n > 0 {
        lemma_emit_length(def, lines, commands, values, vars, n - 1);
        let line = lines[n - 1];
        match line.command {
            Some(k) => {
                let words = command_words(def, commands[k as int].format, values[k as int])->Ok_0;
                lemma_words_bytes_len(words);
            },
            None => {},
        }
    }
}

/// A unit that was parsed gives every line the room that encoding it takes.
pub proof fn lemma_parsed_sizes_match(
    def: &LanguageDefinition,
    lines: Seq<ParsedLine>,
    commands: Seq<ParsedCommand>,
    vars: Seq<ParsedVar>,
)
    requires
        unit_parsed(def, lines, commands, vars),
    ensures
        sizes_match(def, lines, commands, vars),
{
    assert forall|i: int| 0 <= i < lines.len() implies match (#[trigger] lines[i]).command {
        Some(k) => lines[i].size == command_size(def, commands[k as int].format),
        None => match lines[i].var {
            Some(k) => lines[i].size == vars[k as int].bytes@.len(),
            None => lines[i].size == 0,
        },
    } by {
        assert(line_settled(def, lines, commands, vars, i));
    }
}

/// Whether an error is one that encoding a command with the right number of
/// values can give: a value that does not fit, or one that its field does not
/// take.
pub open spec fn is_value_error(kind: ErrorKind) -> bool {
    kind is ImmediateOverflow || kind is OffsetOutOfRange || kind is InvalidFixedFieldValue
}

/// An operand that does not fit gives an error about its value.
pub proof fn lemma_range_fault_kind(format: &Format, values: Seq<OperandValue>, n: int)
    ensures
        range_fault_upto(format, values, n) matches Some(kind) ==> is_value_error(kind),
    decreases n,
{
    if n > 0 {
        lemma_range_fault_kind(format, values, n - 1);
    }
}

/// In a unit that was parsed with a well-formed language and resolved, the
/// only errors left are errors about values. Every command has the number of
/// values that its format takes, so encoding it gives its words, or says that
/// a value does not fit its field or is none that the field takes.
pub proof fn lemma_parsed_unit_encodes(
    def: &LanguageDefinition,
    lines: Seq<ParsedLine>,
    commands: Seq<ParsedCommand>,
    vars: Seq<ParsedVar>,
    k: int,
)
    requires
        def.wf(),
        unit_parsed(def, lines, commands, vars),
        resolution(def, lines, commands) is Ok,
        0 <= k < commands.len(),
    ensures
        match command_words(def, commands[k].format, resolution(def, lines, commands)->Ok_0.1[k]) {
            Ok(words) => words.len() == command_size(def, commands[k].format) / 2,
            Err(kind) => is_value_error(kind),
        },
{
    let symbols = resolution(def, lines, commands)->Ok_0.0;
    let values = resolution(def, lines, commands)->Ok_0.1;
    lemma_parsed_commands_fit(def, lines, commands, vars, k);
    lemma_resolve_upto_len(
        commands,
        line_addresses(lines, commands),
        reaches_of(def, commands),
        symbols,
        commands.len() as int,
    );
    let p = def.processor_def.position(commands[k].format)->0;
    let format = def.processor_def.formats@[p];
    assert(values[k].len() == format.operand_count());
    lemma_range_fault_kind(&format, values[k], format.segments@.len() as int);
}

/// Appends the bytes of `more` to `bytes`.
pub fn push_all(bytes: &mut Vec<u8>, more: &Vec<u8>)
    ensures
        final(bytes)@ == old(bytes)@ + more@,
{
    let n = more.len();
    let mut i: usize = 0;
    while i < n
        invariant
            n == more@.len(),
            i <= n,
            bytes@ == old(bytes)@ + more@.take(i as int),
        decreases n - i,
    {
        bytes.push(more[i]);
        i += 1;
        assert(more@.take(i as int) =~= more@.take(i - 1).push(more@[i - 1]));
    }
    assert(more@.take(n as int) =~= more@);
}

/// The bytes of the words, each word with its upper byte first.
pub fn bytes_of_words(words: &Vec<u16>) -> (bytes: Vec<u8>)
    ensures
        bytes@ == words_bytes(words@),
{
    let n = words.len();
    let mut bytes: Vec<u8> = Vec::new();
    let mut i: usize = 0;
    while i < n
        invariant
            n == words@.len(),
            i <= n,
            bytes@ == words_bytes(words@.take(i as int)),
        decreases n - i,
    {
        bytes.push((words[i] / 256) as u8);
        bytes.push((words[i] % 256) as u8);
        i += 1;
        assert(words@.take(i as int).drop_last() =~= words@.take(i - 1));
    }
    assert(words@.take(n as int) =~= words@);
    bytes
}

impl ParsedCode {
    /// Encodes the lines of a resolved unit in order.
    pub fn emit(&self, def: &LanguageDefinition) -> (output: Result<Vec<u8>, AssemblyError>)
        requires
            self.wf(),
            def.processor_def.wf(),
        ensures
            match output {
                Ok(bytes) => emit_upto(
                    def,
                    self.lines@,
                    self.commands@,
                    values_view(self.commands@),
                    self.vars@,
                    self.lines@.len() as int,
                ) == Ok::<Seq<u8>, Fault>(bytes@),
                Err(error) => emit_upto(
                    def,
                    self.lines@,
                    self.commands@,
                    values_view(self.commands@),
                    self.vars@,
                    self.lines@.len() as int,
                ) == Err::<Seq<u8>, Fault>(fault_view(&error)),
            },
    {
        let n = self.lines.len();
        let mut bytes: Vec<u8> = Vec::new();
        let mut i: usize = 0;
        let ghost values = values_view(self.commands@);
        while i < n
            invariant
                n == self.lines@.len(),
                i <= n,
                self.wf(),
                def.processor_def.wf(),
                values == values_view(self.commands@),
                emit_upto(def, self.lines@, self.commands@, values, self.vars@, i as int) == Ok::<
                    Seq<u8>,
                    Fault,
                >(bytes@),
            decreases n - i,
        {
            let line = &self.lines[i];
            match line.command {
                Some(k) => {
                    let command = &self.commands[k];
                    assert(values[k as int] == command.values@);
                    let words = match def.processor_def.format(command.format) {
                        Some(format) => {
                            assert(def.processor_def.formats@[def.processor_def.position(
                                command.format,
                            )->0].wf());
                            encode_command(format, &command.values)
                        },
                        None => Err(ErrorKind::InvalidOperandSyntax),
                    };
                    match words {
                        Ok(packed) => {
                            let more = bytes_of_words(&packed);
                            push_all(&mut bytes, &more);
                        },
                        Err(kind) => {
                            proof {
                                lemma_emit_err(
                                    def,
                                    self.lines@,
                                    self.commands@,
                                    values,
                                    self.vars@,
                                    i + 1,
                                    n as int,
                                );
                            }
                            return Err(AssemblyError { kind, line: i, text: line.text.clone() });
                        },
                    }
                },
                None => match line.var {
                    Some(k) => {
                        push_all(&mut bytes, &self.vars[k].bytes);
                    },
                    None => {
                        assert(bytes@ + Seq::<u8>::empty() =~= bytes@);
                    },
                },
            }
            i += 1;
        }
        Ok(bytes)
    }

    /// Assembles the unit: resolves it in two passes and encodes its lines.
    /// Nothing is given out unless all of it succeeds.
    pub fn assemble(&mut self, def: &LanguageDefinition) -> (output: Result<
        Vec<u8>,
        AssemblyError,
    >)
        requires
            old(self).wf(),
            def.processor_def.wf(),
        ensures
            final(self).lines == old(self).lines,
            final(self).errors == old(self).errors,
            final(self).file_name == old(self).file_name,
            final(self).file_size == old(self).file_size,
            commands_keep_source(old(self).commands@, final(self).commands@),
            vars_keep_source(old(self).vars@, final(self).vars@),
            final(self).wf(),
            match output {
                Ok(bytes) => assembly(def, old(self).lines@, old(self).commands@, old(self).vars@)
                    == Ok::<Seq<u8>, Fault>(bytes@),
                Err(error) => assembly(
                    def,
                    old(self).lines@,
                    old(self).commands@,
                    old(self).vars@,
                ) == Err::<Seq<u8>, Fault>(fault_view(&error)),
            },
    {
        match self.resolve(def) {
            Err(error) => {
                return Err(error);
            },
            Ok(()) => {},
        }
        proof {
            lemma_emit_reads_source(
                def,
                self.lines@,
                old(self).commands@,
                self.commands@,
                values_view(self.commands@),
                old(self).vars@,
                self.vars@,
                self.lines@.len() as int,
            );
        }
        self.emit(def)
    }
}

} // verus!
