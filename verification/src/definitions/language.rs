//! The assembly language of a processor: the patterns that split a line into
//! its parts, and for each mnemonic the shapes that its operands can take.
use vstd::prelude::*;
use crate::compile::pattern::{compiles, pattern_compiles};
use crate::compile::text::texts_view;
use crate::definitions::processor::{Format, ProcessorDefinition, SegType};
use crate::definitions::syntax::LineSyntax;

verus! {

/// One textual shape of a mnemonic.
pub struct CommandDefinition {
    /// The pattern that the whole command must match. Its named groups capture
    /// the operands.
    pub regex: String,
    /// One entry for each field of the format that takes an operand, in the
    /// order of the fields: the role of the field, and where its operand comes
    /// from. An entry that starts with a digit is the operand itself, a number;
    /// any other names the group of the pattern that captures the operand.
    pub segments: Vec<(SegType, String)>,
    /// The id of the format that the command is encoded in.
    pub format_index: i32,
}

/// Whether a field with this role selects among operations, choices or
/// conditions, rather than holding a register, a number or a distance.
pub open spec fn is_selector_role(role: SegType) -> bool {
    role is Op || role is Flag || role is Condition
}

/// Whether a field with this role selects among operations, choices or
/// conditions.
pub fn selector_role(role: SegType) -> (selector: bool)
    ensures
        selector == is_selector_role(role),
{
    match role {
        SegType::Op | SegType::Flag | SegType::Condition => true,
        _ => false,
    }
}

impl CommandDefinition {
    /// The entries stand one to one, and role by role, against the fields of
    /// `format` that take an operand.
    pub open spec fn aligned(&self, format: &Format) -> bool {
        &&& self.segments@.len() == format.operand_count()
        &&& forall|i: int|
            0 <= i < format.segments@.len() && format.takes_operand(i)
                ==> self.segments@[format.operands_before(i)].0
                == (#[trigger] format.segments@[i]).seg_type
    }

    /// The roles of the entries, in order.
    pub open spec fn roles(&self) -> Seq<SegType> {
        Seq::new(self.segments@.len(), |k: int| self.segments@[k].0)
    }

    /// Entries whose roles are those of the format's fields are aligned with it.
    pub proof fn lemma_aligned_by_roles(&self, format: &Format)
        requires
            self.roles() == format.roles(),
        ensures
            self.aligned(format),
    {
        format.lemma_roles_upto(format.segments@.len() as int);
        assert forall|i: int|
            0 <= i < format.segments@.len() && format.takes_operand(i)
            implies self.segments@[format.operands_before(i)].0
            == (#[trigger] format.segments@[i]).seg_type by {
            format.lemma_operands_before_bounds(i);
            format.lemma_operands_before_monotone(i, format.segments@.len() as int);
            assert(self.roles()[format.operands_before(i)] == self.segments@[format.operands_before(
                i,
            )].0);
        }
    }

    /// Checks the entries against the fields of `format`.
    pub fn is_aligned(&self, format: &Format) -> (ok: bool)
        ensures
            ok == self.aligned(format),
    {
        let n = format.segments.len();
        if self.segments.len() != format.count_operands() {
            return false;
        }
        let mut k: usize = 0;
        let mut i: usize = 0;
        while i < n
            invariant
                n == format.segments@.len(),
                self.segments@.len() == format.operand_count(),
                i <= n,
                k == format.operands_before(i as int),
                forall|j: int|
                    0 <= j < i && format.takes_operand(j) ==> self.segments@[format.operands_before(
                        j,
                    )].0 == (#[trigger] format.segments@[j]).seg_type,
            decreases n - i,
        {
            if !matches!(format.segments[i].seg_type, SegType::Main) {
                proof {
                    format.lemma_operands_before_monotone(i as int, n as int);
                }
                assert(k < self.segments.len());
                if self.segments[k].0 != format.segments[i].seg_type {
                    assert(self.segments@[format.operands_before(i as int)].0
                        != format.segments@[i as int].seg_type);
                    return false;
                }
                k += 1;
            }
            i += 1;
        }
        true
    }
}

/// An assembly language for a processor.
pub struct LanguageDefinition {
    pub processor_def: ProcessorDefinition,
    /// The patterns that a line is held against, all of them and in this order.
    /// Their named groups give the parts of the line.
    pub regex_list: Vec<String>,
    /// The mnemonics, each with its shapes in the order in which they are tried.
    pub commands: Vec<(String, Vec<CommandDefinition>)>,
}

impl LanguageDefinition {
    /// Whether the shape is encoded in a format that the processor has, with
    /// its entries aligned to that format's fields.
    pub open spec fn variant_ok(&self, variant: &CommandDefinition) -> bool {
        self.processor_def.position(variant.format_index) matches Some(p) && variant.aligned(
            &self.processor_def.formats@[p],
        )
    }

    /// The processor is well formed and every shape of every mnemonic fits it.
    pub open spec fn wf(&self) -> bool {
        &&& self.processor_def.wf()
        &&& forall|m: int, v: int|
            0 <= m < self.commands@.len() && 0 <= v < self.commands@[m].1@.len()
                ==> self.variant_ok(&#[trigger] self.commands@[m].1@[v])
    }

    /// Replaces the patterns that a line is held against by those that the
    /// pieces of `syntax` make up.
    pub fn set_syntax(&mut self, syntax: &LineSyntax)
        ensures
            texts_view(final(self).regex_list@) == syntax.patterns(),
            final(self).processor_def == old(self).processor_def,
            final(self).commands == old(self).commands,
    {
        self.regex_list = syntax.line_patterns();
    }

    /// The mnemonics, each with its shapes in the order in which they are tried.
    pub fn mnemonics(&self) -> (all: &Vec<(String, Vec<CommandDefinition>)>)
        ensures
            *all == self.commands,
    {
        &self.commands
    }

    /// The instruction formats of the processor.
    pub fn formats(&self) -> (all: &Vec<Format>)
        ensures
            *all == self.processor_def.formats,
    {
        &self.processor_def.formats
    }

    /// Whether every pattern of the language compiles: those that a line is
    /// held against, and those of the shapes of the mnemonics.
    pub open spec fn patterns_compile(&self) -> bool {
        &&& forall|i: int|
            0 <= i < self.regex_list@.len() ==> pattern_compiles((#[trigger] self.regex_list@[i])@)
        &&& forall|m: int, v: int|
            0 <= m < self.commands@.len() && 0 <= v < self.commands@[m].1@.len()
                ==> pattern_compiles((#[trigger] self.commands@[m].1@[v]).regex@)
    }

    /// Checks that every pattern of the language compiles. A pattern that does
    /// not compile matches nothing.
    pub fn check_patterns(&self) -> (ok: bool)
        ensures
            ok == self.patterns_compile(),
    {
        let n = self.regex_list.len();
        let mut i: usize = 0;
        while i < n
            invariant
                n == self.regex_list@.len(),
                i <= n,
                forall|j: int| 0 <= j < i ==> pattern_compiles((#[trigger] self.regex_list@[j])@),
            decreases n - i,
        {
            if !compiles(self.regex_list[i].as_str()) {
                assert(!pattern_compiles(self.regex_list@[i as int]@));
                return false;
            }
            i += 1;
        }
        let count = self.commands.len();
        let mut m: usize = 0;
        while m < count
            invariant
                count == self.commands@.len(),
                m <= count,
                forall|j: int|
                    0 <= j < self.regex_list@.len() ==> pattern_compiles(
                        (#[trigger] self.regex_list@[j])@,
                    ),
                forall|a: int, v: int|
                    0 <= a < m && 0 <= v < self.commands@[a].1@.len() ==> pattern_compiles(
                        (#[trigger] self.commands@[a].1@[v]).regex@,
                    ),
            decreases count - m,
        {
            let variants = &self.commands[m].1;
            let mut v: usize = 0;
            while v < variants.len()
                invariant
                    count == self.commands@.len(),
                    m < count,
                    *variants == self.commands@[m as int].1,
                    v <= variants@.len(),
                    forall|b: int|
                        0 <= b < v ==> pattern_compiles(
                            (#[trigger] self.commands@[m as int].1@[b]).regex@,
                        ),
                decreases variants@.len() - v,
            {
                if !compiles(variants[v].regex.as_str()) {
                    assert(!pattern_compiles(self.commands@[m as int].1@[v as int].regex@));
                    return false;
                }
                v += 1;
            }
            m += 1;
        }
        true
    }

    /// Checks one shape against the processor.
    pub fn check_variant(&self, variant: &CommandDefinition) -> (ok: bool)
        ensures
            ok == self.variant_ok(variant),
    {
        match self.processor_def.find_format(variant.format_index) {
            Some(p) => variant.is_aligned(&self.processor_def.formats[p]),
            None => false,
        }
    }

    /// Checks the language against [`LanguageDefinition::wf`].
    pub fn is_valid(&self) -> (valid: bool)
        ensures
            valid == self.wf(),
    {
        if !self.processor_def.is_valid() {
            return false;
        }
        let n = self.commands.len();
        let mut m: usize = 0;
        while m < n
            invariant
                self.processor_def.wf(),
                n == self.commands@.len(),
                m <= n,
                forall|a: int, v: int|
                    0 <= a < m && 0 <= v < self.commands@[a].1@.len() ==> self.variant_ok(
                        &#[trigger] self.commands@[a].1@[v],
                    ),
            decreases n - m,
        {
            let variants = &self.commands[m].1;
            let mut v: usize = 0;
            while v < variants.len()
                invariant
                    n == self.commands@.len(),
                    m < n,
                    *variants == self.commands@[m as int].1,
                    v <= variants@.len(),
                    forall|b: int|
                        0 <= b < v ==> self.variant_ok(&#[trigger] self.commands@[m as int].1@[b]),
                decreases variants@.len() - v,
            {
                if !self.check_variant(&variants[v]) {
                    assert(!self.variant_ok(&self.commands@[m as int].1@[v as int]));
                    return false;
                }
                v += 1;
            }
            m += 1;
        }
        true
    }
}

} // verus!
