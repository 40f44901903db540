//! The default target: a processor in the style of ARM Thumb, and the assembly
//! language that is written for it.
use vstd::prelude::*;
use crate::compile::text::texts_view;
use crate::definitions::language::{CommandDefinition, LanguageDefinition};
use crate::definitions::processor::ProcessorDefinition;
use crate::definitions::syntax::{default_line_patterns, LineSyntax};
use crate::definitions::thumb_default::commands::{is_default_mnemonic, is_default_shape};
use crate::definitions::thumb_default::formats::is_default_format;

pub mod commands;
pub mod formats;

verus! {

/// Whether `processor` has the name, the nineteen formats, in the order of
/// their ids, and the sixteen registers of sixteen bits of the default
/// processor.
pub open spec fn is_default_processor(processor: &ProcessorDefinition) -> bool {
    &&& processor.name@ == "ARM Thumbv1"@
    &&& processor.num_register == 16
    &&& processor.register_size == 16
    &&& processor.formats@.len() == 19
    &&& forall|i: int| 0 <= i < 19 ==> is_default_format(&#[trigger] processor.formats@[i], i + 1)
}

/// In the default processor the format with id `n` stands at place `n - 1`.
pub proof fn lemma_default_positions(processor: &ProcessorDefinition, id: i32, start: int)
    requires
        is_default_processor(processor),
        1 <= id <= 19,
        0 <= start < id,
    ensures
        processor.position_from(id, start) == Some(id - 1),
    decreases id - start,
{
    assert(is_default_format(&processor.formats@[start], start + 1));
    if start + 1 < id {
        lemma_default_positions(processor, id, start + 1);
    }
}

impl Default for ProcessorDefinition {
    /// A processor in the style of ARM Thumb.
    fn default() -> (processor: ProcessorDefinition)
        ensures
            processor.wf(),
            is_default_processor(&processor),
    {
        let processor = ProcessorDefinition {
            name: "ARM Thumbv1".to_owned(),
            num_register: 16,
            register_size: 16,
            formats: vec![
                formats::move_shifted_register(),
                formats::add_subtract(),
                formats::move_compare_add_subtract_immediate(),
                formats::alu_operations(),
                formats::hi_register_operations(),
                formats::pc_relative_load(),
                formats::load_store_register_offset(),
                formats::load_store_sign_extended(),
                formats::load_store_immediate_offset(),
                formats::load_store_halfword(),
                formats::sp_relative_load_store(),
                formats::load_address(),
                formats::add_offset_to_stack_pointer(),
                formats::push_pop_registers(),
                formats::multiple_load_store(),
                formats::conditional_branch(),
                formats::software_interrupt(),
                formats::unconditional_branch(),
                formats::long_branch_with_link(),
            ],
        };
        assert(is_default_processor(&processor));
        assert forall|i: int, j: int|
            #![trigger processor.formats@[i], processor.formats@[j]]
            0 <= i < j < processor.formats@.len() implies processor.formats@[i].id
            != processor.formats@[j].id by {
            assert(is_default_format(&processor.formats@[i], i + 1));
            assert(is_default_format(&processor.formats@[j], j + 1));
        }
        assert forall|i: int|
            0 <= i < processor.formats@.len() implies #[trigger] processor.formats@[i].wf() by {
            assert(is_default_format(&processor.formats@[i], i + 1));
        }
        processor
    }
}

/// Whether the mnemonics are the first of the default language, each at its
/// place.
pub open spec fn all_default(commands: Seq<(String, Vec<CommandDefinition>)>) -> bool {
    forall|m: int| 0 <= m < commands.len() ==> is_default_mnemonic(&#[trigger] commands[m], m)
}

/// Appends the mnemonic of the next place to the list.
fn add_mnemonic(
    commands: &mut Vec<(String, Vec<CommandDefinition>)>,
    mnemonic: (String, Vec<CommandDefinition>),
)
    requires
        all_default(old(commands)@),
        is_default_mnemonic(&mnemonic, old(commands)@.len() as int),
    ensures
        all_default(final(commands)@),
        final(commands)@ == old(commands)@.push(mnemonic),
{
    commands.push(mnemonic);
}

/// A default shape fits the default processor: its format is there, and its
/// entries are aligned with the fields of the format.
pub proof fn lemma_default_shape_fits(language: &LanguageDefinition, variant: &CommandDefinition)
    requires
        is_default_processor(&language.processor_def),
        is_default_shape(variant),
    ensures
        language.variant_ok(variant),
{
    let id = variant.format_index;
    lemma_default_positions(&language.processor_def, id, 0);
    let format = language.processor_def.formats@[id - 1];
    assert(is_default_format(&format, id as int));
    variant.lemma_aligned_by_roles(&format);
}

impl Default for LanguageDefinition {
    /// The assembly language of the default processor.
    fn default() -> (language: LanguageDefinition)
        ensures
            language.wf(),
            is_default_processor(&language.processor_def),
            language.commands@.len() == 49,
            all_default(language.commands@),
            texts_view(language.regex_list@) == default_line_patterns(),
    {
        let mut list: Vec<(String, Vec<CommandDefinition>)> = Vec::new();
        add_mnemonic(&mut list, commands::adc_shapes());
        add_mnemonic(&mut list, commands::add_shapes());
        add_mnemonic(&mut list, commands::and_shapes());
        add_mnemonic(&mut list, commands::asr_shapes());
        add_mnemonic(&mut list, commands::b_shapes());
        add_mnemonic(&mut list, commands::beq_shapes());
        add_mnemonic(&mut list, commands::bne_shapes());
        add_mnemonic(&mut list, commands::bcs_shapes());
        add_mnemonic(&mut list, commands::bcc_shapes());
        add_mnemonic(&mut list, commands::bmi_shapes());
        add_mnemonic(&mut list, commands::bpl_shapes());
        add_mnemonic(&mut list, commands::bvs_shapes());
        add_mnemonic(&mut list, commands::bvc_shapes());
        add_mnemonic(&mut list, commands::bhi_shapes());
        add_mnemonic(&mut list, commands::bls_shapes());
        add_mnemonic(&mut list, commands::bge_shapes());
        add_mnemonic(&mut list, commands::blt_shapes());
        add_mnemonic(&mut list, commands::bgt_shapes());
        add_mnemonic(&mut list, commands::ble_shapes());
        add_mnemonic(&mut list, commands::bic_shapes());
        add_mnemonic(&mut list, commands::bl_shapes());
        add_mnemonic(&mut list, commands::bx_shapes());
        add_mnemonic(&mut list, commands::cmn_shapes());
        add_mnemonic(&mut list, commands::cmp_shapes());
        add_mnemonic(&mut list, commands::eor_shapes());
        add_mnemonic(&mut list, commands::ldmia_shapes());
        add_mnemonic(&mut list, commands::ldr_shapes());
        add_mnemonic(&mut list, commands::ldrb_shapes());
        add_mnemonic(&mut list, commands::ldrh_shapes());
        add_mnemonic(&mut list, commands::lsl_shapes());
        add_mnemonic(&mut list, commands::ldsb_shapes());
        add_mnemonic(&mut list, commands::ldsh_shapes());
        add_mnemonic(&mut list, commands::lsr_shapes());
        add_mnemonic(&mut list, commands::mov_shapes());
        add_mnemonic(&mut list, commands::mul_shapes());
        add_mnemonic(&mut list, commands::mvn_shapes());
        add_mnemonic(&mut list, commands::neg_shapes());
        add_mnemonic(&mut list, commands::orr_shapes());
        add_mnemonic(&mut list, commands::pop_shapes());
        add_mnemonic(&mut list, commands::push_shapes());
        add_mnemonic(&mut list, commands::ror_shapes());
        add_mnemonic(&mut list, commands::sbc_shapes());
        add_mnemonic(&mut list, commands::stmia_shapes());
        add_mnemonic(&mut list, commands::str_shapes());
        add_mnemonic(&mut list, commands::strb_shapes());
        add_mnemonic(&mut list, commands::strh_shapes());
        add_mnemonic(&mut list, commands::swi_shapes());
        add_mnemonic(&mut list, commands::sub_shapes());
        add_mnemonic(&mut list, commands::tst_shapes());
        let language = LanguageDefinition {
            processor_def: ProcessorDefinition::default(),
            regex_list: LineSyntax::default().line_patterns(),
            commands: list,
        };
        proof {
            assert forall|m: int, v: int|
                0 <= m < language.commands@.len() && 0 <= v
                    < language.commands@[m].1@.len() implies language.variant_ok(
                &#[trigger] language.commands@[m].1@[v],
            ) by {
                assert(is_default_mnemonic(&language.commands@[m], m));
                lemma_default_shape_fits(&language, &language.commands@[m].1@[v]);
            }
        }
        language
    }
}

} // verus!
