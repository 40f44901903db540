use kgemu::compile::encode::{
    bytes_of_words, decode_words, encode_command, kind_of_overflow, push_all,
};
use kgemu::definitions::bits::from_field;
use kgemu::compile::error::ErrorKind;
use kgemu::compile::parse_code::{OperandValue, ParsedCode, ParsedLine, SectionType};
use kgemu::compile::resolve::{
    lookup_symbol, reach_for, resolve_command, resolve_operand, Reach,
};
use kgemu::compile::parse_code::ParsedLabel;
use kgemu::compile::{hex_digit_of, to_binary, to_hex, Complier};
use kgemu::definitions::language::LanguageDefinition;
use kgemu::definitions::processor::{ProcessorDefinition, SegType};

fn compile(source: &str) -> Result<Vec<u8>, (ErrorKind, usize, String)> {
    let mut complier = Complier::default();
    match complier.compile_from_str(source) {
        Ok(()) => Ok(complier.get_bin().clone()),
        Err(error) => {
            assert!(complier.get_bin().is_empty());
            Err((error.kind, error.line, error.text))
        }
    }
}

fn word(source: &str) -> u16 {
    let bytes = compile(source).unwrap();
    assert_eq!(bytes.len(), 2, "{}", source);
    u16::from_be_bytes([bytes[0], bytes[1]])
}

fn kind(source: &str) -> ErrorKind {
    compile(source).unwrap_err().0
}

fn number(value: i64) -> OperandValue {
    OperandValue { value, relative: false }
}

fn distance(value: i64) -> OperandValue {
    OperandValue { value, relative: true }
}

#[test]
fn mov_immediate_encodes_in_format_3() {
    assert_eq!(word("MOV r1, #5"), 0b001_00_001_00000101);
    let mut complier = Complier::default();
    complier.compile_from_str("MOV r1, #5").unwrap();
    assert_eq!(complier.get_bin(), &vec![0x21, 0x05]);
    assert_eq!(complier.get_bin_as_hex(), "2105");
    assert_eq!(complier.get_bin_as_bin(), "0010000100000101");
    let unit = complier.parsed_code();
    assert_eq!(unit.commands.len(), 1);
    assert_eq!(unit.commands[0].format, 3);
    assert_eq!(unit.commands[0].op_code, "MOV");
    assert_eq!(
        unit.commands[0].operands,
        vec![
            (SegType::Op, "0".to_string()),
            (SegType::Destination, "r1".to_string()),
            (SegType::Immediate, "5".to_string()),
        ]
    );
    assert_eq!(unit.commands[0].values, vec![number(0), number(1), number(5)]);
}

#[test]
fn add_of_three_registers_selects_the_register_shape() {
    let mut complier = Complier::default();
    complier.compile_from_str("ADD r2, r0, r1").unwrap();
    let command = &complier.parsed_code().commands[0];
    assert_eq!(command.format, 2);
    assert_eq!(command.operands[0], (SegType::Flag, "0".to_string()));
    assert_eq!(command.operands[1], (SegType::Op, "0".to_string()));
    assert_eq!(command.operands[2], (SegType::Immediate, "r1".to_string()));
    assert_eq!(command.operands[3], (SegType::Source, "r0".to_string()));
    assert_eq!(command.operands[4], (SegType::Destination, "r2".to_string()));
    assert_eq!(complier.get_bin(), &vec![0x18, 0x42]);
}

#[test]
fn add_with_a_number_selects_the_immediate_shape() {
    assert_eq!(word("ADD r2, r0, #1"), 0x1C42);
    assert_eq!(word("ADD r2, #200"), 0x32C8);
    assert_eq!(word("SUB r2, r0, r1"), 0x1A42);
    assert_eq!(word("SUB r2, r0, #7"), 0x1FC2);
}

#[test]
fn a_label_may_be_used_before_it_is_defined() {
    let source = "BEQ done\nMOV r0, #1\nMOV r0, #2\nMOV r0, #3\ndone: MOV r1, #2\n";
    let bytes = compile(source).unwrap();
    assert_eq!(bytes, vec![0xD0, 0x02, 0x20, 0x01, 0x20, 0x02, 0x20, 0x03, 0x21, 0x02]);
    assert_eq!(compile("BEQ loop\nloop:\n"), Ok(vec![0xD0, 0xFF]));
    assert_eq!(compile("BEQ loop\nMOV r0, #0\nloop:\n"), Ok(vec![0xD0, 0x00, 0x20, 0x00]));
}

#[test]
fn a_label_may_be_used_after_it_is_defined() {
    assert_eq!(compile("loop: MOV r0, #1\nB loop\n"), Ok(vec![0x20, 0x01, 0xE7, 0xFD]));
    assert_eq!(compile("loop: BNE loop"), Ok(vec![0xD1, 0xFE]));
}

#[test]
fn a_label_that_is_never_defined_is_an_error() {
    assert_eq!(
        compile("MOV r0, #1\nBEQ loop\n"),
        Err((ErrorKind::UndefinedSymbol, 1, "loop".to_string()))
    );
}

#[test]
fn a_number_too_large_for_its_field_overflows() {
    assert_eq!(
        compile("MOV r0, #256"),
        Err((ErrorKind::ImmediateOverflow, 0, "MOV r0, #256".to_string()))
    );
    assert_eq!(word("MOV r0, #255"), 0x20FF);
    assert_eq!(kind("ADD r0, r1, #8"), ErrorKind::ImmediateOverflow);
    assert_eq!(kind("LSL r0, r1, #32"), ErrorKind::ImmediateOverflow);
    assert_eq!(kind("MOV r0, #0x1FFFFFFFF"), ErrorKind::ImmediateOverflow);
}

#[test]
fn an_unknown_mnemonic_is_an_error_and_takes_no_room() {
    assert_eq!(
        compile("FOO r0, r1"),
        Err((ErrorKind::UnknownMnemonic, 0, "FOO r0, r1".to_string()))
    );
    let def = LanguageDefinition::default();
    let mut unit = ParsedCode::default();
    unit.parse_from_str("test", "FOO r0, r1\nhere: MOV r0, #1\n", &def);
    assert_eq!(unit.errors.len(), 1);
    assert_eq!(unit.errors[0].kind, ErrorKind::UnknownMnemonic);
    assert_eq!(unit.errors[0].line, 0);
    assert_eq!(unit.lines[0].size, 0);
    assert_eq!(unit.lines[0].command, None);
    assert_eq!(unit.lines[1].size, 2);
    assert_eq!(unit.commands.len(), 1);
    unit.assign_addresses().unwrap();
    assert_eq!(unit.labels.len(), 1);
    assert_eq!(unit.labels[0].name, "here");
    assert_eq!(unit.labels[0].address, 0);
    assert_eq!(unit.commands[0].address, 0);
}

#[test]
fn a_command_with_none_of_the_shapes_is_an_error() {
    assert_eq!(
        compile("MOV r1"),
        Err((ErrorKind::InvalidOperandSyntax, 0, "MOV r1".to_string()))
    );
    assert_eq!(kind("MOV r8, #1"), ErrorKind::InvalidOperandSyntax);
    assert_eq!(kind("ADC r1, r2, r3"), ErrorKind::InvalidOperandSyntax);
    assert_eq!(kind("ASR r1, r2, r3"), ErrorKind::InvalidOperandSyntax);
    assert_eq!(kind("MOV r1, #5 junk"), ErrorKind::InvalidOperandSyntax);
    assert_eq!(kind("B"), ErrorKind::InvalidOperandSyntax);
}

#[test]
fn a_label_defined_twice_is_an_error() {
    assert_eq!(
        compile("a: MOV r0, #1\nb: MOV r0, #2\na: MOV r0, #3\n"),
        Err((ErrorKind::DuplicateSymbol, 2, "a".to_string()))
    );
}

#[test]
fn a_line_that_shows_no_part_is_an_error() {
    assert_eq!(compile("%%%"), Err((ErrorKind::TokenizeError, 0, "%%%".to_string())));
    assert_eq!(compile("MOV r0, #1\n 12 34\n").unwrap_err().0, ErrorKind::TokenizeError);
    assert_eq!(compile("\n   \n\t\n"), Ok(vec![]));
    assert_eq!(compile(""), Ok(vec![]));
}

fn branch_over(count: usize) -> String {
    let mut source = String::from("BEQ far\n");
    for _ in 0..count {
        source.push_str("MOV r0, #0\n");
    }
    source.push_str("far:\n");
    source
}

fn branch_back(count: usize) -> String {
    let mut source = String::from("far:\n");
    for _ in 0..count {
        source.push_str("MOV r0, #0\n");
    }
    source.push_str("BEQ far\n");
    source
}

#[test]
fn a_branch_too_far_is_out_of_range() {
    let bytes = compile(&branch_over(128)).unwrap();
    assert_eq!(&bytes[0..2], &[0xD0, 0x7F]);
    assert_eq!(
        compile(&branch_over(129)).unwrap_err(),
        (ErrorKind::OffsetOutOfRange, 0, "BEQ far".to_string())
    );
    let bytes = compile(&branch_back(126)).unwrap();
    assert_eq!(&bytes[252..254], &[0xD0, 0x80]);
    assert_eq!(
        compile(&branch_back(127)).unwrap_err(),
        (ErrorKind::OffsetOutOfRange, 128, "BEQ far".to_string())
    );
}

#[test]
fn a_selector_outside_its_legal_values_is_an_error() {
    let processor = ProcessorDefinition::default();
    let shift = processor.format(1).unwrap();
    let values = vec![number(3), number(4), number(1), number(2)];
    assert_eq!(encode_command(shift, &values), Err(ErrorKind::InvalidFixedFieldValue));
    let values = vec![number(2), number(4), number(1), number(2)];
    assert_eq!(encode_command(shift, &values), Ok(vec![0x110A]));
    let values = vec![number(4), number(4), number(1), number(2)];
    assert_eq!(encode_command(shift, &values), Err(ErrorKind::InvalidFixedFieldValue));
    let branch = processor.format(16).unwrap();
    assert_eq!(
        encode_command(branch, &vec![number(14), distance(1)]),
        Err(ErrorKind::InvalidFixedFieldValue)
    );
    assert_eq!(encode_command(branch, &vec![number(13), distance(1)]), Ok(vec![0xDD01]));
}

#[test]
fn the_kind_of_an_overflow_follows_the_operand() {
    assert_eq!(kind_of_overflow(SegType::Offset, true), ErrorKind::OffsetOutOfRange);
    assert_eq!(kind_of_overflow(SegType::Immediate, true), ErrorKind::OffsetOutOfRange);
    assert_eq!(kind_of_overflow(SegType::Offset, false), ErrorKind::ImmediateOverflow);
    assert_eq!(kind_of_overflow(SegType::Immediate, false), ErrorKind::ImmediateOverflow);
    assert_eq!(kind_of_overflow(SegType::Source, false), ErrorKind::ImmediateOverflow);
    assert_eq!(kind_of_overflow(SegType::Op, false), ErrorKind::InvalidFixedFieldValue);
    assert_eq!(kind_of_overflow(SegType::Flag, false), ErrorKind::InvalidFixedFieldValue);
    assert_eq!(kind_of_overflow(SegType::Condition, false), ErrorKind::InvalidFixedFieldValue);
}

#[test]
fn encode_command_wants_one_value_for_each_field() {
    let processor = ProcessorDefinition::default();
    let format = processor.format(3).unwrap();
    assert_eq!(
        encode_command(format, &vec![number(0), number(1)]),
        Err(ErrorKind::InvalidOperandSyntax)
    );
    assert_eq!(encode_command(format, &vec![number(0), number(1), number(5)]), Ok(vec![0x2105]));
    assert_eq!(
        encode_command(format, &vec![number(0), number(1), number(-1)]),
        Ok(vec![0x21FF])
    );
    assert_eq!(
        encode_command(format, &vec![number(0), number(8), number(256)]),
        Err(ErrorKind::ImmediateOverflow)
    );
}

#[test]
fn a_long_branch_takes_two_words() {
    let source = "BL func\nMOV r0, #0\nMOV r0, #0\nfunc: MOV r0, #0\n";
    let bytes = compile(source).unwrap();
    assert_eq!(bytes, vec![0xF0, 0x00, 0xF8, 0x02, 0x20, 0x00, 0x20, 0x00, 0x20, 0x00]);
    let bytes = compile("func: MOV r0, #0\nBL func\n").unwrap();
    assert_eq!(bytes, vec![0x20, 0x00, 0xF7, 0xFF, 0xFF, 0xFD]);
    let processor = ProcessorDefinition::default();
    let format = processor.format(19).unwrap();
    assert_eq!(
        encode_command(format, &vec![number(0), distance(0x12345)]),
        Ok(vec![0xF024, 0xFB45])
    );
    assert_eq!(
        encode_command(format, &vec![number(0), distance(0x1FFFFF)]),
        Ok(vec![0xF3FF, 0xFFFF])
    );
    assert_eq!(
        encode_command(format, &vec![number(0), distance(0x200000)]),
        Err(ErrorKind::OffsetOutOfRange)
    );
    assert_eq!(
        encode_command(format, &vec![number(0), distance(-0x200000)]),
        Ok(vec![0xF400, 0xF800])
    );
    assert_eq!(
        encode_command(format, &vec![number(0), distance(-0x200001)]),
        Err(ErrorKind::OffsetOutOfRange)
    );
}

#[test]
fn a_long_branch_moves_the_labels_behind_it_by_four() {
    let def = LanguageDefinition::default();
    let mut unit = ParsedCode::default();
    unit.parse_from_str("test", "BL f\nf: MOV r0, #0\ng:\n", &def);
    assert_eq!(unit.lines[0].size, 4);
    unit.resolve(&def).unwrap();
    assert_eq!(unit.labels[0].address, 4);
    assert_eq!(unit.labels[1].address, 6);
    assert_eq!(unit.commands[1].address, 4);
    assert_eq!(unit.commands[0].values, vec![number(0), distance(0)]);
}

#[test]
fn every_kind_of_instruction_encodes() {
    assert_eq!(word("LSL r2, r1, #4"), 0x010A);
    assert_eq!(word("LSR r2, r1, #4"), 0x090A);
    assert_eq!(word("ASR r2, r1, #4"), 0x110A);
    assert_eq!(word("CMP r1, #5"), 0x2905);
    assert_eq!(word("AND r1, r2"), 0x4011);
    assert_eq!(word("EOR r1, r2"), 0x4051);
    assert_eq!(word("LSL r1, r2"), 0x4091);
    assert_eq!(word("ADC r1, r2"), 0x4151);
    assert_eq!(word("TST r1, r2"), 0x4211);
    assert_eq!(word("NEG r1, r2"), 0x4251);
    assert_eq!(word("CMP r1, r2"), 0x4291);
    assert_eq!(word("CMN r1, r2"), 0x42D1);
    assert_eq!(word("ORR r1, r2"), 0x4311);
    assert_eq!(word("MUL r1, r2"), 0x4351);
    assert_eq!(word("BIC r1, r2"), 0x4391);
    assert_eq!(word("MVN r1, r2"), 0x43D1);
    assert_eq!(word("ADD r1, h2"), 0x4451);
    assert_eq!(word("ADD h1, r2"), 0x4491);
    assert_eq!(word("ADD h1, h2"), 0x44D1);
    assert_eq!(word("CMP r1, h2"), 0x4551);
    assert_eq!(word("MOV h1, r2"), 0x4691);
    assert_eq!(word("BX r3"), 0x4718);
    assert_eq!(word("BX h3"), 0x4758);
    assert_eq!(word("LDR r1, [pc, #12]"), 0x490C);
    assert_eq!(word("STR r1, [r2, r3]"), 0x50D1);
    assert_eq!(word("LDR r1, [r2, r3]"), 0x58D1);
    assert_eq!(word("STRB r1, [r2, r3]"), 0x54D1);
    assert_eq!(word("LDRB r1, [r2, r3]"), 0x5CD1);
    assert_eq!(word("STRH r1, [r2, r3]"), 0x52D1);
    assert_eq!(word("LDRH r1, [r2, r3]"), 0x5AD1);
    assert_eq!(word("LDSB r1, [r2, r3]"), 0x56D1);
    assert_eq!(word("LDSH r1, [r2, r3]"), 0x5ED1);
    assert_eq!(word("STR r1, [r2, #4]"), 0x6111);
    assert_eq!(word("LDR r1, [r2, #4]"), 0x6911);
    assert_eq!(word("STRB r1, [r2, #4]"), 0x7111);
    assert_eq!(word("LDRB r1, [r2, #4]"), 0x7911);
    assert_eq!(word("STRH r1, [r2, #4]"), 0x8111);
    assert_eq!(word("LDRH r1, [r2, #4]"), 0x8911);
    assert_eq!(word("STR r1, [sp, #4]"), 0x9104);
    assert_eq!(word("LDR r1, [sp, #4]"), 0x9904);
    assert_eq!(word("ADD r1, pc, #4"), 0xA104);
    assert_eq!(word("ADD r1, sp, #4"), 0xA904);
    assert_eq!(word("ADD sp, #4"), 0xB004);
    assert_eq!(word("ADD sp, #-4"), 0xB084);
    assert_eq!(word("PUSH {r4, lr}"), 0xB510);
    assert_eq!(word("PUSH {r0, r1}"), 0xB403);
    assert_eq!(word("POP {r0, r1, pc}"), 0xBD03);
    assert_eq!(word("POP {r7}"), 0xBC80);
    assert_eq!(word("STMIA r1!, {r0, r2}"), 0xC105);
    assert_eq!(word("LDMIA r1!, {r0, r2}"), 0xC905);
    assert_eq!(word("SWI 17"), 0xDF11);
    assert_eq!(word("SBC r1, r2"), 0x4191);
    assert_eq!(word("ROR r1, r2"), 0x41D1);
}

#[test]
fn every_condition_has_its_branch() {
    let names = [
        "BEQ", "BNE", "BCS", "BCC", "BMI", "BPL", "BVS", "BVC", "BHI", "BLS", "BGE", "BLT", "BGT",
        "BLE",
    ];
    for (code, name) in names.iter().enumerate() {
        let source = format!("x: {} x", name);
        assert_eq!(word(&source), 0xD0FE | ((code as u16) << 8), "{}", name);
    }
}

#[test]
fn mnemonics_and_registers_are_read_in_either_case() {
    assert_eq!(word("mov R1, #5"), 0x2105);
    assert_eq!(word("Mov r1,#0x05"), 0x2105);
    assert_eq!(word("  MOV   r1 ,  #5   @ five"), 0x2105);
    assert_eq!(word("\tadd\tr2,\tr0,\tr1"), 0x1842);
}

#[test]
fn directives_declare_data() {
    assert_eq!(compile(".word 0x12345678"), Ok(vec![0x12, 0x34, 0x56, 0x78]));
    assert_eq!(compile(".hword 258"), Ok(vec![1, 2]));
    assert_eq!(compile(".byte 255"), Ok(vec![255]));
    assert_eq!(compile(".byte -1"), Ok(vec![255]));
    assert_eq!(compile(".byte #7"), Ok(vec![7]));
    assert_eq!(compile(".word -2"), Ok(vec![0xFF, 0xFF, 0xFF, 0xFE]));
    assert_eq!(compile(".ascii \"hi\""), Ok(vec![b'h', b'i']));
    assert_eq!(compile(".ascii \"\""), Ok(vec![]));
    assert_eq!(compile(".text\n.global main\n"), Ok(vec![]));
    assert_eq!(kind(".byte 256"), ErrorKind::ImmediateOverflow);
    assert_eq!(kind(".hword 65536"), ErrorKind::ImmediateOverflow);
    assert_eq!(kind(".byte -129"), ErrorKind::ImmediateOverflow);
    assert_eq!(kind(".byte"), ErrorKind::InvalidOperandSyntax);
    assert_eq!(kind(".word main"), ErrorKind::InvalidOperandSyntax);
    assert_eq!(kind(".ascii 5"), ErrorKind::InvalidOperandSyntax);
}

#[test]
fn data_takes_its_room_among_the_instructions() {
    let source = "B over\nvalue: .word 0xCAFEBABE\nmark: .byte 1\nover: MOV r0, #1\n";
    let mut complier = Complier::default();
    complier.compile_from_str(source).unwrap();
    assert_eq!(
        complier.get_bin(),
        &vec![0xE0, 0x01, 0xCA, 0xFE, 0xBA, 0xBE, 0x01, 0x20, 0x01]
    );
    let unit = complier.parsed_code();
    assert_eq!(unit.vars.len(), 2);
    assert_eq!(unit.vars[0].label, "value");
    assert_eq!(unit.vars[0].address, 2);
    assert_eq!(unit.vars[0].size, 4);
    assert_eq!(unit.vars[0].value, "0xCAFEBABE");
    assert_eq!(unit.vars[1].address, 6);
    assert_eq!(unit.labels.len(), 3);
    assert_eq!(unit.labels[2].name, "over");
    assert_eq!(unit.labels[2].address, 7);
}

#[test]
fn compiling_twice_gives_the_same_bytes() {
    let source = "start: MOV r0, #1\nBEQ end\nB start\nBL start\n.word 7\nend: ADD r0, r0, r1\n";
    let mut complier = Complier::default();
    complier.compile_from_str(source).unwrap();
    let first = complier.get_bin().clone();
    complier.compile().unwrap();
    assert_eq!(complier.get_bin(), &first);
    let def = LanguageDefinition::default();
    let mut unit = ParsedCode::default();
    unit.parse_from_str("twice", source, &def);
    let once = unit.assemble(&def).unwrap();
    let twice = unit.assemble(&def).unwrap();
    assert_eq!(once, twice);
    assert_eq!(once, first);
    assert_eq!(unit.labels.len(), 2);
}

#[test]
fn all_the_errors_of_parsing_are_noted() {
    let mut complier = Complier::default();
    complier.parse_from_str("FOO\n%%%\nMOV r1\nMOV r1, #1\n.byte x\n");
    let unit = complier.parsed_code();
    let kinds: Vec<ErrorKind> = unit.errors.iter().map(|e| e.kind).collect();
    assert_eq!(
        kinds,
        vec![
            ErrorKind::UnknownMnemonic,
            ErrorKind::TokenizeError,
            ErrorKind::InvalidOperandSyntax,
            ErrorKind::InvalidOperandSyntax,
        ]
    );
    let lines: Vec<usize> = unit.errors.iter().map(|e| e.line).collect();
    assert_eq!(lines, vec![0, 1, 2, 4]);
    assert_eq!(unit.lines.len(), 5);
    assert_eq!(unit.commands.len(), 1);
    assert_eq!(unit.commands[0].line, 3);
    let error = complier.compile().unwrap_err();
    assert_eq!(error.kind, ErrorKind::UnknownMnemonic);
    assert_eq!(error.line, 0);
    assert_eq!(error.text, "FOO");
}

#[test]
fn the_complier_keeps_what_it_was_given() {
    let mut complier = Complier::new(LanguageDefinition::default());
    assert!(complier.get_bin().is_empty());
    complier.load_from_str("MOV r1, #5\n");
    assert!(complier.parsed_code().lines.is_empty());
    complier.parse();
    assert_eq!(complier.parsed_code().lines.len(), 1);
    assert_eq!(complier.parsed_code().lines[0].text, "MOV r1, #5");
    assert!(complier.get_bin().is_empty());
    complier.compile().unwrap();
    assert_eq!(complier.get_bin_as_hex(), "2105");
    complier.set_def(LanguageDefinition::default());
    assert!(complier.get_bin().is_empty());
    assert!(complier.parsed_code().lines.is_empty());
    assert_eq!(complier.language_def().commands.len(), 49);
    complier.compile().unwrap();
    assert!(complier.get_bin().is_empty());
}

#[test]
fn an_error_leaves_no_bytes() {
    let mut complier = Complier::default();
    complier.compile_from_str("MOV r1, #5").unwrap();
    assert_eq!(complier.get_bin().len(), 2);
    assert!(complier.compile_from_str("MOV r1, #5\nMOV r1, #256\n").is_err());
    assert!(complier.get_bin().is_empty());
    assert_eq!(complier.get_bin_as_hex(), "");
    assert_eq!(complier.get_bin_as_bin(), "");
}

#[test]
fn bytes_are_written_in_hexadecimal_and_in_binary() {
    assert_eq!(to_hex(&vec![]), "");
    assert_eq!(to_hex(&vec![0x00, 0x0F, 0xA5, 0xFF]), "000FA5FF");
    assert_eq!(to_binary(&vec![0x00, 0x0F, 0xA5]), "000000000000111110100101");
    assert_eq!(to_binary(&vec![]), "");
    assert_eq!(hex_digit_of(0), '0');
    assert_eq!(hex_digit_of(9), '9');
    assert_eq!(hex_digit_of(10), 'A');
    assert_eq!(hex_digit_of(15), 'F');
}

#[test]
fn words_are_written_with_the_upper_byte_first() {
    assert_eq!(bytes_of_words(&vec![0x2105, 0xF802]), vec![0x21, 0x05, 0xF8, 0x02]);
    assert_eq!(bytes_of_words(&vec![]), Vec::<u8>::new());
    let mut bytes = vec![1, 2];
    push_all(&mut bytes, &vec![3, 4, 5]);
    assert_eq!(bytes, vec![1, 2, 3, 4, 5]);
}

#[test]
fn operands_are_resolved_by_their_form() {
    let labels = vec![
        ParsedLabel { name: "start".to_string(), address: 0 },
        ParsedLabel { name: "end".to_string(), address: 100 },
    ];
    let halfwords = Reach { bias: 4, shift: 1 };
    let resolve =
        |text: &str, address: u32| resolve_operand(&text.to_string(), &labels, address, halfwords);
    assert_eq!(resolve("r3", 0), Ok(number(3)));
    assert_eq!(resolve("h3", 0), Ok(number(3)));
    assert_eq!(resolve("pc", 0), Ok(number(7)));
    assert_eq!(resolve("{r0, r4}", 0), Ok(number(0x11)));
    assert_eq!(resolve("0x10", 0), Ok(number(16)));
    assert_eq!(resolve("#-3", 0), Ok(number(-3)));
    assert_eq!(resolve("end", 0), Ok(distance(48)));
    assert_eq!(resolve("end", 96), Ok(distance(0)));
    assert_eq!(resolve("end", 98), Ok(distance(-1)));
    assert_eq!(resolve("start", 10), Ok(distance(-7)));
    assert_eq!(resolve("start", 11), Ok(distance(-8)));
    assert_eq!(resolve("end", 1), Ok(distance(47)));
    assert_eq!(resolve("middle", 0), Err(ErrorKind::UndefinedSymbol));
    assert_eq!(resolve("99999999999", 0), Err(ErrorKind::ImmediateOverflow));
    assert_eq!(resolve("1x", 0), Err(ErrorKind::InvalidOperandSyntax));
    assert_eq!(resolve("", 0), Err(ErrorKind::InvalidOperandSyntax));
    assert_eq!(lookup_symbol(&labels, &"end".to_string()), Some(100));
    assert_eq!(lookup_symbol(&labels, &"End".to_string()), None);
    let operands = vec![
        (SegType::Condition, "0".to_string()),
        (SegType::Offset, "end".to_string()),
    ];
    assert_eq!(
        resolve_command(&operands, &labels, 0, halfwords),
        Ok(vec![number(0), distance(48)])
    );
    let operands = vec![
        (SegType::Condition, "0".to_string()),
        (SegType::Offset, "nowhere".to_string()),
        (SegType::Offset, "1x".to_string()),
    ];
    assert_eq!(
        resolve_command(&operands, &labels, 0, halfwords),
        Err((1, ErrorKind::UndefinedSymbol))
    );
    let end = "end".to_string();
    let start = "start".to_string();
    let bytes = Reach { bias: 0, shift: 0 };
    assert_eq!(resolve_operand(&end, &labels, 30, bytes), Ok(distance(70)));
    assert_eq!(resolve_operand(&start, &labels, 30, bytes), Ok(distance(-30)));
    let words = Reach { bias: 8, shift: 2 };
    assert_eq!(resolve_operand(&end, &labels, 0, words), Ok(distance(23)));
    assert_eq!(resolve_operand(&end, &labels, 1, words), Ok(distance(22)));
    assert_eq!(resolve_operand(&start, &labels, 0, words), Ok(distance(-2)));
    assert_eq!(resolve_operand(&start, &labels, 1, words), Ok(distance(-3)));
    assert_eq!(resolve_operand(&start, &labels, 92, words), Ok(distance(-25)));
    let far = Reach { bias: 0, shift: 31 };
    assert_eq!(resolve_operand(&start, &labels, 1, far), Ok(distance(-1)));
    assert_eq!(resolve_operand(&end, &labels, 1, far), Ok(distance(0)));
    let def = LanguageDefinition::default();
    assert_eq!(reach_for(&def, 16), halfwords);
    assert_eq!(reach_for(&def, 77), bytes);
}

#[test]
fn error_kinds_have_names() {
    assert_eq!(ErrorKind::TokenizeError.name(), "TokenizeError");
    assert_eq!(ErrorKind::UnknownMnemonic.name(), "UnknownMnemonic");
    assert_eq!(ErrorKind::InvalidOperandSyntax.name(), "InvalidOperandSyntax");
    assert_eq!(ErrorKind::DuplicateSymbol.name(), "DuplicateSymbol");
    assert_eq!(ErrorKind::UndefinedSymbol.name(), "UndefinedSymbol");
    assert_eq!(ErrorKind::ImmediateOverflow.name(), "ImmediateOverflow");
    assert_eq!(ErrorKind::OffsetOutOfRange.name(), "OffsetOutOfRange");
    assert_eq!(ErrorKind::InvalidFixedFieldValue.name(), "InvalidFixedFieldValue");
}

#[test]
fn a_unit_is_checked_for_its_form() {
    let def = LanguageDefinition::default();
    let mut unit = ParsedCode::default();
    assert!(unit.is_well_formed());
    unit.parse_from_str("x", "a: MOV r0, #1\n.byte 1\nB a\n", &def);
    assert!(unit.is_well_formed());
    unit.lines[0].command = Some(7);
    assert!(!unit.is_well_formed());
    unit.lines[0].command = Some(0);
    unit.lines[1].var = Some(1);
    assert!(!unit.is_well_formed());
    unit.lines[1].var = Some(0);
    unit.commands[1].line = 3;
    assert!(!unit.is_well_formed());
    unit.commands[1].line = 2;
    unit.vars[0].line = 9;
    assert!(!unit.is_well_formed());
    unit.vars[0].line = 1;
    assert!(unit.is_well_formed());
    assert_eq!(unit.assemble(&def), Ok(vec![0x20, 0x01, 0x01, 0xE7, 0xFC]));
}

#[test]
fn the_second_pass_reads_the_address_that_a_command_holds() {
    let def = LanguageDefinition::default();
    let mut unit = ParsedCode::default();
    unit.parse_from_str("x", "a: MOV r0, #1\nB a\n", &def);
    unit.assign_addresses().unwrap();
    assert_eq!(unit.commands[1].address, 2);
    unit.resolve_operands(&def).unwrap();
    assert_eq!(unit.commands[1].values, vec![distance(-3)]);
    unit.commands[1].address = 10;
    unit.resolve_operands(&def).unwrap();
    assert_eq!(unit.commands[1].values, vec![distance(-7)]);
    unit.resolve(&def).unwrap();
    assert_eq!(unit.commands[1].values, vec![distance(-3)]);
    assert_eq!(unit.emit(&def), Ok(vec![0x20, 0x01, 0xE7, 0xFD]));
}

#[test]
fn the_output_is_as_long_as_the_lines_are_large() {
    let source = "a: MOV r0, #1\nBL a\n.word 1\n.ascii \"abc\"\n\nb: B b\n";
    let mut complier = Complier::default();
    complier.compile_from_str(source).unwrap();
    let unit = complier.parsed_code();
    let total: u32 = unit.lines.iter().map(|l| l.size).sum();
    assert_eq!(total as usize, complier.get_bin().len());
    assert_eq!(total, 2 + 4 + 4 + 3 + 2);
    assert_eq!(unit.labels[1].address, 13);
}

#[test]
fn the_words_of_an_instruction_are_read_back() {
    let processor = ProcessorDefinition::default();
    let format = processor.format(3).unwrap();
    assert_eq!(decode_words(format, &vec![0x2105]), Some(vec![0, 1, 5]));
    assert_eq!(decode_words(format, &vec![0x2105, 0xFFFF]), Some(vec![0, 1, 5]));
    assert_eq!(decode_words(format, &vec![]), None);
    assert_eq!(decode_words(format, &vec![0x4105]), None);
    let branch = processor.format(16).unwrap();
    let words = encode_command(branch, &vec![number(1), distance(-2)]).unwrap();
    let bits = decode_words(branch, &words).unwrap();
    assert_eq!(bits, vec![1, 0xFE]);
    assert_eq!(from_field(bits[1], 8), -2);
    assert_eq!(decode_words(branch, &vec![0xDE00]), None);
    let long = processor.format(19).unwrap();
    for value in [0i64, 1, -1, 0x12345, -0x12345, 0x1FFFFF, -0x200000] {
        let words = encode_command(long, &vec![number(0), distance(value)]).unwrap();
        assert_eq!(words.len(), 2);
        let bits = decode_words(long, &words).unwrap();
        assert_eq!(bits[0], 0);
        assert_eq!(from_field(bits[1], 22), value);
    }
    assert_eq!(decode_words(long, &vec![0xF024, 0xFB45]), Some(vec![0, 0x12345]));
    assert_eq!(decode_words(long, &vec![0xF024]), None);
    assert_eq!(decode_words(long, &vec![0xF024, 0xE345]), None);
}

#[test]
fn every_instruction_is_read_back_as_it_was_resolved() {
    let source = "a: MOV r1, #5\nADD r2, r0, r1\nBNE a\nPUSH {r4, lr}\nLDR r1, [r2, #4]\nB a\n";
    let mut complier = Complier::default();
    complier.compile_from_str(source).unwrap();
    let unit = complier.parsed_code();
    let def = complier.language_def();
    let bytes = complier.get_bin();
    for command in &unit.commands {
        let format = def.processor_def.format(command.format).unwrap();
        let at = command.address as usize;
        let word = u16::from_be_bytes([bytes[at], bytes[at + 1]]);
        let bits = decode_words(format, &vec![word]).unwrap();
        assert_eq!(bits.len(), command.values.len());
        let widths: Vec<u32> = format
            .segments
            .iter()
            .filter(|seg| seg.seg_type != SegType::Main)
            .map(|seg| seg.mask.count_ones())
            .collect();
        for (k, value) in command.values.iter().enumerate() {
            if value.relative {
                assert_eq!(from_field(bits[k], widths[k]), value.value);
            } else {
                assert_eq!(bits[k] as i64, value.value);
            }
        }
    }
}

#[test]
fn a_format_says_how_its_distances_are_measured() {
    let mut def = LanguageDefinition::default();
    def.processor_def.formats[17].pc_bias = 0;
    def.processor_def.formats[17].shift = 0;
    assert!(def.is_valid());
    let mut unit = ParsedCode::default();
    unit.parse_from_str("x", "a: MOV r0, #1\nB a\nBEQ a\n", &def);
    assert_eq!(unit.assemble(&def), Ok(vec![0x20, 0x01, 0xE7, 0xFE, 0xD0, 0xFC]));
    def.processor_def.formats[17].shift = 2;
    assert_eq!(unit.assemble(&def), Ok(vec![0x20, 0x01, 0xE7, 0xFF, 0xD0, 0xFC]));
}

#[test]
fn a_unit_larger_than_the_address_space_is_out_of_range() {
    let line = |text: &str, size: u32| ParsedLine {
        text: text.to_string(),
        sections: vec![(SectionType::Comment, text.to_string())],
        index: 0,
        size,
        command: None,
        var: None,
    };
    let mut unit = ParsedCode::default();
    unit.lines.push(line("@ one", u32::MAX - 1));
    unit.lines.push(line("@ two", 1));
    assert_eq!(unit.assign_addresses(), Ok(()));
    unit.lines.push(line("@ three", 0));
    unit.lines.push(line("@ four", 1));
    unit.lines.push(line("@ five", 1));
    let error = unit.assign_addresses().unwrap_err();
    assert_eq!(error.kind, ErrorKind::OffsetOutOfRange);
    assert_eq!(error.line, 3);
    assert_eq!(error.text, "@ four");
}

#[test]
fn the_first_pass_notes_the_labels_in_order() {
    let def = LanguageDefinition::default();
    let mut unit = ParsedCode::default();
    unit.parse_from_str("x", "a:\nb: MOV r0, #0\nc: BL a\n\nd: .hword 1\ne:\n", &def);
    unit.assign_addresses().unwrap();
    let found: Vec<(String, u32)> =
        unit.labels.iter().map(|l| (l.name.clone(), l.address)).collect();
    let expected: Vec<(String, u32)> = [("a", 0), ("b", 0), ("c", 2), ("d", 6), ("e", 8)]
        .iter()
        .map(|(n, a)| (n.to_string(), *a))
        .collect();
    assert_eq!(found, expected);
    assert_eq!(unit.commands[0].address, 0);
    assert_eq!(unit.commands[1].address, 2);
    assert_eq!(unit.vars[0].address, 6);
    assert!(unit.commands.iter().all(|c| c.values.is_empty()));
    unit.assign_addresses().unwrap();
    assert_eq!(unit.labels.len(), 5);
}
