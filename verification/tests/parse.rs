use kgemu::compile::data::{bytes_of, directive_data, width_of_directive};
use kgemu::compile::error::ErrorKind;
use kgemu::compile::matching::{
    capture_of, find_mnemonic, find_variant, literal_source, operands_from_groups,
};
use kgemu::compile::parse_code::{size_of_command, Found, ParsedCode, ParsedLine, SectionType};
use kgemu::compile::pattern::{compiles, search};
use kgemu::compile::tokenize::{find_section, sections_from_groups};
use kgemu::definitions::language::{selector_role, CommandDefinition, LanguageDefinition};
use kgemu::definitions::processor::SegType;
use kgemu::definitions::syntax::{decimal_text, join3, LineSyntax};
use kgemu::definitions::thumb_default::commands::entry;
use std::str::FromStr;

fn some(text: &str) -> Option<String> {
    Some(text.to_string())
}

fn part(kind: SectionType, text: &str) -> (SectionType, String) {
    (kind, text.to_string())
}

fn sections(line: &str) -> Vec<(SectionType, String)> {
    let def = LanguageDefinition::default();
    ParsedCode::default().parse_line(line, &def).sections
}

#[test]
fn section_types_are_read_from_group_names() {
    assert_eq!(SectionType::from_name("comment"), Ok(SectionType::Comment));
    assert_eq!(SectionType::from_name("label"), Ok(SectionType::Label));
    assert_eq!(SectionType::from_name("opc"), Ok(SectionType::OpCode));
    assert_eq!(SectionType::from_name("compliemark"), Ok(SectionType::ComplierMark));
    assert_eq!(SectionType::from_name("literal"), Ok(SectionType::Literal));
    assert_eq!(SectionType::from_name("command"), Ok(SectionType::Command));
    assert_eq!(SectionType::from_name("op0"), Ok(SectionType::Operand));
    assert_eq!(SectionType::from_name("operand12"), Ok(SectionType::Operand));
    assert_eq!(SectionType::from_name("op"), Err("\"op\": is an unknown type for SectionType".to_string()));
    assert_eq!(SectionType::from_name("opx"), Err("\"opx\": is an unknown type for SectionType".to_string()));
    assert_eq!(SectionType::from_name(""), Err("\"\": is an unknown type for SectionType".to_string()));
    assert_eq!(SectionType::from_name("Label"), Err("\"Label\": is an unknown type for SectionType".to_string()));
    assert_eq!(SectionType::from_str("label"), Ok(SectionType::Label));
    assert_eq!("op3".parse::<SectionType>(), Ok(SectionType::Operand));
    assert!("x9".parse::<SectionType>().is_err());
    assert_eq!(
        SectionType::from_str("x9"),
        Err("\"x9\": is an unknown type for SectionType".to_string())
    );
    assert_eq!(SectionType::from_str("opc"), Ok(SectionType::OpCode));
    assert_eq!(SectionType::from_str("operand7"), Ok(SectionType::Operand));
    assert_eq!(SectionType::default(), SectionType::Comment);
}

#[test]
fn the_groups_of_a_match_give_the_parts() {
    let groups = vec![
        (None, some("loop: MOV r1, #5")),
        (some("label"), some("loop")),
        (some("command"), some("MOV r1, #5")),
        (some("comment"), None),
        (some("other"), some("x")),
        (None, some("y")),
    ];
    assert_eq!(
        sections_from_groups(&groups),
        vec![part(SectionType::Label, "loop"), part(SectionType::Command, "MOV r1, #5")]
    );
    assert_eq!(sections_from_groups(&vec![]), vec![]);
    assert_eq!(capture_of(&groups, "label"), Some(&"loop".to_string()));
    assert_eq!(capture_of(&groups, "comment"), None);
    assert_eq!(capture_of(&groups, "missing"), None);
}

#[test]
fn a_line_is_split_into_label_command_and_comment() {
    assert_eq!(
        sections("loop: MOV r1, #5 @ five"),
        vec![
            part(SectionType::Label, "loop"),
            part(SectionType::Command, "MOV r1, #5"),
            part(SectionType::Comment, "@ five"),
        ]
    );
    assert_eq!(sections("MOV r1, #5"), vec![part(SectionType::Command, "MOV r1, #5")]);
    assert_eq!(sections("loop:"), vec![part(SectionType::Label, "loop")]);
    assert_eq!(sections("@ only a comment"), vec![part(SectionType::Comment, "@ only a comment")]);
    assert_eq!(sections(""), vec![]);
    assert_eq!(sections("   \t"), vec![]);
    assert_eq!(sections("%%%"), vec![]);
    assert_eq!(sections("ADD sp, #-4"), vec![part(SectionType::Command, "ADD sp, #-4")]);
}

#[test]
fn a_line_is_split_into_label_directive_and_literal() {
    assert_eq!(
        sections("value: .word 0x10 @ sixteen"),
        vec![
            part(SectionType::Label, "value"),
            part(SectionType::ComplierMark, ".word"),
            part(SectionType::Literal, "0x10"),
            part(SectionType::Comment, "@ sixteen"),
        ]
    );
    assert_eq!(
        sections(".global main"),
        vec![part(SectionType::ComplierMark, ".global"), part(SectionType::Literal, "main")]
    );
    assert_eq!(sections(".text"), vec![part(SectionType::ComplierMark, ".text")]);
    assert_eq!(
        sections(".ascii \"a b\""),
        vec![part(SectionType::ComplierMark, ".ascii"), part(SectionType::Literal, "\"a b\"")]
    );
}

#[test]
fn every_pattern_that_matches_gives_its_parts() {
    let mut def = LanguageDefinition::default();
    def.regex_list = vec![
        r"^(?P<label>[a-z]+):".to_string(),
        r"(?P<comment>@.*)$".to_string(),
        r"^(?P<label>[a-z]+)".to_string(),
        r"(".to_string(),
        r"^(?P<nothing>x)?".to_string(),
    ];
    let line = ParsedCode::default().parse_line("abc: @ note", &def);
    assert_eq!(
        line.sections,
        vec![
            part(SectionType::Label, "abc"),
            part(SectionType::Comment, "@ note"),
            part(SectionType::Label, "abc"),
        ]
    );
    assert_eq!(line.text, "abc: @ note");
    assert_eq!(line.index, 0);
    assert_eq!(line.size, 0);
    assert_eq!(find_section(&line.sections, SectionType::Label), Some(&"abc".to_string()));
    assert_eq!(find_section(&line.sections, SectionType::Command), None);
}

#[test]
fn the_first_shape_that_matches_wins() {
    let variants = vec![
        CommandDefinition { regex: r"^X (?P<a>[0-9]+)$".to_string(), segments: vec![], format_index: 1 },
        CommandDefinition { regex: r"^X (?P<a>\w+)$".to_string(), segments: vec![], format_index: 2 },
        CommandDefinition { regex: r"^X (?P<a>.*)$".to_string(), segments: vec![], format_index: 3 },
    ];
    assert_eq!(find_variant(&variants, "X 12").unwrap().0, 0);
    assert_eq!(find_variant(&variants, "X ab").unwrap().0, 1);
    assert_eq!(find_variant(&variants, "X a b").unwrap().0, 2);
    assert!(find_variant(&variants, "Y 12").is_none());
    let (_, groups) = find_variant(&variants, "X ab").unwrap();
    assert_eq!(groups, vec![(None, some("X ab")), (some("a"), some("ab"))]);
    for _ in 0..3 {
        assert_eq!(find_variant(&variants, "X 12").unwrap().0, 0);
    }
    let reversed: Vec<CommandDefinition> = variants.into_iter().rev().collect();
    assert_eq!(find_variant(&reversed, "X 12").unwrap().0, 0);
    assert_eq!(reversed[0].format_index, 3);
}

#[test]
fn operands_come_from_the_entries_and_the_groups() {
    let variant = CommandDefinition {
        regex: String::new(),
        segments: vec![
            entry(SegType::Op, "5"),
            entry(SegType::Source, "source"),
            entry(SegType::Destination, "0"),
            entry(SegType::Immediate, "value"),
        ],
        format_index: 4,
    };
    let groups = vec![
        (None, some("all")),
        (some("value"), some("#7")),
        (some("source"), some("r2")),
    ];
    assert_eq!(
        operands_from_groups(&variant, &groups),
        Some(vec![
            (SegType::Op, "5".to_string()),
            (SegType::Source, "r2".to_string()),
            (SegType::Destination, "0".to_string()),
            (SegType::Immediate, "#7".to_string()),
        ])
    );
    let groups = vec![(None, some("all")), (some("value"), None), (some("source"), some("r2"))];
    assert_eq!(operands_from_groups(&variant, &groups), None);
    let groups = vec![(None, some("all")), (some("source"), some("r2"))];
    assert_eq!(operands_from_groups(&variant, &groups), None);
    assert!(literal_source("0"));
    assert!(literal_source("15"));
    assert!(!literal_source("source"));
    assert!(!literal_source(""));
    assert!(!literal_source("_1"));
}

#[test]
fn a_command_is_matched_against_its_mnemonic() {
    let def = LanguageDefinition::default();
    let unit = ParsedCode::default();
    let found = unit.parse_command("CMP r1, h2".to_string(), &def).unwrap();
    assert_eq!(found.op_code, "CMP");
    assert_eq!(found.format, 5);
    assert_eq!(found.address, 0);
    assert_eq!(found.line, 0);
    assert!(found.values.is_empty());
    assert_eq!(
        found.operands,
        vec![
            (SegType::Op, "1".to_string()),
            (SegType::Flag, "0".to_string()),
            (SegType::Flag, "1".to_string()),
            (SegType::Source, "h2".to_string()),
            (SegType::Destination, "r1".to_string()),
        ]
    );
    assert_eq!(unit.parse_command("cmp r1, #3".to_string(), &def).unwrap().format, 3);
    assert_eq!(unit.parse_command("CMP r1, r3".to_string(), &def).unwrap().format, 4);
    assert_eq!(
        unit.parse_command("FOO r0, r1".to_string(), &def).unwrap_err(),
        ErrorKind::UnknownMnemonic
    );
    assert_eq!(
        unit.parse_command("".to_string(), &def).unwrap_err(),
        ErrorKind::UnknownMnemonic
    );
    assert_eq!(
        unit.parse_command("CMPX r0, r1".to_string(), &def).unwrap_err(),
        ErrorKind::UnknownMnemonic
    );
    assert_eq!(
        unit.parse_command("CMP r0".to_string(), &def).unwrap_err(),
        ErrorKind::InvalidOperandSyntax
    );
    let chars: Vec<char> = "bl x".chars().collect();
    let m = find_mnemonic(&def, &chars, 2).unwrap();
    assert_eq!(def.commands[m].0, "BL");
    let m = find_mnemonic(&def, &chars, 1).unwrap();
    assert_eq!(def.commands[m].0, "B");
    assert_eq!(find_mnemonic(&def, &chars, 0), None);
}

#[test]
fn a_shape_that_names_a_missing_group_is_a_syntax_error() {
    let mut def = LanguageDefinition::default();
    def.commands = vec![(
        "NOP".to_string(),
        vec![CommandDefinition {
            regex: r"^[nN][oO][pP]$".to_string(),
            segments: vec![entry(SegType::Op, "0"), entry(SegType::Destination, "rd")],
            format_index: 4,
        }],
    )];
    let unit = ParsedCode::default();
    assert_eq!(
        unit.parse_command("nop".to_string(), &def).unwrap_err(),
        ErrorKind::InvalidOperandSyntax
    );
    assert!(!def.is_valid());
}

#[test]
fn the_default_language_is_valid() {
    let def = LanguageDefinition::default();
    assert!(def.is_valid());
    assert_eq!(def.regex_list.len(), 3);
    assert_eq!(def.commands.len(), 49);
    for (name, variants) in &def.commands {
        assert!(!variants.is_empty(), "{}", name);
        for variant in variants {
            assert!(def.check_variant(variant), "{}", name);
            let format = def.processor_def.format(variant.format_index).unwrap();
            assert!(variant.is_aligned(format), "{}", name);
            assert_eq!(variant.segments.len(), format.count_operands());
        }
    }
}

#[test]
fn a_shape_must_be_aligned_with_its_format() {
    let def = LanguageDefinition::default();
    let format = def.processor_def.format(4).unwrap();
    let good = CommandDefinition {
        regex: "x".to_string(),
        segments: vec![
            entry(SegType::Op, "5"),
            entry(SegType::Source, "s"),
            entry(SegType::Destination, "d"),
        ],
        format_index: 4,
    };
    assert!(good.is_aligned(format));
    assert!(def.check_variant(&good));
    let swapped = CommandDefinition {
        regex: String::new(),
        segments: vec![
            entry(SegType::Op, "5"),
            entry(SegType::Destination, "d"),
            entry(SegType::Source, "s"),
        ],
        format_index: 4,
    };
    assert!(!swapped.is_aligned(format));
    let short = CommandDefinition {
        regex: String::new(),
        segments: vec![entry(SegType::Op, "5"), entry(SegType::Source, "s")],
        format_index: 4,
    };
    assert!(!short.is_aligned(format));
    let nowhere = CommandDefinition { regex: String::new(), segments: vec![], format_index: 77 };
    assert!(!def.check_variant(&nowhere));
    assert!(selector_role(SegType::Op) && selector_role(SegType::Flag));
    assert!(selector_role(SegType::Condition) && !selector_role(SegType::Offset));
    assert!(!selector_role(SegType::Main) && !selector_role(SegType::Source));
}

#[test]
fn a_line_is_examined_for_what_it_holds() {
    let def = LanguageDefinition::default();
    let unit = ParsedCode::default();
    let examine = |text: &str| {
        let line: ParsedLine = unit.parse_line(text, &def);
        unit.examine(&line, &def)
    };
    assert!(matches!(examine(""), Found::Nothing));
    assert!(matches!(examine("label:"), Found::Nothing));
    assert!(matches!(examine(".text"), Found::Nothing));
    match examine("x: MOV r1, #5") {
        Found::Command(found) => assert_eq!(found.format, 3),
        _ => panic!("a command was expected"),
    }
    match examine("x: .hword 0x0102") {
        Found::Data(found) => {
            assert_eq!(found.bytes, vec![1, 2]);
            assert_eq!(found.size, 2);
            assert_eq!(found.label, "x");
            assert_eq!(found.value, "0x0102");
        }
        _ => panic!("data was expected"),
    }
    match examine("  ???") {
        Found::Fault(error) => {
            assert_eq!(error.kind, ErrorKind::TokenizeError);
            assert_eq!(error.text, "  ???");
        }
        _ => panic!("an error was expected"),
    }
    assert_eq!(size_of_command(&def, 3), 2);
    assert_eq!(size_of_command(&def, 19), 4);
    assert_eq!(size_of_command(&def, 99), 2);
}

#[test]
fn a_source_is_parsed_line_by_line() {
    let def = LanguageDefinition::default();
    let mut unit = ParsedCode::default();
    unit.parse_from_str("first.thumb", "old: MOV r0, #0\n", &def);
    unit.parse_from_str("demo.thumb", "a: MOV r0, #1\r\n\r\n.byte 3\nBL a\n", &def);
    assert_eq!(unit.file_name, "demo.thumb");
    assert_eq!(unit.file_size, 30);
    assert_eq!(unit.lines.len(), 4);
    for (i, line) in unit.lines.iter().enumerate() {
        assert_eq!(line.index, i);
    }
    assert_eq!(unit.lines[0].text, "a: MOV r0, #1");
    assert_eq!(unit.lines[0].command, Some(0));
    assert_eq!(unit.lines[1].text, "");
    assert_eq!(unit.lines[1].command, None);
    assert_eq!(unit.lines[2].var, Some(0));
    assert_eq!(unit.lines[2].size, 1);
    assert_eq!(unit.lines[3].command, Some(1));
    assert_eq!(unit.lines[3].size, 4);
    assert_eq!(unit.commands.len(), 2);
    assert_eq!(unit.commands[1].line, 3);
    assert_eq!(unit.vars.len(), 1);
    assert_eq!(unit.vars[0].line, 2);
    assert!(unit.labels.is_empty());
    assert!(unit.errors.is_empty());
}

#[test]
fn directives_give_their_bytes() {
    assert_eq!(width_of_directive(".byte"), Some(1));
    assert_eq!(width_of_directive(".hword"), Some(2));
    assert_eq!(width_of_directive(".word"), Some(4));
    assert_eq!(width_of_directive(".WORD"), None);
    assert_eq!(width_of_directive("word"), None);
    assert_eq!(bytes_of(0x0102, 2), vec![1, 2]);
    assert_eq!(bytes_of(0x0102, 1), vec![2]);
    assert_eq!(bytes_of(0x0102, 4), vec![0, 0, 1, 2]);
    assert_eq!(bytes_of(7, 0), vec![]);
    let literal = "0x1234".to_string();
    assert_eq!(directive_data(".hword", Some(&literal)), Ok(Some(vec![0x12, 0x34])));
    assert_eq!(directive_data(".byte", Some(&literal)), Err(ErrorKind::ImmediateOverflow));
    assert_eq!(directive_data(".byte", None), Err(ErrorKind::InvalidOperandSyntax));
    assert_eq!(directive_data(".align", Some(&literal)), Ok(None));
    assert_eq!(directive_data(".align", None), Ok(None));
    let text = "\"Aé\"".to_string();
    assert_eq!(directive_data(".ascii", Some(&text)), Ok(Some(vec![0x41, 0xC3, 0xA9])));
    let open = "\"A".to_string();
    assert_eq!(directive_data(".ascii", Some(&open)), Err(ErrorKind::InvalidOperandSyntax));
    let lone = "\"".to_string();
    assert_eq!(directive_data(".ascii", Some(&lone)), Err(ErrorKind::InvalidOperandSyntax));
    assert_eq!(directive_data(".ascii", None), Err(ErrorKind::InvalidOperandSyntax));
    let huge = "0x1FFFFFFFF".to_string();
    assert_eq!(directive_data(".word", Some(&huge)), Err(ErrorKind::ImmediateOverflow));
}

#[test]
fn the_language_shows_its_tables() {
    let def = LanguageDefinition::default();
    assert_eq!(def.mnemonics().len(), 49);
    assert_eq!(def.mnemonics()[0].0, "ADC");
    assert_eq!(def.formats().len(), 19);
    assert_eq!(def.formats()[18].name, "long branch with link");
    assert_eq!(kgemu::compile::text::REGISTER_FIELD_WIDTH, 3);
}

#[test]
fn the_pieces_of_the_grammar_make_up_the_patterns() {
    let syntax = LineSyntax::default();
    let patterns = syntax.line_patterns();
    let space = r"(?:[ \t])*";
    let gap = r"(?:[ \t])+";
    let label = r"(?:(?P<label>[a-zA-Z_][a-zA-Z0-9_]*)(?::))?";
    let comment = r"(?P<comment>(?:@).*)?$";
    let one = r"[a-zA-Z0-9_#\[\]\{\}!+-]";
    let operand = format!(r"{one}(?:(?:{one}|[ \t])*{one})?");
    let command = format!(
        r"(?P<command>[a-zA-Z]+(?:{gap}{operand}(?:{space}(?:,){space}{operand}){{0,9}})?)?"
    );
    let directive = r"(?P<compliemark>(?:\.)[a-zA-Z]*)";
    let number = r##"#?[+-]?(?:0[xX][0-9a-fA-F]+|[0-9]+)|"[^"]*""##;
    assert_eq!(patterns.len(), 3);
    assert_eq!(patterns[0], format!("^{space}{label}{space}{command}{space}{comment}"));
    assert_eq!(
        patterns[1],
        format!("^{space}{label}{space}{directive}{space}(?P<literal>[a-zA-Z_]+)?{space}{comment}")
    );
    assert_eq!(
        patterns[2],
        format!("^{space}{label}{space}{directive}{space}(?P<literal>{number}){space}{comment}")
    );
    assert_eq!(LanguageDefinition::default().regex_list, patterns);
}

#[test]
fn every_piece_of_the_grammar_can_be_replaced() {
    let mut syntax = LineSyntax::default();
    syntax.comment_marker = ";".to_string();
    syntax.label_marker = "=".to_string();
    syntax.operand_delimiter = "/".to_string();
    syntax.directive_marker = "%".to_string();
    syntax.whitespace = "~".to_string();
    syntax.literal = "[01]+".to_string();
    let mut def = LanguageDefinition::default();
    def.set_syntax(&syntax);
    assert_eq!(def.regex_list, syntax.line_patterns());
    assert_eq!(def.commands.len(), 49);
    let unit = ParsedCode::default();
    assert_eq!(
        unit.parse_line("~~start=~~MOV~r1~/~#5~~;five", &def).sections,
        vec![
            part(SectionType::Label, "start"),
            part(SectionType::Command, "MOV~r1~/~#5"),
            part(SectionType::Comment, ";five"),
        ]
    );
    assert_eq!(
        unit.parse_line("x=%word~0110", &def).sections,
        vec![
            part(SectionType::Label, "x"),
            part(SectionType::ComplierMark, "%word"),
            part(SectionType::Literal, "0110"),
        ]
    );
    assert_eq!(unit.parse_line("MOV r1, #5 @ five", &def).sections, vec![]);
    assert_eq!(unit.parse_line("x: .word 5", &def).sections, vec![]);
}

#[test]
fn a_command_has_no_more_operands_than_the_grammar_allows() {
    let mut syntax = LineSyntax::default();
    syntax.max_operands = 2;
    let mut def = LanguageDefinition::default();
    def.set_syntax(&syntax);
    let unit = ParsedCode::default();
    assert_eq!(
        unit.parse_line("MOV r1, #5", &def).sections,
        vec![part(SectionType::Command, "MOV r1, #5")]
    );
    assert_eq!(unit.parse_line("ADD r2, r0, r1", &def).sections, vec![]);
    syntax.max_operands = 1;
    def.set_syntax(&syntax);
    assert_eq!(unit.parse_line("BX r3", &def).sections, vec![part(SectionType::Command, "BX r3")]);
    assert_eq!(unit.parse_line("MOV r1, #5", &def).sections, vec![]);
    syntax.max_operands = 0;
    def.set_syntax(&syntax);
    assert_eq!(unit.parse_line("NOP", &def).sections, vec![part(SectionType::Command, "NOP")]);
    assert_eq!(unit.parse_line("BX r3", &def).sections, vec![]);
    syntax.max_operands = 10;
    def.set_syntax(&syntax);
    assert_eq!(
        unit.parse_line("X a,b,c,d,e,f,g,h,i,j", &def).sections,
        vec![part(SectionType::Command, "X a,b,c,d,e,f,g,h,i,j")]
    );
    assert_eq!(unit.parse_line("X a,b,c,d,e,f,g,h,i,j,k", &def).sections, vec![]);
    syntax.max_operands = 123;
    assert!(syntax.line_patterns()[0].contains("{0,122}"));
}

#[test]
fn numbers_are_written_in_decimal() {
    assert_eq!(decimal_text(0), "0");
    assert_eq!(decimal_text(9), "9");
    assert_eq!(decimal_text(10), "10");
    assert_eq!(decimal_text(4096), "4096");
    assert_eq!(decimal_text(usize::MAX), usize::MAX.to_string());
    assert_eq!(join3("a", "", "bc"), "abc");
}

#[test]
fn a_search_gives_the_groups_of_the_first_match() {
    assert_eq!(
        search(r"(?P<a>[0-9]+)-(?P<b>[a-z]+)?(x)?", "..12-ab 34-"),
        Some(vec![
            (None, some("12-ab")),
            (some("a"), some("12")),
            (some("b"), some("ab")),
            (None, None),
        ])
    );
    assert_eq!(search(r"^$", ""), Some(vec![(None, some(""))]));
    assert_eq!(search(r"^a$", "b"), None);
    assert_eq!(search(r"(", "("), None);
    assert_eq!(search(r"(?P<n>.)(?P<n>.)", "ab"), None);
}

#[test]
fn a_pattern_that_does_not_compile_is_found_out() {
    assert!(compiles(""));
    assert!(compiles(r"^(?P<label>[a-z]+):$"));
    assert!(!compiles("("));
    assert!(!compiles(r"[a-"));
    assert!(!compiles(r"(?P<n>.)(?P<n>.)"));
    let mut def = LanguageDefinition::default();
    assert!(def.check_patterns());
    def.regex_list.push("(".to_string());
    assert!(!def.check_patterns());
    assert!(def.is_valid());
    assert_eq!(
        ParsedCode::default().parse_line("MOV r1, #5", &def).sections,
        vec![part(SectionType::Command, "MOV r1, #5")]
    );
    def.regex_list.pop();
    assert!(def.check_patterns());
    def.commands[5].1[0].regex = "(?P<label".to_string();
    assert!(!def.check_patterns());
    let mut syntax = LineSyntax::default();
    syntax.comment_marker = "(".to_string();
    def = LanguageDefinition::default();
    def.set_syntax(&syntax);
    assert!(!def.check_patterns());
    assert_eq!(ParsedCode::default().parse_line("MOV r1, #5", &def).sections, vec![]);
}
