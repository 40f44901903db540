use kgemu::compile::text::{
    alpha, blank, blank_text, chars_of, digit, hex_digit, letter_run, name, names_register,
    parse_list, parse_number, parse_register, read_digits, read_magnitude, same_text, split_lines,
    starts_ignoring_case, string_of, to_upper, value_of_digit, NumberFault, RegisterRef,
    NUMBER_LIMIT,
};

fn chars(s: &str) -> Vec<char> {
    s.chars().collect()
}

#[test]
fn characters_are_classified() {
    assert!(digit('0') && digit('9') && !digit('a') && !digit('/'));
    assert!(hex_digit('f') && hex_digit('A') && hex_digit('7') && !hex_digit('g'));
    assert!(alpha('a') && alpha('Z') && !alpha('1') && !alpha('_'));
    assert!(blank(' ') && blank('\t') && !blank('\n'));
    assert_eq!(to_upper('a'), 'A');
    assert_eq!(to_upper('z'), 'Z');
    assert_eq!(to_upper('Q'), 'Q');
    assert_eq!(to_upper('1'), '1');
    assert_eq!(value_of_digit('7'), 7);
    assert_eq!(value_of_digit('a'), 10);
    assert_eq!(value_of_digit('F'), 15);
}

#[test]
fn chars_of_and_string_of_are_inverse() {
    let text = "MOV r1, #5";
    let all = chars_of(text);
    assert_eq!(all, chars(text));
    assert_eq!(string_of(&all, 0, all.len()), text);
    assert_eq!(string_of(&all, 4, 6), "r1");
    assert_eq!(string_of(&all, 3, 3), "");
    assert_eq!(chars_of(""), Vec::<char>::new());
}

#[test]
fn numbers_are_read_in_decimal_and_hexadecimal() {
    assert_eq!(parse_number(&chars("12")), Ok(12));
    assert_eq!(parse_number(&chars("#12")), Ok(12));
    assert_eq!(parse_number(&chars("#0x1F")), Ok(31));
    assert_eq!(parse_number(&chars("0X1f")), Ok(31));
    assert_eq!(parse_number(&chars("0")), Ok(0));
    assert_eq!(parse_number(&chars("007")), Ok(7));
    assert_eq!(parse_number(&chars("0xFFFFFFFF")), Ok(0xFFFF_FFFF));
}

#[test]
fn numbers_take_an_optional_sign() {
    assert_eq!(parse_number(&chars("-12")), Ok(-12));
    assert_eq!(parse_number(&chars("+12")), Ok(12));
    assert_eq!(parse_number(&chars("#-0x10")), Ok(-16));
    assert_eq!(parse_number(&chars("#+3")), Ok(3));
    assert_eq!(parse_number(&chars("-0")), Ok(0));
}

#[test]
fn malformed_numbers_are_refused() {
    for text in ["", "#", "-", "0x", "#0x", "12a", "0x1G", "--1", "1 2", "r1", "#-", "x10", "+-1"] {
        assert_eq!(parse_number(&chars(text)), Err(NumberFault::Malformed), "{}", text);
    }
}

#[test]
fn numbers_beyond_the_limit_are_too_large() {
    assert_eq!(NUMBER_LIMIT, 0xFFFF_FFFF);
    assert_eq!(parse_number(&chars("4294967295")), Ok(4294967295));
    assert_eq!(parse_number(&chars("4294967296")), Err(NumberFault::TooLarge));
    assert_eq!(parse_number(&chars("-4294967296")), Err(NumberFault::TooLarge));
    assert_eq!(parse_number(&chars("0x100000000")), Err(NumberFault::TooLarge));
    assert_eq!(
        parse_number(&chars("99999999999999999999999999999999")),
        Err(NumberFault::TooLarge)
    );
}

#[test]
fn digits_are_read_from_a_position() {
    assert_eq!(read_digits(&chars("ab123"), 2, 10), Some(123));
    assert_eq!(read_digits(&chars("ab1f"), 2, 16), Some(0x1F));
    assert_eq!(read_digits(&chars("ab1f"), 2, 10), None);
    assert_eq!(read_digits(&chars("ab"), 2, 10), Some(0));
    assert_eq!(read_digits(&chars("99999999999"), 0, 10), Some(NUMBER_LIMIT + 1));
    assert_eq!(read_magnitude(&chars("#0x20"), 1), Some(32));
    assert_eq!(read_magnitude(&chars("#"), 1), None);
    assert_eq!(read_magnitude(&chars("0x"), 0), None);
}

#[test]
fn registers_are_read_by_name() {
    assert_eq!(parse_register(&chars("r0")), Some(RegisterRef::Low(0)));
    assert_eq!(parse_register(&chars("R7")), Some(RegisterRef::Low(7)));
    assert_eq!(parse_register(&chars("h3")), Some(RegisterRef::High(3)));
    assert_eq!(parse_register(&chars("H0")), Some(RegisterRef::High(0)));
    assert_eq!(parse_register(&chars("sp")), Some(RegisterRef::Sp));
    assert_eq!(parse_register(&chars("LR")), Some(RegisterRef::Lr));
    assert_eq!(parse_register(&chars("Pc")), Some(RegisterRef::Pc));
    for text in ["r8", "r", "r10", "x1", "", "h8", "ps", "r-"] {
        assert_eq!(parse_register(&chars(text)), None, "{}", text);
    }
}

#[test]
fn a_register_field_never_holds_more_than_three_bits() {
    assert_eq!(RegisterRef::Low(5).field(), 5);
    assert_eq!(RegisterRef::Low(5).number(), 5);
    assert!(!RegisterRef::Low(5).is_high());
    assert_eq!(RegisterRef::High(5).field(), 5);
    assert_eq!(RegisterRef::High(5).number(), 13);
    assert!(RegisterRef::High(5).is_high());
    assert_eq!(RegisterRef::Sp.number(), 13);
    assert_eq!(RegisterRef::Sp.field(), 5);
    assert_eq!(RegisterRef::Lr.number(), 14);
    assert_eq!(RegisterRef::Lr.field(), 6);
    assert_eq!(RegisterRef::Pc.number(), 15);
    assert_eq!(RegisterRef::Pc.field(), 7);
    assert!(RegisterRef::Pc.is_high());
}

#[test]
fn register_lists_become_a_byte() {
    assert_eq!(parse_list(&chars("{r0}")), 0x01);
    assert_eq!(parse_list(&chars("{r0, r2, r7}")), 0x85);
    assert_eq!(parse_list(&chars("{R4, lr}")), 0x10);
    assert_eq!(parse_list(&chars("{r0, r1, pc}")), 0x03);
    assert_eq!(parse_list(&chars("{r3, r3}")), 0x08);
    assert_eq!(parse_list(&chars("{}")), 0x00);
    assert_eq!(parse_list(&chars("{r0,r1,r2,r3,r4,r5,r6,r7}")), 0xFF);
    assert!(names_register(&chars("{r1, r5}"), 5));
    assert!(!names_register(&chars("{r1, r5}"), 2));
    assert!(!names_register(&chars("r"), 0));
}

#[test]
fn names_start_with_a_letter_or_an_underscore() {
    assert!(name(&chars("loop")));
    assert!(name(&chars("_start")));
    assert!(name(&chars("a1_b2")));
    assert!(!name(&chars("")));
    assert!(!name(&chars("1abc")));
    assert!(!name(&chars("a-b")));
    assert!(!name(&chars("a b")));
}

#[test]
fn blank_text_is_spaces_and_tabs() {
    assert!(blank_text(&chars("")));
    assert!(blank_text(&chars(" \t  ")));
    assert!(!blank_text(&chars("  x ")));
    assert!(!blank_text(&chars("\r")));
}

#[test]
fn the_leading_word_ends_at_the_first_other_character() {
    assert_eq!(letter_run(&chars("MOV r1, #5")), 3);
    assert_eq!(letter_run(&chars("B")), 1);
    assert_eq!(letter_run(&chars("  B")), 0);
    assert_eq!(letter_run(&chars("")), 0);
    assert_eq!(letter_run(&chars("ldr1")), 3);
}

#[test]
fn words_are_compared_whatever_their_case() {
    assert!(starts_ignoring_case(&chars("mov r1"), 3, &chars("MOV")));
    assert!(starts_ignoring_case(&chars("MoV r1"), 3, &chars("mOv")));
    assert!(!starts_ignoring_case(&chars("mov r1"), 3, &chars("MVN")));
    assert!(!starts_ignoring_case(&chars("mov r1"), 2, &chars("MOV")));
    assert!(!starts_ignoring_case(&chars("b"), 1, &chars("BL")));
    assert!(starts_ignoring_case(&chars(""), 0, &chars("")));
}

#[test]
fn a_source_is_split_at_line_feeds() {
    assert_eq!(split_lines(""), Vec::<String>::new());
    assert_eq!(split_lines("x"), vec!["x"]);
    assert_eq!(split_lines("x\n"), vec!["x"]);
    assert_eq!(split_lines("a\nb"), vec!["a", "b"]);
    assert_eq!(split_lines("a\r\nb\n\nc"), vec!["a", "b", "", "c"]);
    assert_eq!(split_lines("\n"), vec![""]);
    assert_eq!(split_lines("a\rb\r"), vec!["a\rb\r"]);
    assert_eq!(split_lines("a\r\r\n"), vec!["a\r"]);
}

#[test]
fn a_source_is_split_as_the_standard_library_splits_it() {
    for text in ["", "\n", "a", "a\n", "a\r\n", "a\n\nb\r\n\r\nc", "\r\n\r", "x\ry\n", "é\nü"] {
        let expected: Vec<String> = text.lines().map(|l| l.to_string()).collect();
        assert_eq!(split_lines(text), expected, "{:?}", text);
    }
}

#[test]
fn texts_are_compared_character_by_character() {
    assert!(same_text("label", "label"));
    assert!(same_text("", ""));
    assert!(!same_text("label", "Label"));
    assert!(!same_text("label", "labels"));
}
