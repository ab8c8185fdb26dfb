use hack_vmtranslator::text::{
    before_comment, decimal_string, is_space, parse_u16, same_text, split_lines, split_whitespace,
    strip_prefix, to_chars, trim, NumberError,
};
use hack_vmtranslator::vm::{
    error_summary, extract_errors, parse_source, parse_source_command, parse_sources,
    strip_comments, Command, Segment, SourceCommand,
};

fn only<'a>(text: &'a str) -> SourceCommand<'a> {
    let mut results = parse_source("Main", text);
    assert_eq!(results.len(), 1);
    results.pop().unwrap().unwrap()
}

fn failure(text: &str) -> String {
    let mut results = parse_source("Main", text);
    assert_eq!(results.len(), 1);
    results.pop().unwrap().unwrap_err()
}

#[test]
fn decimal_numerals() {
    assert_eq!(decimal_string(0), "0");
    assert_eq!(decimal_string(7), "7");
    assert_eq!(decimal_string(10), "10");
    assert_eq!(decimal_string(65535), "65535");
    assert_eq!(decimal_string(1002003), "1002003");
    assert_eq!(decimal_string(u64::MAX), "18446744073709551615");
}

#[test]
fn characters_of_a_text() {
    assert_eq!(to_chars(""), Vec::<char>::new());
    assert_eq!(to_chars("a√b"), vec!['a', '√', 'b']);
}

#[test]
fn equal_texts() {
    assert!(same_text("add", "add"));
    assert!(!same_text("add", "ad"));
    assert!(!same_text("add", "adds"));
    assert!(same_text("", ""));
}

#[test]
fn white_space_characters() {
    for c in [' ', '\t', '\n', '\r', '\u{b}', '\u{c}', '\u{85}', '\u{a0}', '\u{1680}', '\u{2000}', '\u{200a}', '\u{2028}', '\u{2029}', '\u{202f}', '\u{205f}', '\u{3000}'] {
        assert!(is_space(c), "{:?}", c);
    }
    for c in ['a', '0', '/', '\u{8}', '\u{e}', '\u{200b}', '\u{1f}', '\u{feff}'] {
        assert!(!is_space(c), "{:?}", c);
    }
}

#[test]
fn white_space_agrees_with_the_standard_library() {
    for code in 0u32..0x11000 {
        if let Some(c) = char::from_u32(code) {
            assert_eq!(is_space(c), c.is_whitespace(), "{:x}", code);
        }
    }
}

#[test]
fn trimming() {
    assert_eq!(trim("  add \t"), "add");
    assert_eq!(trim("add"), "add");
    assert_eq!(trim(""), "");
    assert_eq!(trim(" \r\n "), "");
    assert_eq!(trim("\u{3000}push constant 1\u{a0}"), "push constant 1");
    assert_eq!(trim(" a b "), "a b");
}

#[test]
fn prefixes() {
    assert_eq!(strip_prefix("push constant 1", "push"), Some(" constant 1"));
    assert_eq!(strip_prefix("push", "push"), Some(""));
    assert_eq!(strip_prefix("pus", "push"), None);
    assert_eq!(strip_prefix("pop local 1", "push"), None);
    assert_eq!(strip_prefix("anything", ""), Some("anything"));
}

#[test]
fn text_before_a_comment() {
    assert_eq!(before_comment("add // sum"), "add ");
    assert_eq!(before_comment("// all comment"), "");
    assert_eq!(before_comment("no comment"), "no comment");
    assert_eq!(before_comment("a / b"), "a / b");
    assert_eq!(before_comment("a /"), "a /");
    assert_eq!(before_comment("a // b // c"), "a ");
    assert_eq!(before_comment(""), "");
    assert_eq!(before_comment("/"), "/");
}

#[test]
fn words_of_a_text() {
    assert_eq!(split_whitespace("  local   12 "), vec!["local", "12"]);
    assert_eq!(split_whitespace(""), Vec::<&str>::new());
    assert_eq!(split_whitespace(" \t "), Vec::<&str>::new());
    assert_eq!(split_whitespace("one"), vec!["one"]);
    assert_eq!(split_whitespace("a\tb\u{a0}c"), vec!["a", "b", "c"]);
}

#[test]
fn lines_of_a_text() {
    assert_eq!(split_lines("a\nb"), vec!["a", "b"]);
    assert_eq!(split_lines("a\n"), vec!["a", ""]);
    assert_eq!(split_lines(""), vec![""]);
    assert_eq!(split_lines("\n\nx"), vec!["", "", "x"]);
    assert_eq!(split_lines("a\r\nb"), vec!["a\r", "b"]);
}

#[test]
fn numerals_of_words() {
    assert_eq!(parse_u16("0"), Ok(0));
    assert_eq!(parse_u16("17"), Ok(17));
    assert_eq!(parse_u16("65535"), Ok(65535));
    assert_eq!(parse_u16("+5"), Ok(5));
    assert_eq!(parse_u16("0005"), Ok(5));
    assert_eq!(parse_u16("65536"), Err(NumberError::TooLarge));
    assert_eq!(parse_u16("99999999999999999999999"), Err(NumberError::TooLarge));
    assert_eq!(parse_u16(""), Err(NumberError::Empty));
    assert_eq!(parse_u16("+"), Err(NumberError::InvalidDigit));
    assert_eq!(parse_u16("-"), Err(NumberError::InvalidDigit));
    assert_eq!(parse_u16("-5"), Err(NumberError::InvalidDigit));
    assert_eq!(parse_u16("1x"), Err(NumberError::InvalidDigit));
    assert_eq!(parse_u16("x1"), Err(NumberError::InvalidDigit));
    assert_eq!(parse_u16("++1"), Err(NumberError::InvalidDigit));
    assert_eq!(parse_u16("٣"), Err(NumberError::InvalidDigit));
    assert_eq!(parse_u16("99999x"), Err(NumberError::TooLarge));
    assert_eq!(parse_u16("9x9999"), Err(NumberError::InvalidDigit));
}

#[test]
fn numerals_agree_with_the_standard_library() {
    for text in ["0", "1", "65535", "65536", "+0", "+65535", "", "+", "-", "-1", "12a", "a12", "000000065535", "6553x", "65536x", "1 ", " 1"] {
        let expected = text.parse::<u16>();
        let got = parse_u16(text);
        match (expected, got) {
            (Ok(a), Ok(b)) => assert_eq!(a, b),
            (Err(e), Err(g)) => assert_eq!(e.to_string(), g.message(), "{:?}", text),
            _ => panic!("{:?} is read differently", text),
        }
    }
}

#[test]
fn number_error_messages() {
    assert_eq!(NumberError::Empty.message(), "cannot parse integer from empty string");
    assert_eq!(NumberError::InvalidDigit.message(), "invalid digit found in string");
    assert_eq!(NumberError::TooLarge.message(), "number too large to fit in target type");
}

#[test]
fn segment_names() {
    assert_eq!(Segment::from_str("argument"), Ok(Segment::Argument));
    assert_eq!(Segment::from_str("constant"), Ok(Segment::Constant));
    assert_eq!(Segment::from_str("local"), Ok(Segment::Local));
    assert_eq!(Segment::from_str("pointer"), Ok(Segment::Pointer));
    assert_eq!(Segment::from_str("static"), Ok(Segment::Static));
    assert_eq!(Segment::from_str("temp"), Ok(Segment::Temp));
    assert_eq!(Segment::from_str("that"), Ok(Segment::That));
    assert_eq!(Segment::from_str("this"), Ok(Segment::This));
    assert_eq!(Segment::from_str("heap"), Err("Unknown segment name: 'heap'".to_string()));
    assert_eq!(Segment::from_str("Local"), Err("Unknown segment name: 'Local'".to_string()));
    assert_eq!(Segment::from_str(""), Err("Unknown segment name: ''".to_string()));
}

#[test]
fn plain_commands() {
    assert!(matches!(Command::from_str("add"), Ok(Command::Add)));
    assert!(matches!(Command::from_str("sub"), Ok(Command::Sub)));
    assert!(matches!(Command::from_str("neg"), Ok(Command::Neg)));
    assert!(matches!(Command::from_str("eq"), Ok(Command::Eq)));
    assert!(matches!(Command::from_str("gt"), Ok(Command::Gt)));
    assert!(matches!(Command::from_str("lt"), Ok(Command::Lt)));
    assert!(matches!(Command::from_str("and"), Ok(Command::And)));
    assert!(matches!(Command::from_str("or"), Ok(Command::Or)));
    assert!(matches!(Command::from_str("not"), Ok(Command::Not)));
    assert!(matches!(Command::from_str("return"), Ok(Command::Return)));
}

#[test]
fn push_and_pop_commands() {
    assert!(matches!(
        Command::from_str("push constant 7"),
        Ok(Command::Push { segment: Segment::Constant, index: 7 })
    ));
    assert!(matches!(
        Command::from_str("pop   local\t12"),
        Ok(Command::Pop { segment: Segment::Local, index: 12 })
    ));
    assert!(matches!(
        Command::from_str("push that 65535"),
        Ok(Command::Push { segment: Segment::That, index: 65535 })
    ));
    assert!(matches!(
        Command::from_str("pop constant 0"),
        Ok(Command::Pop { segment: Segment::Constant, index: 0 })
    ));
}

#[test]
fn branching_commands() {
    assert!(matches!(Command::from_str("label LOOP"), Ok(Command::Label("LOOP"))));
    assert!(matches!(Command::from_str("goto  END "), Ok(Command::Goto("END"))));
    assert!(matches!(Command::from_str("if-goto LOOP"), Ok(Command::IfGoto("LOOP"))));
    assert!(matches!(Command::from_str("if-goto goto"), Ok(Command::IfGoto("goto"))));
}

#[test]
fn function_commands() {
    assert!(matches!(
        Command::from_str("function Main.main 3"),
        Ok(Command::Function { name: "Main.main", nvars: 3 })
    ));
    assert!(matches!(
        Command::from_str("call Math.multiply 2"),
        Ok(Command::Call { name: "Math.multiply", nargs: 2 })
    ));
}

#[test]
fn parts_of_commands() {
    assert!(matches!(Command::parse_push("local 1"), Ok(Command::Push { segment: Segment::Local, index: 1 })));
    assert!(matches!(Command::parse_pop("temp 2"), Ok(Command::Pop { segment: Segment::Temp, index: 2 })));
    assert!(matches!(Command::parse_label(" A "), Ok(Command::Label("A"))));
    assert!(matches!(Command::parse_goto(" A "), Ok(Command::Goto("A"))));
    assert!(matches!(Command::parse_if_goto(" A "), Ok(Command::IfGoto("A"))));
    assert!(matches!(Command::parse_function(" f 0"), Ok(Command::Function { name: "f", nvars: 0 })));
    assert!(matches!(Command::parse_call(" f 9"), Ok(Command::Call { name: "f", nargs: 9 })));
    assert_eq!(Command::parse_label_name("  x y  "), Ok("x y"));
    assert_eq!(Command::parse_label_name("   "), Err("Label must have a name".to_string()));
    assert_eq!(Command::parse_stack_arguments("this 4"), Ok((Segment::This, 4)));
    assert_eq!(
        Command::parse_stack_arguments("those 4"),
        Err("Unknown segment name: 'those'".to_string())
    );
    assert_eq!(Command::parse_label_and_n("name 12"), Ok(("name", 12)));
    assert_eq!(
        Command::parse_label_and_n("name"),
        Err("expected format '<string> <int>'".to_string())
    );
    assert_eq!(
        Command::parse_label_and_n("name 1 2"),
        Err("expected format '<string> <int>'".to_string())
    );
    assert_eq!(
        Command::parse_label_and_n("name x"),
        Err("Error parsing index: invalid digit found in string".to_string())
    );
    assert_eq!(
        Command::parse_label_and_n("name 65536"),
        Err("Error parsing index: number too large to fit in target type".to_string())
    );
}

#[test]
fn malformed_commands() {
    assert_eq!(
        Command::from_str("bogus").unwrap_err(),
        "Parser not implemented for 'bogus'"
    );
    assert_eq!(Command::from_str("ADD").unwrap_err(), "Parser not implemented for 'ADD'");
    assert_eq!(Command::from_str("add 1").unwrap_err(), "Parser not implemented for 'add 1'");
    assert_eq!(
        Command::from_str("push constant").unwrap_err(),
        "expected format '<string> <int>'"
    );
    assert_eq!(
        Command::from_str("push constant 1 2").unwrap_err(),
        "expected format '<string> <int>'"
    );
    assert_eq!(Command::from_str("push").unwrap_err(), "expected format '<string> <int>'");
    assert_eq!(
        Command::from_str("push locl 1").unwrap_err(),
        "Unknown segment name: 'locl'"
    );
    assert_eq!(
        Command::from_str("pop local one").unwrap_err(),
        "Error parsing index: invalid digit found in string"
    );
    assert_eq!(
        Command::from_str("pop local -1").unwrap_err(),
        "Error parsing index: invalid digit found in string"
    );
    assert_eq!(
        Command::from_str("push constant 70000").unwrap_err(),
        "Error parsing index: number too large to fit in target type"
    );
    assert_eq!(Command::from_str("label").unwrap_err(), "Label must have a name");
    assert_eq!(Command::from_str("goto").unwrap_err(), "Label must have a name");
    assert_eq!(Command::from_str("if-goto  ").unwrap_err(), "Label must have a name");
    assert_eq!(
        Command::from_str("function Foo").unwrap_err(),
        "expected format '<string> <int>'"
    );
    assert_eq!(
        Command::from_str("call Foo x").unwrap_err(),
        "Error parsing index: invalid digit found in string"
    );
}

#[test]
fn comments_are_stripped() {
    assert_eq!(strip_comments("  add // sum"), Some("add"));
    assert_eq!(strip_comments("// nothing"), None);
    assert_eq!(strip_comments(""), None);
    assert_eq!(strip_comments("   \t"), None);
    assert_eq!(strip_comments("push constant 1"), Some("push constant 1"));
    assert_eq!(strip_comments("   //"), None);
}

#[test]
fn a_source_command_knows_its_place() {
    let command = only("\n// header\n  push constant 7 // seven\n");
    assert_eq!(command.line(), 2);
    assert_eq!(command.source(), "push constant 7");
    assert_eq!(command.file_base(), "Main");
    assert!(matches!(command.command(), Command::Push { segment: Segment::Constant, index: 7 }));
}

#[test]
fn a_source_command_made_by_hand() {
    let command = SourceCommand::new("Unit", 41, "sub", Command::Sub);
    assert_eq!(command.line(), 41);
    assert_eq!(command.source(), "sub");
    assert_eq!(command.file_base(), "Unit");
    assert!(matches!(command.command(), Command::Sub));
}

#[test]
fn one_line_is_read_under_its_number() {
    let command = parse_source_command("Unit", 3, "neg").unwrap();
    assert_eq!(command.line(), 3);
    assert_eq!(command.file_base(), "Unit");
    assert_eq!(command.source(), "neg");
    assert!(matches!(command.command(), Command::Neg));
    assert_eq!(
        parse_source_command("Unit", 3, "negate").unwrap_err(),
        "Parse error at line Unit:3 (negate): Parser not implemented for 'negate'"
    );
}

#[test]
fn lines_are_numbered_from_zero_and_blank_lines_count() {
    let results = parse_source("Main", "add\n\n// c\nsub\r\n   neg   \n");
    assert_eq!(results.len(), 3);
    let lines: Vec<usize> = results.iter().map(|r| r.as_ref().unwrap().line()).collect();
    assert_eq!(lines, vec![0, 3, 4]);
    let sources: Vec<&str> = results.iter().map(|r| r.as_ref().unwrap().source()).collect();
    assert_eq!(sources, vec!["add", "sub", "neg"]);
}

#[test]
fn an_empty_source_has_no_commands() {
    assert_eq!(parse_source("Main", "").len(), 0);
    assert_eq!(parse_source("Main", "\n\n").len(), 0);
    assert_eq!(parse_source("Main", "// only a comment").len(), 0);
}

#[test]
fn a_parse_error_names_its_line() {
    assert_eq!(
        failure("\n\n  push lcl 1 // typo\n"),
        "Parse error at line Main:2 (push lcl 1): Unknown segment name: 'lcl'"
    );
    assert_eq!(
        failure("push constant"),
        "Parse error at line Main:0 (push constant): expected format '<string> <int>'"
    );
    assert_eq!(
        failure("push constant 1e3"),
        "Parse error at line Main:0 (push constant 1e3): Error parsing index: invalid digit found in string"
    );
    assert_eq!(
        failure("label // nothing"),
        "Parse error at line Main:0 (label): Label must have a name"
    );
}

#[test]
fn good_and_bad_lines_are_kept_in_order() {
    let results = parse_source("Main", "add\nfoo\nsub\nbar\n");
    assert_eq!(results.len(), 4);
    assert!(results[0].is_ok());
    assert!(results[1].is_err());
    assert!(results[2].is_ok());
    assert!(results[3].is_err());
}

#[test]
fn several_units_are_read_one_after_the_other() {
    let sources = vec![
        ("A".to_string(), "push constant 1\nadd\n".to_string()),
        ("B".to_string(), "".to_string()),
        ("C".to_string(), "\nsub\n".to_string()),
    ];
    let results = parse_sources(&sources);
    let places: Vec<(String, usize)> = results
        .iter()
        .map(|r| {
            let c = r.as_ref().unwrap();
            (c.file_base().to_string(), c.line())
        })
        .collect();
    assert_eq!(
        places,
        vec![("A".to_string(), 0), ("A".to_string(), 1), ("C".to_string(), 1)]
    );
    assert_eq!(parse_sources(&Vec::new()).len(), 0);
}

#[test]
fn all_reports_are_collected() {
    let sources = vec![
        ("A".to_string(), "add\nfoo\n".to_string()),
        ("B".to_string(), "push nowhere 1\nsub\n".to_string()),
    ];
    let reports = extract_errors(parse_sources(&sources)).unwrap_err();
    assert_eq!(
        reports,
        vec![
            "Parse error at line A:1 (foo): Parser not implemented for 'foo'".to_string(),
            "Parse error at line B:0 (push nowhere 1): Unknown segment name: 'nowhere'".to_string(),
        ]
    );
    assert_eq!(error_summary(reports.len()), "Parse errors found: 2");
}

#[test]
fn without_reports_all_commands_come_out() {
    let commands = extract_errors(parse_source("Main", "add\nsub\nneg\n")).unwrap();
    assert_eq!(commands.len(), 3);
    assert!(matches!(commands[0].command(), Command::Add));
    assert!(matches!(commands[1].command(), Command::Sub));
    assert!(matches!(commands[2].command(), Command::Neg));
    assert_eq!(extract_errors(Vec::new()).unwrap().len(), 0);
}

#[test]
fn error_summaries() {
    assert_eq!(error_summary(1), "Parse errors found: 1");
    assert_eq!(error_summary(120), "Parse errors found: 120");
}
