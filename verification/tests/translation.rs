use hack_vmtranslator::codegen::{
    bootstrap, comment, generate_add, generate_and, generate_call, generate_code,
    generate_code_for_command, generate_eq, generate_function, generate_goto, generate_gt,
    generate_if_goto, generate_label, generate_lt, generate_neg, generate_not, generate_or,
    generate_pop, generate_push, generate_return, generate_sub, pop_to_address, push_constant,
    push_from_address,
};
use hack_vmtranslator::hack::{emit, render_listing, Comp, Dest, Instruction, Jump};
use hack_vmtranslator::vm::{extract_errors, parse_source, parse_sources, Command, Segment, SourceCommand};

const PUSH_D: &str = "@SP\nA=M\nM=D\n@SP\nM=M+1";
const POP_D: &str = "@SP\nAM=M-1\nD=M";

fn text(code: Vec<Instruction>) -> String {
    render_listing(&code)
}

fn translate(file: &str, source: &str) -> Result<Vec<String>, String> {
    generate_code(extract_errors(parse_source(file, source)).unwrap())
}

fn at_line<'a>(line: usize, source: &'a str, command: Command<'a>) -> SourceCommand<'a> {
    SourceCommand::new("Main", line, source, command)
}

#[test]
fn instructions_are_written_as_lines() {
    assert_eq!(Instruction::Number(0).render(), "@0");
    assert_eq!(Instruction::Number(65540).render(), "@65540");
    assert_eq!(Instruction::at("SP").render(), "@SP");
    assert_eq!(Instruction::Symbol("Main.3".to_string()).render(), "@Main.3");
    assert_eq!(Instruction::Label("LOOP".to_string()).render(), "(LOOP)");
    assert_eq!(Instruction::set(Dest::AM, Comp::MMinusOne).render(), "AM=M-1");
    assert_eq!(Instruction::set(Dest::D, Comp::DAndM).render(), "D=D&M");
    assert_eq!(Instruction::branch(Comp::D, Jump::NotEqual).render(), "D;JNE");
    assert_eq!(Instruction::branch(Comp::Zero, Jump::Always).render(), "0;JMP");
    assert_eq!(
        Instruction::Compute { dest: Dest::AMD, comp: Comp::DOrA, jump: Jump::LessEqual }.render(),
        "AMD=D|A;JLE"
    );
    assert_eq!(
        Instruction::Compute { dest: Dest::Nothing, comp: Comp::NotM, jump: Jump::Never }.render(),
        "!M"
    );
}

#[test]
fn every_mnemonic() {
    let dests = [
        (Dest::Nothing, ""),
        (Dest::M, "M"),
        (Dest::D, "D"),
        (Dest::MD, "MD"),
        (Dest::A, "A"),
        (Dest::AM, "AM"),
        (Dest::AD, "AD"),
        (Dest::AMD, "AMD"),
    ];
    for (dest, expected) in dests {
        assert_eq!(dest.mnemonic(), expected);
    }
    let comps = [
        (Comp::Zero, "0"),
        (Comp::One, "1"),
        (Comp::MinusOne, "-1"),
        (Comp::D, "D"),
        (Comp::A, "A"),
        (Comp::M, "M"),
        (Comp::NotD, "!D"),
        (Comp::NotA, "!A"),
        (Comp::NotM, "!M"),
        (Comp::NegD, "-D"),
        (Comp::NegA, "-A"),
        (Comp::NegM, "-M"),
        (Comp::DPlusOne, "D+1"),
        (Comp::APlusOne, "A+1"),
        (Comp::MPlusOne, "M+1"),
        (Comp::DMinusOne, "D-1"),
        (Comp::AMinusOne, "A-1"),
        (Comp::MMinusOne, "M-1"),
        (Comp::DPlusA, "D+A"),
        (Comp::DPlusM, "D+M"),
        (Comp::DMinusA, "D-A"),
        (Comp::DMinusM, "D-M"),
        (Comp::AMinusD, "A-D"),
        (Comp::MMinusD, "M-D"),
        (Comp::DAndA, "D&A"),
        (Comp::DAndM, "D&M"),
        (Comp::DOrA, "D|A"),
        (Comp::DOrM, "D|M"),
    ];
    for (comp, expected) in comps {
        assert_eq!(comp.mnemonic(), expected);
    }
    let jumps = [
        (Jump::Never, ""),
        (Jump::Greater, "JGT"),
        (Jump::Equal, "JEQ"),
        (Jump::GreaterEqual, "JGE"),
        (Jump::Less, "JLT"),
        (Jump::NotEqual, "JNE"),
        (Jump::LessEqual, "JLE"),
        (Jump::Always, "JMP"),
    ];
    for (jump, expected) in jumps {
        assert_eq!(jump.mnemonic(), expected);
    }
}

#[test]
fn listings_have_one_line_for_each_instruction() {
    let mut code = Vec::new();
    assert_eq!(render_listing(&code), "");
    emit(&mut code, Instruction::at("SP"));
    assert_eq!(render_listing(&code), "@SP");
    emit(&mut code, Instruction::set(Dest::A, Comp::M));
    emit(&mut code, Instruction::Label("X".to_string()));
    assert_eq!(render_listing(&code), "@SP\nA=M\n(X)");
}

#[test]
fn push_constant_text() {
    let out = translate("Main", "push constant 7").unwrap();
    assert_eq!(out, vec![format!("// Main[0]: push constant 7\n@7\nD=A\n{}", PUSH_D)]);
    assert_eq!(text(push_constant(0)), format!("@0\nD=A\n{}", PUSH_D));
    assert_eq!(text(push_constant(65535)), format!("@65535\nD=A\n{}", PUSH_D));
}

#[test]
fn arithmetic_text() {
    assert_eq!(text(generate_add()), format!("{}\n@SP\nAM=M-1\nD=D+M\n{}", POP_D, PUSH_D));
    assert_eq!(text(generate_sub()), format!("{}\n@SP\nAM=M-1\nD=M-D\n{}", POP_D, PUSH_D));
    assert_eq!(text(generate_and()), format!("{}\n@SP\nAM=M-1\nD=D&M\n{}", POP_D, PUSH_D));
    assert_eq!(text(generate_or()), format!("{}\n@SP\nAM=M-1\nD=D|M\n{}", POP_D, PUSH_D));
    assert_eq!(text(generate_neg()), format!("{}\nD=-D\n{}", POP_D, PUSH_D));
    assert_eq!(text(generate_not()), format!("{}\nD=!D\n{}", POP_D, PUSH_D));
}

#[test]
fn comparison_text() {
    let sc = SourceCommand::new("Foo", 4, "eq", Command::Eq);
    let expected = |jump: &str| {
        format!(
            "{}\n@SP\nAM=M-1\nD=M-D\n@COMP_TRUE_Foo.4\nD;{}\n@0\nD=A\n@COMP_END_Foo.4\n0;JMP\n(COMP_TRUE_Foo.4)\n@1\nD=-A\n(COMP_END_Foo.4)\n{}",
            POP_D, jump, PUSH_D
        )
    };
    assert_eq!(text(generate_eq(&sc)), expected("JEQ"));
    assert_eq!(text(generate_gt(&sc)), expected("JGT"));
    assert_eq!(text(generate_lt(&sc)), expected("JLT"));
}

#[test]
fn push_text_for_each_segment() {
    let sc = at_line(0, "push", Command::Add);
    let dynamic = |base: &str, index: u16| format!("@{}\nD=A\n@{}\nA=D+M\nD=M\n{}", index, base, PUSH_D);
    assert_eq!(text(generate_push(&sc, &Segment::Argument, 2)), dynamic("ARG", 2));
    assert_eq!(text(generate_push(&sc, &Segment::Local, 0)), dynamic("LCL", 0));
    assert_eq!(text(generate_push(&sc, &Segment::This, 65535)), dynamic("THIS", 65535));
    assert_eq!(text(generate_push(&sc, &Segment::That, 10)), dynamic("THAT", 10));
    assert_eq!(text(generate_push(&sc, &Segment::Constant, 9)), format!("@9\nD=A\n{}", PUSH_D));
    assert_eq!(text(generate_push(&sc, &Segment::Pointer, 0)), format!("@3\nD=M\n{}", PUSH_D));
    assert_eq!(text(generate_push(&sc, &Segment::Pointer, 1)), format!("@4\nD=M\n{}", PUSH_D));
    assert_eq!(text(generate_push(&sc, &Segment::Temp, 6)), format!("@11\nD=M\n{}", PUSH_D));
    assert_eq!(text(generate_push(&sc, &Segment::Temp, 65535)), format!("@65540\nD=M\n{}", PUSH_D));
    assert_eq!(text(generate_push(&sc, &Segment::Static, 3)), format!("@Main.3\nD=M\n{}", PUSH_D));
    assert_eq!(text(push_from_address(16)), format!("@16\nD=M\n{}", PUSH_D));
}

#[test]
fn pop_text_for_each_segment() {
    let sc = at_line(0, "pop", Command::Add);
    let dynamic = |base: &str, index: u16| {
        format!("@{}\nD=M\n@{}\nD=D+A\n@SP\nAM=M-1\nD=D+M\nA=D-M\nM=D-A", base, index)
    };
    assert_eq!(text(generate_pop(&sc, &Segment::Argument, 2).unwrap()), dynamic("ARG", 2));
    assert_eq!(text(generate_pop(&sc, &Segment::Local, 3).unwrap()), dynamic("LCL", 3));
    assert_eq!(text(generate_pop(&sc, &Segment::This, 0).unwrap()), dynamic("THIS", 0));
    assert_eq!(text(generate_pop(&sc, &Segment::That, 65535).unwrap()), dynamic("THAT", 65535));
    assert_eq!(text(generate_pop(&sc, &Segment::Pointer, 1).unwrap()), format!("{}\n@4\nM=D", POP_D));
    assert_eq!(text(generate_pop(&sc, &Segment::Temp, 7).unwrap()), format!("{}\n@12\nM=D", POP_D));
    assert_eq!(text(generate_pop(&sc, &Segment::Pointer, 65535).unwrap()), format!("{}\n@65538\nM=D", POP_D));
    assert_eq!(text(generate_pop(&sc, &Segment::Static, 8).unwrap()), format!("{}\n@Main.8\nM=D", POP_D));
    assert_eq!(text(pop_to_address(5)), format!("{}\n@5\nM=D", POP_D));
}

#[test]
fn pop_to_constant_is_refused() {
    let sc = at_line(0, "pop constant 1", Command::Pop { segment: Segment::Constant, index: 1 });
    assert_eq!(
        generate_pop(&sc, &Segment::Constant, 1).unwrap_err(),
        "Unable to address segment for pop: Constant"
    );
    assert_eq!(
        generate_code_for_command(&sc, None).unwrap_err(),
        "Code generation error at line Main:0 (pop constant 1): Unable to address segment for pop: Constant"
    );
}

#[test]
fn labels_are_qualified_by_the_function_or_the_unit() {
    let sc = at_line(5, "label LOOP", Command::Label("LOOP"));
    assert_eq!(text(generate_label(&sc, "LOOP", None).unwrap()), "(Main$LOOP)");
    assert_eq!(text(generate_label(&sc, "LOOP", Some("Foo.bar")).unwrap()), "(Foo.bar$LOOP)");
    assert_eq!(text(generate_goto(&sc, "LOOP", None).unwrap()), "@Main$LOOP\n0;JMP");
    assert_eq!(
        text(generate_goto(&sc, "LOOP", Some("Foo.bar")).unwrap()),
        "@Foo.bar$LOOP\n0;JMP"
    );
    assert_eq!(
        text(generate_if_goto(&sc, "LOOP", None).unwrap()),
        format!("{}\n@Main$LOOP\nD;JNE", POP_D)
    );
    assert_eq!(
        text(generate_if_goto(&sc, "END", Some("f")).unwrap()),
        format!("{}\n@f$END\nD;JNE", POP_D)
    );
}

#[test]
fn a_label_without_a_name_is_refused() {
    let sc = at_line(5, "label", Command::Label(""));
    assert_eq!(generate_label(&sc, "", None).unwrap_err(), "Label must have a name");
    assert_eq!(generate_goto(&sc, "", Some("f")).unwrap_err(), "Label must have a name");
    assert_eq!(generate_if_goto(&sc, "", None).unwrap_err(), "Label must have a name");
    assert_eq!(
        generate_code(vec![sc]).unwrap_err(),
        "Code generation error at line Main:5 (label): Label must have a name"
    );
    let jump = at_line(6, "goto", Command::Goto(""));
    assert_eq!(
        generate_code(vec![jump]).unwrap_err(),
        "Code generation error at line Main:6 (goto): Label must have a name"
    );
    let branch = at_line(7, "if-goto", Command::IfGoto(""));
    assert_eq!(
        generate_code(vec![branch]).unwrap_err(),
        "Code generation error at line Main:7 (if-goto): Label must have a name"
    );
}

fn call_text(resume: &str, name: &str, offset: u32) -> String {
    let push = |symbol: &str| format!("@{}\nD=M\n{}", symbol, PUSH_D);
    format!(
        "@{}\nD=A\n{}\n{}\n{}\n{}\n{}\n@SP\nD=M\n@{}\nD=D-A\n@ARG\nM=D\n@SP\nD=M\n@LCL\nM=D\n@{}\n0;JMP\n({})",
        resume,
        PUSH_D,
        push("LCL"),
        push("ARG"),
        push("THIS"),
        push("THAT"),
        offset,
        name,
        resume
    )
}

#[test]
fn call_text_in_and_out_of_a_function() {
    let sc = at_line(12, "call Foo.bar 2", Command::Call { name: "Foo.bar", nargs: 2 });
    assert_eq!(
        text(generate_call(&sc, "Foo.bar", 2, Some("Main.main"))),
        call_text("Main.main$ret.12", "Foo.bar", 7)
    );
    assert_eq!(text(generate_call(&sc, "Foo.bar", 0, None)), call_text("Main$ret.12", "Foo.bar", 5));
    assert_eq!(
        text(generate_call(&sc, "f", 65535, None)),
        call_text("Main$ret.12", "f", 65540)
    );
}

#[test]
fn function_text() {
    let zero = format!("@0\nD=A\n{}", PUSH_D);
    assert_eq!(text(generate_function("Foo", 0)), "(Foo)");
    assert_eq!(text(generate_function("Foo", 1)), format!("(Foo)\n{}", zero));
    assert_eq!(text(generate_function("Foo.bar", 2)), format!("(Foo.bar)\n{}\n{}", zero, zero));
    assert_eq!(generate_function("f", 300).len(), 1 + 7 * 300);
}

#[test]
fn return_text() {
    let restore = |symbol: &str| format!("@frame\nAM=M-1\nD=M\n@{}\nM=D", symbol);
    let expected = format!(
        "@LCL\nD=M\n@frame\nM=D\n@frame\nD=M\n@5\nA=D-A\nD=M\n@retaddr\nM=D\n{}\n@ARG\nA=M\nM=D\n@ARG\nD=M+1\n@SP\nM=D\n{}\n{}\n{}\n{}\n@retaddr\nA=M\n0;JMP",
        POP_D,
        restore("THAT"),
        restore("THIS"),
        restore("ARG"),
        restore("LCL")
    );
    assert_eq!(text(generate_return()), expected);
}

#[test]
fn bootstrap_text() {
    let expected = format!(
        "@256\nD=A\n@SP\nM=D\n@LCL\nM=-1\n@2\nD=-A\n@ARG\nM=D\n@3\nD=-A\n@THIS\nM=D\n@4\nD=-A\n@THAT\nM=D\n{}",
        call_text("Bootstrap$ret.0", "Sys.init", 5)
    );
    assert_eq!(bootstrap(), expected);
}

#[test]
fn comment_text() {
    let sc = SourceCommand::new("Unit", 17, "push local 2", Command::Push { segment: Segment::Local, index: 2 });
    assert_eq!(comment(&sc), "// Unit[17]: push local 2\n");
}

#[test]
fn a_command_is_a_comment_and_its_code() {
    let sc = at_line(3, "add", Command::Add);
    assert_eq!(
        generate_code_for_command(&sc, None).unwrap(),
        format!("// Main[3]: add\n{}", text(generate_add()))
    );
    let sc = at_line(4, "label X", Command::Label("X"));
    assert_eq!(generate_code_for_command(&sc, Some("f")).unwrap(), "// Main[4]: label X\n(f$X)");
    assert_eq!(generate_code_for_command(&sc, None).unwrap(), "// Main[4]: label X\n(Main$X)");
}

#[test]
fn an_empty_program_translates_to_nothing() {
    assert_eq!(generate_code(Vec::new()).unwrap(), Vec::<String>::new());
}

#[test]
fn one_block_for_each_command_in_order() {
    let out = translate("Main", "push constant 7\npush constant 8\nadd\n").unwrap();
    assert_eq!(
        out,
        vec![
            format!("// Main[0]: push constant 7\n@7\nD=A\n{}", PUSH_D),
            format!("// Main[1]: push constant 8\n@8\nD=A\n{}", PUSH_D),
            format!("// Main[2]: add\n{}\n@SP\nAM=M-1\nD=D+M\n{}", POP_D, PUSH_D),
        ]
    );
}

#[test]
fn no_prologue_without_the_entry_function() {
    let out = translate("Main", "function Main.main 0\npush constant 1\nreturn\n").unwrap();
    assert_eq!(out.len(), 3);
    assert!(out.iter().all(|block| block.starts_with("// Main[")));
    assert!(out.iter().all(|block| *block != bootstrap()));
}

#[test]
fn one_prologue_first_with_the_entry_function() {
    let out = translate("Sys", "function Foo 0\nreturn\nfunction Sys.init 0\ncall Foo 0\nfunction Sys.init 0\n").unwrap();
    assert_eq!(out.len(), 6);
    assert_eq!(out[0], bootstrap());
    assert!(out[1..].iter().all(|block| block.starts_with("// Sys[")));
    assert_eq!(out.iter().filter(|block| **block == bootstrap()).count(), 1);
    assert_eq!(out[1], "// Sys[0]: function Foo 0\n(Foo)");
}

#[test]
fn a_call_to_the_entry_function_is_no_declaration() {
    let out = translate("Main", "call Sys.init 0\nlabel Sys.init\n").unwrap();
    assert_eq!(out.len(), 2);
    assert!(out[0].starts_with("// Main[0]: call Sys.init 0\n"));
}

#[test]
fn the_scope_is_the_function_declared_last() {
    let source = "label A\nfunction f 0\nlabel A\nreturn\nlabel B\nfunction g 0\ngoto A\ncall f 0\n";
    let out = translate("Main", source).unwrap();
    assert_eq!(out[0], "// Main[0]: label A\n(Main$A)");
    assert_eq!(out[2], "// Main[2]: label A\n(f$A)");
    assert_eq!(out[4], "// Main[4]: label B\n(f$B)");
    assert_eq!(out[6], "// Main[6]: goto A\n@g$A\n0;JMP");
    assert!(out[7].starts_with("// Main[7]: call f 0\n@g$ret.7\n"));
    assert!(out[7].ends_with("\n(g$ret.7)"));
}

#[test]
fn the_scope_carries_over_to_the_next_unit() {
    let sources = vec![
        ("A".to_string(), "function A.f 0\n".to_string()),
        ("B".to_string(), "label X\npush static 1\n".to_string()),
    ];
    let out = generate_code(extract_errors(parse_sources(&sources)).unwrap()).unwrap();
    assert_eq!(out[1], "// B[0]: label X\n(A.f$X)");
    assert!(out[2].starts_with("// B[1]: push static 1\n@B.1\n"));
}

#[test]
fn comparisons_on_different_lines_have_different_labels() {
    let out = translate("Main", "eq\neq\ngt\n\nlt\n").unwrap();
    for (block, line) in out.iter().zip([0, 1, 2, 4]) {
        assert!(block.contains(&format!("(COMP_TRUE_Main.{})\n", line)));
        assert!(block.contains(&format!("(COMP_END_Main.{})\n", line)));
    }
    let mut labels: Vec<&str> = out
        .iter()
        .flat_map(|block| block.split('\n'))
        .filter(|line| line.starts_with('('))
        .collect();
    assert_eq!(labels.len(), 8);
    labels.sort();
    labels.dedup();
    assert_eq!(labels.len(), 8);
}

#[test]
fn calls_on_different_lines_resume_at_different_labels() {
    let out = translate("Main", "function f 0\ncall g 0\ncall g 0\ncall g 1\n").unwrap();
    assert!(out[1].ends_with("\n(f$ret.1)"));
    assert!(out[2].ends_with("\n(f$ret.2)"));
    assert!(out[3].ends_with("\n(f$ret.3)"));
}

#[test]
fn the_first_command_without_translation_is_reported() {
    let commands = vec![
        at_line(0, "add", Command::Add),
        at_line(1, "pop constant 3", Command::Pop { segment: Segment::Constant, index: 3 }),
        at_line(2, "label", Command::Label("")),
    ];
    assert_eq!(
        generate_code(commands).unwrap_err(),
        "Code generation error at line Main:1 (pop constant 3): Unable to address segment for pop: Constant"
    );
    assert_eq!(
        translate("Main", "function Sys.init 0\npop constant 0\n").unwrap_err(),
        "Code generation error at line Main:1 (pop constant 0): Unable to address segment for pop: Constant"
    );
}

#[test]
fn comparisons_in_different_units_have_different_labels() {
    let sources = vec![
        ("A".to_string(), "eq\n".to_string()),
        ("B".to_string(), "eq\n".to_string()),
        ("A.1".to_string(), "eq\n".to_string()),
    ];
    let out = generate_code(extract_errors(parse_sources(&sources)).unwrap()).unwrap();
    assert!(out[0].contains("(COMP_TRUE_A.0)\n"));
    assert!(out[0].contains("(COMP_END_A.0)\n"));
    assert!(out[1].contains("(COMP_TRUE_B.0)\n"));
    assert!(out[1].contains("(COMP_END_B.0)\n"));
    assert!(out[2].contains("(COMP_TRUE_A.1.0)\n"));
    assert!(out[2].contains("(COMP_END_A.1.0)\n"));
}
