// Runs translated programs on a small interpreter of the target machine and
// looks at the memory they leave behind.

use hack_vmtranslator::codegen::generate_code;
use hack_vmtranslator::vm::{extract_errors, parse_source, parse_sources};
use std::collections::HashMap;

#[derive(Clone, Debug)]
enum Line {
    Address(u16),
    Compute { dest: String, comp: String, jump: String },
}

struct Program {
    rom: Vec<Line>,
    symbols: HashMap<String, u16>,
}

struct Cpu {
    a: u16,
    d: u16,
    pc: usize,
    ram: Vec<u16>,
}

fn code_lines(blocks: &[String]) -> Vec<String> {
    let mut out = Vec::new();
    for block in blocks {
        for line in block.split('\n') {
            let line = line.trim();
            if line.is_empty() || line.starts_with("//") {
                continue;
            }
            out.push(line.to_string());
        }
    }
    out
}

fn assemble(blocks: &[String]) -> Program {
    let lines = code_lines(blocks);
    let mut symbols: HashMap<String, u16> = HashMap::new();
    for (name, address) in [("SP", 0u16), ("LCL", 1), ("ARG", 2), ("THIS", 3), ("THAT", 4), ("SCREEN", 16384), ("KBD", 24576)] {
        symbols.insert(name.to_string(), address);
    }
    for r in 0..16u16 {
        symbols.insert(format!("R{}", r), r);
    }
    let mut count: u16 = 0;
    for line in &lines {
        if line.starts_with('(') {
            let name = &line[1..line.len() - 1];
            assert!(symbols.insert(name.to_string(), count).is_none(), "label {} declared twice", name);
        } else {
            count += 1;
        }
    }
    let mut next_variable: u16 = 16;
    let mut rom = Vec::new();
    for line in &lines {
        if line.starts_with('(') {
            continue;
        }
        if let Some(rest) = line.strip_prefix('@') {
            let value = match rest.parse::<u16>() {
                Ok(n) => n,
                Err(_) => {
                    if !symbols.contains_key(rest) {
                        symbols.insert(rest.to_string(), next_variable);
                        next_variable += 1;
                    }
                    symbols[rest]
                }
            };
            rom.push(Line::Address(value));
        } else {
            let (dest, rest) = match line.split_once('=') {
                Some((d, r)) => (d.to_string(), r),
                None => (String::new(), line.as_str()),
            };
            let (comp, jump) = match rest.split_once(';') {
                Some((c, j)) => (c.to_string(), j.to_string()),
                None => (rest.to_string(), String::new()),
            };
            rom.push(Line::Compute { dest, comp, jump });
        }
    }
    Program { rom, symbols }
}

fn evaluate(comp: &str, a: u16, d: u16, m: u16) -> u16 {
    match comp {
        "0" => 0,
        "1" => 1,
        "-1" => 0xFFFF,
        "D" => d,
        "A" => a,
        "M" => m,
        "!D" => !d,
        "!A" => !a,
        "!M" => !m,
        "-D" => d.wrapping_neg(),
        "-A" => a.wrapping_neg(),
        "-M" => m.wrapping_neg(),
        "D+1" => d.wrapping_add(1),
        "A+1" => a.wrapping_add(1),
        "M+1" => m.wrapping_add(1),
        "D-1" => d.wrapping_sub(1),
        "A-1" => a.wrapping_sub(1),
        "M-1" => m.wrapping_sub(1),
        "D+A" => d.wrapping_add(a),
        "D+M" => d.wrapping_add(m),
        "D-A" => d.wrapping_sub(a),
        "D-M" => d.wrapping_sub(m),
        "A-D" => a.wrapping_sub(d),
        "M-D" => m.wrapping_sub(d),
        "D&A" => d & a,
        "D&M" => d & m,
        "D|A" => d | a,
        "D|M" => d | m,
        other => panic!("unknown expression {}", other),
    }
}

fn new_cpu() -> Cpu {
    Cpu { a: 0, d: 0, pc: 0, ram: vec![0; 65536] }
}

fn step(program: &Program, cpu: &mut Cpu) {
    match &program.rom[cpu.pc] {
        Line::Address(value) => {
            cpu.a = *value;
            cpu.pc += 1;
        }
        Line::Compute { dest, comp, jump } => {
            let address = cpu.a as usize;
            let value = evaluate(comp, cpu.a, cpu.d, cpu.ram[address]);
            if dest.contains('M') {
                cpu.ram[address] = value;
            }
            if dest.contains('D') {
                cpu.d = value;
            }
            let target = cpu.a as usize;
            if dest.contains('A') {
                cpu.a = value;
            }
            let signed = value as i16;
            let taken = match jump.as_str() {
                "" => false,
                "JGT" => signed > 0,
                "JEQ" => signed == 0,
                "JGE" => signed >= 0,
                "JLT" => signed < 0,
                "JNE" => signed != 0,
                "JLE" => signed <= 0,
                "JMP" => true,
                other => panic!("unknown jump {}", other),
            };
            cpu.pc = if taken { target } else { cpu.pc + 1 };
        }
    }
}

/// Runs until the program counter leaves the program or reaches `stop`.
fn run(program: &Program, cpu: &mut Cpu, stop: Option<usize>) {
    let mut steps = 0;
    while cpu.pc < program.rom.len() && Some(cpu.pc) != stop {
        step(program, cpu);
        steps += 1;
        assert!(steps < 1_000_000, "the program does not come to an end");
    }
}

fn translate(file: &str, text: &str) -> Vec<String> {
    let commands = extract_errors(parse_source(file, text)).unwrap();
    generate_code(commands).unwrap()
}

/// Translates `text`, runs it from a stack that starts at 256 and holds
/// nothing, and returns the machine.
fn run_plain(text: &str) -> Cpu {
    let program = assemble(&translate("Test", text));
    let mut cpu = new_cpu();
    cpu.ram[0] = 256;
    run(&program, &mut cpu, None);
    cpu
}

#[test]
fn add_of_seven_and_eight_is_fifteen() {
    let cpu = run_plain("push constant 7\npush constant 8\nadd\n");
    assert_eq!(cpu.ram[0], 257);
    assert_eq!(cpu.ram[256], 15);
}

#[test]
fn sub_is_left_minus_right() {
    let cpu = run_plain("push constant 7\npush constant 8\nsub\n");
    assert_eq!(cpu.ram[0], 257);
    assert_eq!(cpu.ram[256] as i16, -1);
    let cpu = run_plain("push constant 20\npush constant 8\nsub\n");
    assert_eq!(cpu.ram[256], 12);
}

#[test]
fn add_and_sub_for_many_pairs() {
    for a in [0u16, 1, 2, 100, 255, 4000, 32767] {
        for b in [0u16, 1, 3, 77, 1000, 32767] {
            let cpu = run_plain(&format!("push constant {}\npush constant {}\nadd\n", a, b));
            assert_eq!(cpu.ram[0], 257);
            assert_eq!(cpu.ram[256], a.wrapping_add(b));
            let cpu = run_plain(&format!("push constant {}\npush constant {}\nsub\n", a, b));
            assert_eq!(cpu.ram[0], 257);
            assert_eq!(cpu.ram[256], a.wrapping_sub(b));
        }
    }
}

#[test]
fn and_or_not_neg() {
    let cpu = run_plain("push constant 12\npush constant 10\nand\n");
    assert_eq!(cpu.ram[256], 8);
    let cpu = run_plain("push constant 12\npush constant 10\nor\n");
    assert_eq!(cpu.ram[256], 14);
    let cpu = run_plain("push constant 12\nnot\n");
    assert_eq!(cpu.ram[256], !12u16);
    let cpu = run_plain("push constant 12\nneg\n");
    assert_eq!(cpu.ram[256] as i16, -12);
    assert_eq!(cpu.ram[0], 257);
}

#[test]
fn gt_is_true_when_left_is_greater() {
    let cpu = run_plain("push constant 5\npush constant 3\ngt\n");
    assert_eq!(cpu.ram[0], 257);
    assert_eq!(cpu.ram[256], 0xFFFF);
    let cpu = run_plain("push constant 3\npush constant 5\ngt\n");
    assert_eq!(cpu.ram[0], 257);
    assert_eq!(cpu.ram[256], 0);
    let cpu = run_plain("push constant 5\npush constant 5\ngt\n");
    assert_eq!(cpu.ram[256], 0);
}

#[test]
fn lt_mirrors_gt() {
    let cpu = run_plain("push constant 5\npush constant 3\nlt\n");
    assert_eq!(cpu.ram[0], 257);
    assert_eq!(cpu.ram[256], 0);
    let cpu = run_plain("push constant 3\npush constant 5\nlt\n");
    assert_eq!(cpu.ram[0], 257);
    assert_eq!(cpu.ram[256], 0xFFFF);
    let cpu = run_plain("push constant 5\npush constant 5\nlt\n");
    assert_eq!(cpu.ram[256], 0);
}

#[test]
fn eq_is_true_for_equal_words_only() {
    for a in [0u16, 1, 5, 300] {
        for b in [0u16, 1, 5, 300] {
            let cpu = run_plain(&format!("push constant {}\npush constant {}\neq\n", a, b));
            assert_eq!(cpu.ram[0], 257);
            assert_eq!(cpu.ram[256], if a == b { 0xFFFF } else { 0 });
        }
    }
}

#[test]
fn several_comparisons_in_one_program() {
    let cpu = run_plain(
        "push constant 1\npush constant 2\nlt\npush constant 1\npush constant 2\nlt\npush constant 2\npush constant 1\nlt\neq\n",
    );
    // true, then (true == false) which is false
    assert_eq!(cpu.ram[0], 258);
    assert_eq!(cpu.ram[256], 0xFFFF);
    assert_eq!(cpu.ram[257], 0);
}

#[test]
fn push_then_pop_of_a_dynamic_segment_changes_nothing() {
    for (segment, register) in [("local", 1usize), ("argument", 2), ("this", 3), ("that", 4)] {
        for index in [0u16, 1, 7, 100] {
            let program = assemble(&translate(
                "Test",
                &format!("push {} {}\npop {} {}\n", segment, index, segment, index),
            ));
            let mut cpu = new_cpu();
            cpu.ram[0] = 256;
            cpu.ram[register] = 1000;
            cpu.ram[1000 + index as usize] = 4242;
            run(&program, &mut cpu, None);
            assert_eq!(cpu.ram[0], 256);
            assert_eq!(cpu.ram[register], 1000);
            assert_eq!(cpu.ram[1000 + index as usize], 4242);
        }
    }
}

#[test]
fn pop_stores_into_each_segment() {
    let program = assemble(&translate(
        "Test",
        "push constant 11\npop local 2\npush constant 12\npop argument 3\npush constant 13\npop this 4\npush constant 14\npop that 5\npush constant 15\npop temp 6\npush constant 16\npop static 7\npush constant 3030\npop pointer 0\npush constant 3040\npop pointer 1\n",
    ));
    let mut cpu = new_cpu();
    cpu.ram[0] = 256;
    cpu.ram[1] = 300;
    cpu.ram[2] = 400;
    cpu.ram[3] = 3000;
    cpu.ram[4] = 3010;
    run(&program, &mut cpu, None);
    assert_eq!(cpu.ram[0], 256);
    assert_eq!(cpu.ram[302], 11);
    assert_eq!(cpu.ram[403], 12);
    assert_eq!(cpu.ram[3004], 13);
    assert_eq!(cpu.ram[3015], 14);
    assert_eq!(cpu.ram[11], 15);
    assert_eq!(cpu.ram[program.symbols["Test.7"] as usize], 16);
    assert_eq!(cpu.ram[3], 3030);
    assert_eq!(cpu.ram[4], 3040);
}

#[test]
fn push_reads_from_each_segment() {
    let program = assemble(&translate(
        "Test",
        "push local 2\npush argument 3\npush this 4\npush that 5\npush temp 6\npush pointer 0\npush pointer 1\n",
    ));
    let mut cpu = new_cpu();
    cpu.ram[0] = 256;
    cpu.ram[1] = 300;
    cpu.ram[2] = 400;
    cpu.ram[3] = 3000;
    cpu.ram[4] = 3010;
    cpu.ram[302] = 21;
    cpu.ram[403] = 22;
    cpu.ram[3004] = 23;
    cpu.ram[3015] = 24;
    cpu.ram[11] = 25;
    run(&program, &mut cpu, None);
    assert_eq!(cpu.ram[0], 263);
    assert_eq!(&cpu.ram[256..263], &[21, 22, 23, 24, 25, 3000, 3010]);
}

#[test]
fn if_goto_jumps_unless_zero() {
    let text = "push constant 0\nif-goto SKIP\npush constant 1\nlabel SKIP\npush constant 5\nif-goto END\npush constant 2\nlabel END\n";
    let cpu = run_plain(text);
    assert_eq!(cpu.ram[0], 257);
    assert_eq!(cpu.ram[256], 1);
}

#[test]
fn goto_skips_code() {
    let cpu = run_plain("goto END\npush constant 1\nlabel END\npush constant 2\n");
    assert_eq!(cpu.ram[0], 257);
    assert_eq!(cpu.ram[256], 2);
}

#[test]
fn call_and_return_give_back_the_argument() {
    // The caller pushes 10 and calls Foo with it; Foo hands its argument back.
    let text = "push constant 10\ncall Foo 1\ngoto END\nfunction Foo 2\npush argument 0\nreturn\n";
    let mut blocks = translate("Main", text);
    blocks.push("(Main$END)".to_string());
    let program = assemble(&blocks);
    let mut cpu = new_cpu();
    cpu.ram[0] = 256;
    cpu.ram[1] = 1111;
    cpu.ram[2] = 2222;
    cpu.ram[3] = 3333;
    cpu.ram[4] = 4444;
    run(&program, &mut cpu, None);
    assert_eq!(cpu.ram[0], 257);
    assert_eq!(cpu.ram[256], 10);
    assert_eq!(&cpu.ram[1..5], &[1111, 2222, 3333, 4444]);
}

#[test]
fn function_entry_zeroes_its_locals() {
    let text = "push constant 10\ncall Foo 1\ngoto END\nfunction Foo 2\npush local 0\npush local 1\nadd\npush constant 77\nadd\nreturn\n";
    let mut blocks = translate("Main", text);
    blocks.push("(Main$END)".to_string());
    let program = assemble(&blocks);
    let mut cpu = new_cpu();
    cpu.ram[0] = 256;
    // what lies where the locals will be is not zero beforehand
    cpu.ram[262] = 9;
    cpu.ram[263] = 9;
    run(&program, &mut cpu, None);
    assert_eq!(cpu.ram[0], 257);
    assert_eq!(cpu.ram[256], 77);
}

#[test]
fn call_with_several_arguments_and_locals() {
    for nargs in [0usize, 1, 2, 5] {
        for nvars in [0usize, 1, 3] {
            let mut text = String::new();
            text.push_str("push constant 900\n");
            for k in 0..nargs {
                text.push_str(&format!("push constant {}\n", 100 + k));
            }
            text.push_str(&format!("call Foo {}\ngoto END\nfunction Foo {}\npush constant 55\nreturn\n", nargs, nvars));
            let mut blocks = translate("Main", &text);
            blocks.push("(Main$END)".to_string());
            let program = assemble(&blocks);
            let mut cpu = new_cpu();
            cpu.ram[0] = 256;
            cpu.ram[1] = 1111;
            cpu.ram[2] = 2222;
            cpu.ram[3] = 3333;
            cpu.ram[4] = 4444;
            run(&program, &mut cpu, None);
            // the word below the arguments stays, the result takes their place
            assert_eq!(cpu.ram[256], 900);
            assert_eq!(cpu.ram[257], 55);
            assert_eq!(cpu.ram[0], 258);
            assert_eq!(&cpu.ram[1..5], &[1111, 2222, 3333, 4444]);
        }
    }
}

#[test]
fn two_calls_from_one_function_resume_at_their_own_place() {
    let text = "function Sys.init 0\npush constant 1\ncall Twice 1\npush constant 2\ncall Twice 1\nadd\nlabel HALT\ngoto HALT\nfunction Twice 0\npush argument 0\npush argument 0\nadd\nreturn\n";
    let program = assemble(&translate("Sys", text));
    let mut cpu = new_cpu();
    let halt = program.symbols["Sys.init$HALT"] as usize;
    run(&program, &mut cpu, Some(halt));
    // the prologue's frame takes five words from 256 on
    assert_eq!(cpu.ram[0], 262);
    assert_eq!(cpu.ram[261], 6);
}

#[test]
fn bootstrap_sets_the_registers_and_enters_the_entry_function() {
    let text = "function Sys.init 0\nlabel HALT\ngoto HALT\n";
    let blocks = translate("Sys", text);
    let program = assemble(&blocks);
    let mut cpu = new_cpu();
    let halt = program.symbols["Sys.init$HALT"] as usize;
    run(&program, &mut cpu, Some(halt));
    assert_eq!(cpu.ram[0], 261);
    assert_eq!(cpu.ram[1], 261);
    assert_eq!(cpu.ram[2], 256);
    // the saved registers of the prologue
    assert_eq!(cpu.ram[256], program.symbols["Bootstrap$ret.0"]);
    assert_eq!(cpu.ram[257] as i16, -1);
    assert_eq!(cpu.ram[258] as i16, -2);
    assert_eq!(cpu.ram[259] as i16, -3);
    assert_eq!(cpu.ram[260] as i16, -4);
}

#[test]
fn statics_of_two_units_do_not_collide() {
    let sources = vec![
        ("A".to_string(), "push constant 1\npop static 0\n".to_string()),
        ("B".to_string(), "push constant 2\npop static 0\npush static 0\n".to_string()),
    ];
    let commands = extract_errors(parse_sources(&sources)).unwrap();
    let program = assemble(&generate_code(commands).unwrap());
    let mut cpu = new_cpu();
    cpu.ram[0] = 256;
    run(&program, &mut cpu, None);
    assert_ne!(program.symbols["A.0"], program.symbols["B.0"]);
    assert_eq!(cpu.ram[program.symbols["A.0"] as usize], 1);
    assert_eq!(cpu.ram[program.symbols["B.0"] as usize], 2);
    assert_eq!(cpu.ram[256], 2);
}

#[test]
fn labels_of_two_functions_do_not_collide() {
    let text = "function Sys.init 0\ncall A.f 0\ncall B.f 0\nadd\nlabel HALT\ngoto HALT\nfunction A.f 0\ngoto X\npush constant 100\nreturn\nlabel X\npush constant 1\nreturn\nfunction B.f 0\ngoto X\npush constant 100\nreturn\nlabel X\npush constant 2\nreturn\n";
    let program = assemble(&translate("Sys", text));
    let mut cpu = new_cpu();
    let halt = program.symbols["Sys.init$HALT"] as usize;
    run(&program, &mut cpu, Some(halt));
    assert_eq!(cpu.ram[0], 262);
    assert_eq!(cpu.ram[261], 3);
}
