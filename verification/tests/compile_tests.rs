use std::collections::HashMap;

use vm_translator::parser::ParseError;
use vm_translator::writer::{CodeWriter, GenError};
use vm_translator::{compile, SourceUnit, TranslateError};

/// A small simulator for the target machine, used to check that the
/// generated assembly really has the intended stack semantics.
struct Sim {
    mem: Vec<u16>,
    a: u16,
    d: u16,
}

fn predefined_symbols() -> HashMap<String, u16> {
    let mut t = HashMap::new();
    t.insert("SP".to_string(), 0);
    t.insert("LCL".to_string(), 1);
    t.insert("ARG".to_string(), 2);
    t.insert("THIS".to_string(), 3);
    t.insert("THAT".to_string(), 4);
    for r in 0..16u16 {
        t.insert(format!("R{}", r), r);
    }
    t
}

fn run_machine(code: &str, init: &[(usize, u16)]) -> Sim {
    let mut symbols = predefined_symbols();
    // first pass: collect instructions and label positions
    let mut instrs: Vec<&str> = Vec::new();
    for line in code.lines() {
        let line = line.trim();
        if line.is_empty() {
            continue;
        }
        if line.starts_with('(') {
            let name = line.trim_start_matches('(').trim_end_matches(')');
            symbols.insert(name.to_string(), instrs.len() as u16);
        } else {
            instrs.push(line);
        }
    }
    // second pass: allocate remaining symbols as variables from 16 up
    let mut next_var: u16 = 16;
    for line in &instrs {
        if let Some(sym) = line.strip_prefix('@') {
            if sym.parse::<u32>().is_err() && !symbols.contains_key(sym) {
                symbols.insert(sym.to_string(), next_var);
                next_var += 1;
            }
        }
    }
    let mut sim = Sim {
        mem: vec![0; 65536],
        a: 0,
        d: 0,
    };
    for (addr, v) in init {
        sim.mem[*addr] = *v;
    }
    let mut pc: usize = 0;
    let mut steps: usize = 0;
    while pc < instrs.len() {
        steps += 1;
        assert!(steps < 100_000, "simulation did not terminate");
        let line = instrs[pc];
        if let Some(sym) = line.strip_prefix('@') {
            sim.a = match sym.parse::<u32>() {
                Ok(n) => (n % 0x10000) as u16,
                Err(_) => symbols[sym],
            };
            pc += 1;
            continue;
        }
        let (dest, rest) = match line.split_once('=') {
            Some((d, r)) => (d, r),
            None => ("", line),
        };
        let (comp, jump) = match rest.split_once(';') {
            Some((c, j)) => (c, j),
            None => (rest, ""),
        };
        let m = sim.mem[sim.a as usize];
        let v: u16 = match comp {
            "0" => 0,
            "-1" => 0xFFFF,
            "D" => sim.d,
            "A" => sim.a,
            "M" => m,
            "!M" => !m,
            "-M" => m.wrapping_neg(),
            "M+1" => m.wrapping_add(1),
            "M-1" => m.wrapping_sub(1),
            "D+M" => sim.d.wrapping_add(m),
            "M-D" => m.wrapping_sub(sim.d),
            "D+A" => sim.d.wrapping_add(sim.a),
            "D&M" => sim.d & m,
            "D|M" => sim.d | m,
            other => panic!("unexpected computation {}", other),
        };
        let old_a = sim.a;
        match dest {
            "" => {}
            "M" => sim.mem[old_a as usize] = v,
            "D" => sim.d = v,
            "A" => sim.a = v,
            "AM" => {
                sim.mem[old_a as usize] = v;
                sim.a = v;
            }
            other => panic!("unexpected destination {}", other),
        }
        let sv = v as i16;
        let taken = match jump {
            "" => false,
            "JMP" => true,
            "JEQ" => sv == 0,
            "JNE" => sv != 0,
            "JLT" => sv < 0,
            "JGT" => sv > 0,
            "JGE" => sv >= 0,
            "JLE" => sv <= 0,
            other => panic!("unexpected jump {}", other),
        };
        if taken {
            pc = sim.a as usize;
        } else {
            pc += 1;
        }
    }
    sim
}

fn unit(name: &str, text: &str) -> SourceUnit {
    SourceUnit {
        name: name.to_string(),
        lines: text.lines().map(|l| l.to_string()).collect(),
    }
}

fn translate(text: &str) -> String {
    let mut writer = CodeWriter::new();
    compile(vec![unit("Test.vm", text)], &mut writer, true).unwrap();
    writer.output()
}

#[test]
fn main_work_test() {
    let mut writer = CodeWriter::new();
    compile(
        vec![unit(
            "SimpleAdd.vm",
            "// Pushes and adds two constants.\n\npush constant 7\npush constant 8\nadd\n",
        )],
        &mut writer,
        true,
    )
    .unwrap();
}

#[test]
fn simple_add_executes_to_fifteen() {
    let code = translate("push constant 7\npush constant 8\nadd\n");
    let sim = run_machine(&code, &[]);
    assert_eq!(15, sim.mem[256]);
    assert_eq!(257, sim.mem[0]);
}

#[test]
fn gt_leaves_all_ones() {
    let code = translate("push constant 5\npush constant 3\ngt\n");
    let sim = run_machine(&code, &[]);
    assert_eq!(0xFFFF, sim.mem[256]);
    assert_eq!(257, sim.mem[0]);
}

#[test]
fn eq_leaves_all_zero_on_unequal() {
    let code = translate("push constant 5\npush constant 3\neq\n");
    let sim = run_machine(&code, &[]);
    assert_eq!(0, sim.mem[256]);
    assert_eq!(257, sim.mem[0]);
}

#[test]
fn eq_leaves_all_ones_on_equal() {
    let code = translate("push constant 17\npush constant 17\neq\n");
    let sim = run_machine(&code, &[]);
    assert_eq!(0xFFFF, sim.mem[256]);
}

#[test]
fn lt_leaves_all_ones_when_below() {
    let code = translate("push constant 3\npush constant 5\nlt\n");
    let sim = run_machine(&code, &[]);
    assert_eq!(0xFFFF, sim.mem[256]);
}

#[test]
fn sub_takes_first_pushed_minus_second() {
    let code = translate("push constant 9\npush constant 3\nsub\n");
    let sim = run_machine(&code, &[]);
    assert_eq!(6, sim.mem[256]);
    let code = translate("push constant 3\npush constant 5\nsub\n");
    let sim = run_machine(&code, &[]);
    // -2, truncated to the 16-bit target width
    assert_eq!(0xFFFE, sim.mem[256]);
}

#[test]
fn logic_ops_execute() {
    let code = translate("push constant 12\npush constant 10\nand\n");
    let sim = run_machine(&code, &[]);
    assert_eq!(8, sim.mem[256]);
    let code = translate("push constant 12\npush constant 10\nor\n");
    let sim = run_machine(&code, &[]);
    assert_eq!(14, sim.mem[256]);
    let code = translate("push constant 0\nnot\n");
    let sim = run_machine(&code, &[]);
    assert_eq!(0xFFFF, sim.mem[256]);
    let code = translate("push constant 5\nneg\n");
    let sim = run_machine(&code, &[]);
    assert_eq!(0xFFFB, sim.mem[256]);
}

#[test]
fn pop_local_writes_through_base_register() {
    let code = translate("push constant 42\npop local 0\n");
    // the local base register points at address 300
    let sim = run_machine(&code, &[(1, 300)]);
    assert_eq!(42, sim.mem[300]);
    assert_eq!(300, sim.mem[1]);
    assert_eq!(256, sim.mem[0]);
}

#[test]
fn push_local_reads_through_base_register() {
    let code = translate("push local 2\n");
    let sim = run_machine(&code, &[(1, 300), (302, 77)]);
    assert_eq!(77, sim.mem[256]);
    assert_eq!(257, sim.mem[0]);
}

#[test]
fn temp_and_pointer_use_fixed_addresses() {
    let code = translate("push constant 11\npop temp 2\n");
    let sim = run_machine(&code, &[]);
    assert_eq!(11, sim.mem[7]);
    let code = translate("push constant 9\npop pointer 1\n");
    let sim = run_machine(&code, &[]);
    assert_eq!(9, sim.mem[4]);
    let code = translate("push pointer 0\n");
    let sim = run_machine(&code, &[(3, 123)]);
    assert_eq!(123, sim.mem[256]);
}

#[test]
fn static_cells_are_distinct_across_units() {
    let mut writer = CodeWriter::new();
    compile(
        vec![
            unit("Foo.vm", "push constant 21\npop static 3\n"),
            unit("Bar.vm", "push constant 43\npop static 3\npush static 3\n"),
        ],
        &mut writer,
        true,
    )
    .unwrap();
    let code = writer.output();
    let sim = run_machine(&code, &[]);
    // the two units' cells were allocated separately and kept apart
    assert_eq!(21, sim.mem[16]);
    assert_eq!(43, sim.mem[17]);
    assert_eq!(43, sim.mem[256]);
}

#[test]
fn branching_loop_sums_countdown() {
    let program = "\
push constant 0
pop local 0
push constant 3
pop local 1
label LOOP
push local 0
push local 1
add
pop local 0
push local 1
push constant 1
sub
pop local 1
push local 1
if-goto LOOP
push local 0
";
    let code = translate(program);
    let sim = run_machine(&code, &[(1, 500)]);
    assert_eq!(6, sim.mem[256]);
}

#[test]
fn function_commands_are_unsupported() {
    let mut writer = CodeWriter::new();
    let r = compile(vec![unit("F.vm", "function Foo.bar 2\n")], &mut writer, false);
    assert_eq!(Err(TranslateError::Gen(GenError::Unsupported)), r);
    let mut writer = CodeWriter::new();
    let r = compile(vec![unit("F.vm", "return\n")], &mut writer, false);
    assert_eq!(Err(TranslateError::Gen(GenError::Unsupported)), r);
}

#[test]
fn parse_failures_abort_the_run() {
    let mut writer = CodeWriter::new();
    let r = compile(vec![unit("F.vm", "push constant x\n")], &mut writer, false);
    assert_eq!(Err(TranslateError::Parse(ParseError::InvalidIndex)), r);
    let mut writer = CodeWriter::new();
    let r = compile(vec![unit("F.vm", "blargh\n")], &mut writer, false);
    assert_eq!(
        Err(TranslateError::Parse(ParseError::UnrecognizedMnemonic)),
        r
    );
}

#[test]
fn pop_constant_fails_the_run() {
    let mut writer = CodeWriter::new();
    let r = compile(vec![unit("F.vm", "pop constant 1\n")], &mut writer, false);
    assert_eq!(Err(TranslateError::Gen(GenError::InvalidOperation)), r);
}

#[test]
fn counter_is_never_reused_across_units() {
    let mut writer = CodeWriter::new();
    compile(
        vec![unit("A.vm", "eq\n"), unit("B.vm", "lt\n")],
        &mut writer,
        false,
    )
    .unwrap();
    let text = writer.output();
    assert!(text.contains("(RETURNTRUE_eq_1)"));
    assert!(text.contains("(RETURNTRUE_lt_2)"));
}
