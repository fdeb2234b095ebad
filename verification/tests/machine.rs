use postfix_codegen::{assemble, Line, Operand, Source};
use std::collections::HashMap;

struct Cpu {
    acc: u32,
    scratch: u32,
    native: Vec<u32>,
    memory: HashMap<char, u32>,
    pushes: usize,
    pops: usize,
}

fn value(cpu: &Cpu, o: Operand) -> u32 {
    match o {
        Operand::Integer(n) => n,
        Operand::Variable(v) => *cpu.memory.get(&v).unwrap_or(&0),
    }
}

fn source(cpu: &Cpu, s: Source) -> u32 {
    match s {
        Source::Direct(o) => value(cpu, o),
        Source::Scratch => cpu.scratch,
    }
}

fn execute(code: &[Line]) -> Cpu {
    let mut cpu = Cpu {
        acc: 0xdead_beef,
        scratch: 0xfeed_f00d,
        native: Vec::new(),
        memory: HashMap::new(),
        pushes: 0,
        pops: 0,
    };
    for line in code {
        match *line {
            Line::Load(o) => cpu.acc = value(&cpu, o),
            Line::Save => cpu.scratch = cpu.acc,
            Line::LoadScratch(s) => cpu.scratch = source(&cpu, s),
            Line::Add(s) => cpu.acc = cpu.acc.wrapping_add(source(&cpu, s)),
            Line::Sub(s) => cpu.acc = cpu.acc.wrapping_sub(source(&cpu, s)),
            Line::Mul => cpu.acc = cpu.acc.wrapping_mul(cpu.scratch),
            Line::Store(v) => {
                cpu.memory.insert(v, cpu.acc);
            }
            Line::Push => {
                cpu.native.push(cpu.acc);
                cpu.pushes += 1;
            }
            Line::Pop => {
                cpu.scratch = cpu.native.pop().expect("pop from an empty native stack");
                cpu.pops += 1;
            }
            Line::Global
            | Line::TextSection
            | Line::Entry
            | Line::Ret
            | Line::DataSection
            | Line::Declare(_) => {}
        }
    }
    cpu
}

fn evaluate(program: &str) -> Cpu {
    execute(&assemble(program).unwrap())
}

#[test]
fn two_literals_give_the_arithmetic_result() {
    for a in 0..10u32 {
        for b in 0..10u32 {
            assert_eq!(evaluate(&format!("{}{}+", a, b)).acc, a + b);
            assert_eq!(evaluate(&format!("{}{}*", a, b)).acc, a * b);
            assert_eq!(evaluate(&format!("{}{}-", a, b)).acc, a.wrapping_sub(b));
        }
    }
    assert_eq!(evaluate("93-").acc, 6);
}

#[test]
fn subtraction_of_two_operands_keeps_order() {
    let code = assemble("73-").unwrap();
    assert_eq!(
        code[3..],
        [
            Line::Load(Operand::Integer(7)),
            Line::Sub(Source::Direct(Operand::Integer(3))),
            Line::Ret
        ]
    );
    assert_eq!(execute(&code).acc, 4);
}

#[test]
fn subtraction_of_accumulator_from_operand_keeps_order() {
    let code = assemble("912+-").unwrap();
    assert_eq!(
        code[3..],
        [
            Line::Load(Operand::Integer(1)),
            Line::Add(Source::Direct(Operand::Integer(2))),
            Line::Save,
            Line::Load(Operand::Integer(9)),
            Line::Sub(Source::Scratch),
            Line::Ret
        ]
    );
    assert_eq!(execute(&code).acc, 6);
}

#[test]
fn subtraction_of_operand_from_accumulator_keeps_order() {
    let code = assemble("98+5-").unwrap();
    assert_eq!(
        code[3..],
        [
            Line::Load(Operand::Integer(9)),
            Line::Add(Source::Direct(Operand::Integer(8))),
            Line::Sub(Source::Direct(Operand::Integer(5))),
            Line::Ret
        ]
    );
    assert_eq!(execute(&code).acc, 12);
}

#[test]
fn subtraction_after_reload_is_reversed() {
    let code = assemble("98+12+-").unwrap();
    assert_eq!(
        code[3..],
        [
            Line::Load(Operand::Integer(9)),
            Line::Add(Source::Direct(Operand::Integer(8))),
            Line::Push,
            Line::Load(Operand::Integer(1)),
            Line::Add(Source::Direct(Operand::Integer(2))),
            Line::Pop,
            Line::Sub(Source::Scratch),
            Line::Ret
        ]
    );
    let cpu = execute(&code);
    assert_eq!(cpu.acc, 3u32.wrapping_sub(17));
    assert_ne!(cpu.acc, 14);
}

#[test]
fn nested_sums_use_a_balanced_native_stack() {
    let cpu = evaluate("12+34++");
    assert_eq!(cpu.acc, 10);
    assert_eq!(cpu.pushes, 1);
    assert_eq!(cpu.pushes, cpu.pops);
    assert!(cpu.native.is_empty());
}

#[test]
fn deep_nesting_stays_balanced() {
    let cpu = evaluate("12+34+56+78+***");
    assert_eq!(cpu.acc, 3 * 7 * 11 * 15);
    assert_eq!(cpu.pushes, 3);
    assert_eq!(cpu.pops, 3);
    let cpu = evaluate("12+34+56+78+++2+*");
    assert_eq!(cpu.acc, 3 * (7 + (11 + 15) + 2));
    assert!(cpu.native.is_empty());
}

#[test]
fn product_of_two_sums() {
    let cpu = evaluate("12+34+*");
    assert_eq!(cpu.acc, 21);
    assert!(cpu.native.is_empty());
}

#[test]
fn multiplication_by_the_accumulator_goes_through_scratch() {
    let code = assemble("423+*").unwrap();
    assert_eq!(
        code[3..],
        [
            Line::Load(Operand::Integer(2)),
            Line::Add(Source::Direct(Operand::Integer(3))),
            Line::Save,
            Line::Load(Operand::Integer(4)),
            Line::LoadScratch(Source::Scratch),
            Line::Mul,
            Line::Ret
        ]
    );
    assert_eq!(execute(&code).acc, 20);
}

#[test]
fn assignment_round_trip() {
    let code = assemble("x5=;x3+;").unwrap();
    assert_eq!(
        code[3..],
        [
            Line::Load(Operand::Integer(5)),
            Line::Store('x'),
            Line::Load(Operand::Variable('x')),
            Line::Add(Source::Direct(Operand::Integer(3))),
            Line::Ret,
            Line::DataSection,
            Line::Declare('x')
        ]
    );
    let cpu = execute(&code);
    assert_eq!(cpu.memory[&'x'], 5);
    assert_eq!(cpu.acc, 8);
}

#[test]
fn assignment_of_a_computed_value_stores_the_accumulator() {
    let code = assemble("x23*=").unwrap();
    assert_eq!(
        code[3..],
        [
            Line::Load(Operand::Integer(2)),
            Line::LoadScratch(Source::Direct(Operand::Integer(3))),
            Line::Mul,
            Line::Store('x'),
            Line::Ret,
            Line::DataSection,
            Line::Declare('x')
        ]
    );
    let cpu = execute(&code);
    assert_eq!(cpu.memory[&'x'], 6);
    assert_eq!(cpu.acc, 6);
}

#[test]
fn chained_assignment_stores_into_both() {
    let cpu = evaluate("xy5==");
    assert_eq!(cpu.memory[&'x'], 5);
    assert_eq!(cpu.memory[&'y'], 5);
    assert_eq!(cpu.acc, 5);
}

#[test]
fn assignment_spills_an_older_partial_result() {
    let cpu = evaluate("12+x7=+");
    assert_eq!(cpu.memory[&'x'], 7);
    assert_eq!(cpu.acc, 10);
    assert_eq!(cpu.pushes, 1);
    assert_eq!(cpu.pops, 1);
}

#[test]
fn statement_value_is_the_last_one() {
    assert_eq!(evaluate("12+;9").acc, 9);
    assert_eq!(evaluate("a4=;b5=;ab*").acc, 20);
    assert_eq!(evaluate("q").acc, 0);
}
