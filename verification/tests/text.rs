use postfix_codegen::operand::push_decimal;
use postfix_codegen::{compile, render, Line, Operand, Source};

fn strings(lines: &[&str]) -> Vec<String> {
    lines.iter().map(|l| l.to_string()).collect()
}

#[test]
fn single_digit_loads_and_returns() {
    assert_eq!(
        compile("7").unwrap(),
        strings(&["global _evaluate", "section .text", "_evaluate:", "\tmov eax, 7", "\tret"])
    );
}

#[test]
fn every_digit_is_loaded_without_scratch_or_native_stack() {
    for d in 0..10u32 {
        let lines = compile(&d.to_string()).unwrap();
        assert_eq!(lines.len(), 5);
        assert_eq!(lines[3], format!("\tmov eax, {}", d));
        assert_eq!(lines[4], "\tret");
        for l in &lines {
            assert!(!l.contains("ebx") && !l.contains("rbx"));
            assert!(!l.contains("push") && !l.contains("pop"));
        }
    }
}

#[test]
fn empty_program_is_prologue_and_return() {
    assert_eq!(
        compile("").unwrap(),
        strings(&["global _evaluate", "section .text", "_evaluate:", "\tret"])
    );
}

#[test]
fn integer_text_is_decimal() {
    assert_eq!(Operand::Integer(0).text(), "0");
    assert_eq!(Operand::Integer(9).text(), "9");
    assert_eq!(Operand::Integer(10).text(), "10");
    assert_eq!(Operand::Integer(1234567890).text(), "1234567890");
    assert_eq!(Operand::Integer(u32::MAX).text(), "4294967295");
}

#[test]
fn variable_text_is_a_relative_reference() {
    assert_eq!(Operand::Variable('x').text(), "[rel x]");
    assert_eq!(Operand::Variable('Q').text(), "[rel Q]");
}

#[test]
fn operand_text_is_appended() {
    let mut s = String::from("mov eax, ");
    Operand::Integer(305).push_text(&mut s);
    assert_eq!(s, "mov eax, 305");
    let mut t = String::from("<");
    Source::Scratch.push_text(&mut t);
    Source::Direct(Operand::Variable('k')).push_text(&mut t);
    assert_eq!(t, "<ebx[rel k]");
}

#[test]
fn every_line_has_its_text() {
    let x = Operand::Variable('x');
    let five = Operand::Integer(5);
    let cases = vec![
        (Line::Global, "global _evaluate"),
        (Line::TextSection, "section .text"),
        (Line::Entry, "_evaluate:"),
        (Line::Load(five), "\tmov eax, 5"),
        (Line::Load(x), "\tmov eax, [rel x]"),
        (Line::Save, "\tmov ebx, eax"),
        (Line::LoadScratch(Source::Direct(five)), "\tmov ebx, 5"),
        (Line::LoadScratch(Source::Direct(x)), "\tmov ebx, [rel x]"),
        (Line::LoadScratch(Source::Scratch), "\tmov ebx, ebx"),
        (Line::Add(Source::Direct(five)), "\tadd eax, 5"),
        (Line::Add(Source::Scratch), "\tadd eax, ebx"),
        (Line::Sub(Source::Direct(x)), "\tsub eax, [rel x]"),
        (Line::Sub(Source::Scratch), "\tsub eax, ebx"),
        (Line::Mul, "\tmul ebx"),
        (Line::Store('x'), "\tmov dword [rel x], eax"),
        (Line::Push, "\tpush rax"),
        (Line::Pop, "\tpop rbx"),
        (Line::Ret, "\tret"),
        (Line::DataSection, "section .data"),
        (Line::Declare('x'), "x: dd 0"),
    ];
    for (line, text) in cases {
        assert_eq!(line.text(), text);
    }
}

#[test]
fn render_keeps_the_order_of_the_lines() {
    let code = vec![Line::Entry, Line::Load(Operand::Integer(42)), Line::Ret];
    assert_eq!(render(&code), strings(&["_evaluate:", "\tmov eax, 42", "\tret"]));
    assert_eq!(render(&Vec::new()), Vec::<String>::new());
}

#[test]
fn two_literals_text() {
    assert_eq!(
        compile("34+").unwrap(),
        strings(&[
            "global _evaluate",
            "section .text",
            "_evaluate:",
            "\tmov eax, 3",
            "\tadd eax, 4",
            "\tret"
        ])
    );
    assert_eq!(
        compile("34-").unwrap()[3..],
        strings(&["\tmov eax, 3", "\tsub eax, 4", "\tret"])[..]
    );
    assert_eq!(
        compile("34*").unwrap()[3..],
        strings(&["\tmov eax, 3", "\tmov ebx, 4", "\tmul ebx", "\tret"])[..]
    );
}

#[test]
fn product_of_two_sums_text() {
    assert_eq!(
        compile("12+34+*").unwrap(),
        strings(&[
            "global _evaluate",
            "section .text",
            "_evaluate:",
            "\tmov eax, 1",
            "\tadd eax, 2",
            "\tpush rax",
            "\tmov eax, 3",
            "\tadd eax, 4",
            "\tpop rbx",
            "\tmov ebx, ebx",
            "\tmul ebx",
            "\tret"
        ])
    );
}

#[test]
fn assignment_round_trip_text() {
    assert_eq!(
        compile("x5=;x3+;").unwrap(),
        strings(&[
            "global _evaluate",
            "section .text",
            "_evaluate:",
            "\tmov eax, 5",
            "\tmov dword [rel x], eax",
            "\tmov eax, [rel x]",
            "\tadd eax, 3",
            "\tret",
            "section .data",
            "x: dd 0"
        ])
    );
}

#[test]
fn variables_are_declared_once_in_order_of_first_use() {
    let lines = compile("ba+a+b+c+").unwrap();
    let at = lines.iter().position(|l| l == "section .data").unwrap();
    assert_eq!(lines[at - 1], "\tret");
    assert_eq!(lines[at + 1..], strings(&["b: dd 0", "a: dd 0", "c: dd 0"])[..]);
    assert_eq!(lines.iter().filter(|l| l.as_str() == "a: dd 0").count(), 1);
}

#[test]
fn no_data_section_without_variables() {
    let lines = compile("12+;34*").unwrap();
    assert!(lines.iter().all(|l| l != "section .data"));
    assert_eq!(lines.last().unwrap(), "\tret");
}

#[test]
fn decimal_digits_are_appended() {
    let mut s = String::from("n=");
    push_decimal(&mut s, 0);
    push_decimal(&mut s, 907);
    push_decimal(&mut s, 4_294_967_295);
    assert_eq!(s, "n=09074294967295");
}
