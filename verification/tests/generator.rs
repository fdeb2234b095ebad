use postfix_codegen::{
    assemble, classify, compile, BinOp, CodeGen, ErrorKind, Event, Line, Location, Operand, Source,
};

fn lit(n: u32) -> Location {
    Location::OnOperandStack(Operand::Integer(n))
}

fn name(v: char) -> Location {
    Location::OnOperandStack(Operand::Variable(v))
}

#[test]
fn new_generator_is_empty() {
    let cg = CodeGen::new();
    assert!(cg.stack().is_empty());
    assert!(cg.symbols().is_empty());
    assert!(cg.code().is_empty());
}

#[test]
fn prologue_emits_three_lines() {
    let mut cg = CodeGen::new();
    cg.prologue();
    assert_eq!(cg.code(), &vec![Line::Global, Line::TextSection, Line::Entry]);
    assert!(cg.stack().is_empty());
}

#[test]
fn number_pushes_without_emitting() {
    let mut cg = CodeGen::new();
    cg.number(7);
    cg.number(4_000_000_000);
    assert_eq!(cg.stack(), &vec![lit(7), lit(4_000_000_000)]);
    assert!(cg.code().is_empty());
    assert!(cg.symbols().is_empty());
}

#[test]
fn variable_pushes_and_records_the_symbol_once() {
    let mut cg = CodeGen::new();
    cg.variable('b');
    cg.variable('a');
    cg.variable('b');
    assert_eq!(cg.stack(), &vec![name('b'), name('a'), name('b')]);
    assert_eq!(cg.symbols(), &vec!['b', 'a']);
    assert!(cg.code().is_empty());
}

#[test]
fn prepare_binop_pops_two_and_spills_the_accumulator() {
    let mut cg = CodeGen::new();
    cg.number(1);
    cg.number(2);
    cg.add().unwrap();
    cg.number(3);
    cg.variable('x');
    let before = cg.code().len();
    let (lhs, rhs) = cg.prepare_binop().unwrap();
    assert_eq!(lhs, lit(3));
    assert_eq!(rhs, name('x'));
    assert_eq!(cg.stack(), &vec![Location::OnCpuStack]);
    assert_eq!(cg.code()[before..], [Line::Push]);
}

#[test]
fn prepare_binop_without_accumulator_emits_nothing() {
    let mut cg = CodeGen::new();
    cg.number(1);
    cg.number(2);
    cg.number(3);
    let (lhs, rhs) = cg.prepare_binop().unwrap();
    assert_eq!((lhs, rhs), (lit(2), lit(3)));
    assert_eq!(cg.stack(), &vec![lit(1)]);
    assert!(cg.code().is_empty());
}

#[test]
fn prepare_binop_underflows_on_a_short_stack() {
    let mut cg = CodeGen::new();
    cg.number(1);
    let e = cg.prepare_binop().unwrap_err();
    assert_eq!(e.kind, ErrorKind::StackUnderflow);
    assert_eq!(e.stack, vec![lit(1)]);
    assert_eq!(cg.stack(), &vec![lit(1)]);
}

#[test]
fn operators_push_the_accumulator() {
    let mut cg = CodeGen::new();
    cg.number(6);
    cg.number(2);
    cg.rvalue_binop(BinOp::Sub).unwrap();
    assert_eq!(cg.stack(), &vec![Location::InAccumulator]);
    assert_eq!(
        cg.code(),
        &vec![Line::Load(Operand::Integer(6)), Line::Sub(Source::Direct(Operand::Integer(2)))]
    );
    cg.variable('v');
    cg.mul().unwrap();
    assert_eq!(cg.stack(), &vec![Location::InAccumulator]);
    assert_eq!(
        cg.code()[2..],
        [Line::LoadScratch(Source::Direct(Operand::Variable('v'))), Line::Mul]
    );
    cg.number(1);
    cg.sub().unwrap();
    assert_eq!(cg.code()[4..], [Line::Sub(Source::Direct(Operand::Integer(1)))]);
    assert_eq!(cg.symbols(), &vec!['v']);
}

#[test]
fn operator_on_a_short_stack_underflows_and_changes_nothing() {
    let mut cg = CodeGen::new();
    cg.prologue();
    assert_eq!(cg.add().unwrap_err().kind, ErrorKind::StackUnderflow);
    cg.number(1);
    for r in [cg.add(), cg.sub(), cg.mul(), cg.assign()] {
        let e = r.unwrap_err();
        assert_eq!(e.kind, ErrorKind::StackUnderflow);
        assert_eq!(e.stack, vec![lit(1)]);
    }
    assert_eq!(cg.stack(), &vec![lit(1)]);
    assert_eq!(cg.code().len(), 3);
}

#[test]
fn buried_accumulator_is_an_unsupported_shape() {
    let mut cg = CodeGen::new();
    cg.number(1);
    cg.number(2);
    cg.add().unwrap();
    cg.number(3);
    cg.number(4);
    cg.number(5);
    let lines = cg.code().len();
    let e = cg.add().unwrap_err();
    assert_eq!(e.kind, ErrorKind::UnsupportedOperandShape);
    assert_eq!(e.stack, vec![Location::InAccumulator, lit(3), lit(4), lit(5)]);
    assert_eq!(cg.stack(), &e.stack);
    assert_eq!(cg.code().len(), lines);
    let e = cg.assign().unwrap_err();
    assert_eq!(e.kind, ErrorKind::UnsupportedOperandShape);
    assert_eq!(cg.code().len(), lines);
}

#[test]
fn assignment_to_a_literal_is_refused() {
    let mut cg = CodeGen::new();
    cg.number(1);
    cg.number(2);
    let e = cg.assign().unwrap_err();
    assert_eq!(e.kind, ErrorKind::InvalidAssignmentTarget);
    assert_eq!(e.stack, vec![lit(1), lit(2)]);
    assert_eq!(cg.stack(), &vec![lit(1), lit(2)]);
    assert!(cg.code().is_empty());
}

#[test]
fn assignment_to_a_computed_value_is_refused() {
    let e = compile("12+3=").unwrap_err();
    assert_eq!(e.kind, ErrorKind::InvalidAssignmentTarget);
    assert_eq!(e.stack, vec![Location::InAccumulator, lit(3)]);
    let e = compile("x12+34+=").unwrap_err();
    assert_eq!(e.kind, ErrorKind::InvalidAssignmentTarget);
}

#[test]
fn assignment_leaves_the_value_in_the_accumulator() {
    let mut cg = CodeGen::new();
    cg.variable('x');
    cg.number(5);
    cg.assign().unwrap();
    assert_eq!(cg.stack(), &vec![Location::InAccumulator]);
    assert_eq!(cg.code(), &vec![Line::Load(Operand::Integer(5)), Line::Store('x')]);
}

#[test]
fn end_of_statement_loads_a_pending_operand() {
    let mut cg = CodeGen::new();
    cg.end_of_expr().unwrap();
    assert!(cg.code().is_empty());
    cg.variable('z');
    cg.end_of_expr().unwrap();
    assert!(cg.stack().is_empty());
    assert_eq!(cg.code(), &vec![Line::Load(Operand::Variable('z'))]);
    cg.number(1);
    cg.number(2);
    cg.add().unwrap();
    let lines = cg.code().len();
    cg.end_of_expr().unwrap();
    assert!(cg.stack().is_empty());
    assert_eq!(cg.code().len(), lines);
}

#[test]
fn end_of_statement_with_two_values_is_unbalanced() {
    let mut cg = CodeGen::new();
    cg.number(1);
    cg.number(2);
    let e = cg.end_of_expr().unwrap_err();
    assert_eq!(e.kind, ErrorKind::UnbalancedStatement);
    assert_eq!(e.stack, vec![lit(1), lit(2)]);
    assert_eq!(cg.stack(), &vec![lit(1), lit(2)]);
    assert!(cg.code().is_empty());
    assert_eq!(compile("12").unwrap_err().kind, ErrorKind::UnbalancedStatement);
    assert_eq!(compile("12;").unwrap_err().kind, ErrorKind::UnbalancedStatement);
}

#[test]
fn statement_that_leaves_a_spilled_value_is_unbalanced() {
    let e = compile("x5=x3+;").unwrap_err();
    assert_eq!(e.kind, ErrorKind::UnbalancedStatement);
    assert_eq!(e.stack, vec![Location::OnCpuStack, Location::InAccumulator]);
}

#[test]
fn epilogue_declares_each_symbol() {
    let mut cg = CodeGen::new();
    cg.variable('m');
    cg.variable('k');
    cg.add().unwrap();
    cg.variable('m');
    cg.add().unwrap();
    let lines = cg.code().len();
    cg.epilogue().unwrap();
    assert_eq!(
        cg.code()[lines..],
        [Line::Ret, Line::DataSection, Line::Declare('m'), Line::Declare('k')]
    );
    assert!(cg.stack().is_empty());
    assert_eq!(cg.into_code().len(), lines + 4);
}

#[test]
fn epilogue_fails_as_the_last_statement_does() {
    let mut cg = CodeGen::new();
    cg.number(1);
    cg.number(2);
    let e = cg.epilogue().unwrap_err();
    assert_eq!(e.kind, ErrorKind::UnbalancedStatement);
    assert!(cg.code().is_empty());
}

#[test]
fn characters_are_classified() {
    assert_eq!(classify('0'), Some(Event::Digit(0)));
    assert_eq!(classify('9'), Some(Event::Digit(9)));
    assert_eq!(classify('a'), Some(Event::Letter('a')));
    assert_eq!(classify('z'), Some(Event::Letter('z')));
    assert_eq!(classify('A'), Some(Event::Letter('A')));
    assert_eq!(classify('Z'), Some(Event::Letter('Z')));
    assert_eq!(classify('+'), Some(Event::Plus));
    assert_eq!(classify('-'), Some(Event::Minus));
    assert_eq!(classify('*'), Some(Event::Star));
    assert_eq!(classify(';'), Some(Event::Semicolon));
    assert_eq!(classify('='), Some(Event::Equals));
    for c in [' ', '/', ':', '@', '[', '`', '{', '_', '\n', 'é', '٣'] {
        assert_eq!(classify(c), None);
    }
}

#[test]
fn events_reach_their_operations() {
    let mut cg = CodeGen::new();
    cg.event(Event::Letter('x')).unwrap();
    cg.event(Event::Digit(4)).unwrap();
    cg.event(Event::Digit(5)).unwrap();
    cg.event(Event::Star).unwrap();
    cg.event(Event::Equals).unwrap();
    cg.event(Event::Semicolon).unwrap();
    assert!(cg.stack().is_empty());
    assert_eq!(cg.symbols(), &vec!['x']);
    assert_eq!(
        cg.code(),
        &vec![
            Line::Load(Operand::Integer(4)),
            Line::LoadScratch(Source::Direct(Operand::Integer(5))),
            Line::Mul,
            Line::Store('x')
        ]
    );
    assert_eq!(cg.event(Event::Minus).unwrap_err().kind, ErrorKind::StackUnderflow);
}

#[test]
fn unexpected_character_is_malformed_input() {
    let e = compile("12+ 3").unwrap_err();
    assert_eq!(e.kind, ErrorKind::MalformedInput(' '));
    assert_eq!(e.stack, vec![Location::InAccumulator]);
    assert_eq!(assemble("(1)").unwrap_err().kind, ErrorKind::MalformedInput('('));
    assert_eq!(compile("1é+").unwrap_err().kind, ErrorKind::MalformedInput('é'));
}

#[test]
fn operator_without_operands_fails() {
    for p in ["+", "1+", "-", "*", "=", "x=", "12+;+", "1;2+"] {
        let e = compile(p).unwrap_err();
        assert_eq!(e.kind, ErrorKind::StackUnderflow, "{}", p);
    }
}

#[test]
fn three_pending_operands_over_an_accumulator_fail() {
    let e = compile("12+345++").unwrap_err();
    assert_eq!(e.kind, ErrorKind::UnsupportedOperandShape);
    assert_eq!(e.stack, vec![Location::InAccumulator, lit(3), lit(4), lit(5)]);
}

#[test]
fn empty_statements_emit_nothing() {
    assert_eq!(compile(";;").unwrap(), compile("").unwrap());
    assert_eq!(compile("1;;").unwrap(), compile("1").unwrap());
    assert_eq!(compile("1;").unwrap(), compile("1").unwrap());
}

#[test]
fn failure_carries_the_present_stack() {
    let mut cg = CodeGen::new();
    cg.variable('p');
    cg.number(8);
    let e = cg.fail(ErrorKind::MalformedInput('#'));
    assert_eq!(e.kind, ErrorKind::MalformedInput('#'));
    assert_eq!(e.stack, vec![name('p'), lit(8)]);
    assert_eq!(cg.stack(), &e.stack);
}
