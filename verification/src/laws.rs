//! What holds of the generator and of the code it emits.

use crate::codegen::{
    accumulator_on_top, after_assign, after_binary, after_epilogue, after_number,
    after_prologue, after_statement, after_variable, apply_lines, combine_lines, declarations,
    epilogue_lines, initial, needs_spill, prepared, prologue_lines, spill_lines, spillable,
    spilled, store_lines, well_formed, BinOp, ErrorKind, State,
};
use crate::compile::{after_event, after_input, event_of, unit_of, Event, Failure};
use crate::line::{Line, Source};
use crate::machine::{
    held, result_of, run, run_concat, run_one, run_three, run_two, source_value, step, Machine,
};
use crate::operand::{digit_char, Location, Operand};
use vstd::prelude::*;

verus! {

/// The whole unit of a program that is one literal.
pub open spec fn literal_unit(n: u32) -> Seq<Line> {
    seq![Line::Global, Line::TextSection, Line::Entry, Line::Load(Operand::Integer(n)), Line::Ret]
}

/// A program that is one literal loads it into the accumulator and
/// returns: no other instruction, no symbol, nothing left pending.
pub proof fn single_literal_loads_and_returns(n: u32)
    ensures
        after_epilogue(after_number(after_prologue(initial()), n)) == Ok::<State, ErrorKind>(
            State { stack: Seq::empty(), symbols: Seq::empty(), code: literal_unit(n) },
        ),
{
    let s = after_number(after_prologue(initial()), n);
    let t = after_epilogue(s)->Ok_0;
    assert(t.code =~= literal_unit(n));
}

/// A program that is one digit has the unit that loads the digit's value
/// and returns.
pub proof fn single_digit_unit(d: nat)
    requires
        d < 10,
    ensures
        unit_of(seq![digit_char(d)]) == Ok::<Seq<Line>, Failure>(literal_unit(d as u32)),
{
    let input = seq![digit_char(d)];
    let opened = after_prologue(initial());
    let pushed = after_number(opened, d as u32);
    assert(event_of(digit_char(d)) == Some(Event::Digit(d as u32)));
    assert(input.drop_first() =~= Seq::<char>::empty());
    assert(after_input(pushed, input.drop_first()) == Ok::<State, Failure>(pushed));
    assert(after_input(opened, input) == Ok::<State, Failure>(pushed));
    single_literal_loads_and_returns(d as u32);
}

/// An operator or an assignment with fewer than two pending values fails
/// as a stack underflow.
pub proof fn operator_needs_two_values(s: State, op: BinOp)
    requires
        s.stack.len() < 2,
    ensures
        after_binary(s, op) == Err::<State, ErrorKind>(ErrorKind::StackUnderflow),
        after_assign(s) == Err::<State, ErrorKind>(ErrorKind::StackUnderflow),
{
}

/// A program fails at its first character that is no token, or whose event
/// the generator refuses, with the stack as it was then; nothing of the
/// program is kept.
pub proof fn first_failure_ends_the_program(s: State, input: Seq<char>)
    requires
        input.len() > 0,
        event_of(input[0]) is None || after_event(s, event_of(input[0])->Some_0) is Err,
    ensures
        after_input(s, input) is Err,
        after_input(s, input)->Err_0.stack == s.stack,
        after_input(s, input)->Err_0.kind == match event_of(input[0]) {
            None => ErrorKind::MalformedInput(input[0]),
            Some(e) => after_event(s, e)->Err_0,
        },
{
}

/// Applying an operator leaves in the accumulator the operator's result on
/// the accumulator, as the left value, and the source, as the right one;
/// the native stack and the memory stay as they were.
pub proof fn apply_computes(m: Machine, op: BinOp, src: Source)
    ensures
        run(m, apply_lines(op, src)).acc == result_of(op, m.acc, source_value(m, src)),
        run(m, apply_lines(op, src)).native == m.native,
        run(m, apply_lines(op, src)).memory == m.memory,
{
    match op {
        BinOp::Add => run_one(m, Line::Add(src)),
        BinOp::Sub => run_one(m, Line::Sub(src)),
        BinOp::Mul => run_two(m, Line::LoadScratch(src), Line::Mul),
    }
}

/// The code that combines two values computes the operator's result on the
/// values that their locations stand for, left operand first; only where
/// the left value was spilled and is reloaded, the right operand comes
/// first. A reloaded word leaves the native stack.
pub proof fn combine_computes(m: Machine, op: BinOp, lhs: Location, rhs: Location)
    requires
        combine_lines(op, lhs, rhs) is Some,
        lhs == Location::OnCpuStack ==> m.native.len() > 0,
    ensures
        ({
            let end = run(m, combine_lines(op, lhs, rhs)->Some_0);
            &&& end.memory == m.memory
            &&& if lhs == Location::OnCpuStack {
                end.acc == result_of(op, held(m, rhs), held(m, lhs)) && end.native
                    == m.native.drop_last()
            } else {
                end.acc == result_of(op, held(m, lhs), held(m, rhs)) && end.native == m.native
            }
        }),
{
    match (lhs, rhs) {
        (Location::OnOperandStack(l), Location::OnOperandStack(r)) => {
            run_concat(m, seq![Line::Load(l)], apply_lines(op, Source::Direct(r)));
            run_one(m, Line::Load(l));
            apply_computes(step(m, Line::Load(l)), op, Source::Direct(r));
        },
        (Location::OnOperandStack(l), Location::InAccumulator) => {
            run_concat(m, seq![Line::Save, Line::Load(l)], apply_lines(op, Source::Scratch));
            run_two(m, Line::Save, Line::Load(l));
            apply_computes(step(step(m, Line::Save), Line::Load(l)), op, Source::Scratch);
        },
        (Location::InAccumulator, Location::OnOperandStack(r)) => {
            apply_computes(m, op, Source::Direct(r));
        },
        (Location::OnCpuStack, Location::InAccumulator) => {
            run_concat(m, seq![Line::Pop], apply_lines(op, Source::Scratch));
            run_one(m, Line::Pop);
            apply_computes(step(m, Line::Pop), op, Source::Scratch);
        },
        _ => {},
    }
}

/// Subtraction takes the right value from the left one wherever the left
/// value is an operand or in the accumulator.
pub proof fn subtraction_keeps_order(m: Machine, lhs: Location, rhs: Location)
    requires
        combine_lines(BinOp::Sub, lhs, rhs) is Some,
        lhs != Location::OnCpuStack,
    ensures
        run(m, combine_lines(BinOp::Sub, lhs, rhs)->Some_0).acc == result_of(
            BinOp::Sub,
            held(m, lhs),
            held(m, rhs),
        ),
{
    combine_computes(m, BinOp::Sub, lhs, rhs);
}

/// Where the left value was spilled, subtraction takes it from the right
/// value: the operands change places.
pub proof fn subtraction_after_reload_is_reversed(m: Machine)
    requires
        m.native.len() > 0,
    ensures
        run(
            m,
            combine_lines(BinOp::Sub, Location::OnCpuStack, Location::InAccumulator)->Some_0,
        ).acc == result_of(BinOp::Sub, m.acc, m.native.last()),
{
    combine_computes(m, BinOp::Sub, Location::OnCpuStack, Location::InAccumulator);
}

/// The unit of a program of two literals and one operator leaves the
/// operator's result on them in the accumulator, whatever the machine held
/// before, and the native stack as it found it.
pub proof fn literal_pair_computes(m: Machine, a: u32, b: u32, op: BinOp)
    ensures
        ({
            let s = after_number(after_number(after_prologue(initial()), a), b);
            &&& after_binary(s, op) is Ok
            &&& after_epilogue(after_binary(s, op)->Ok_0) is Ok
            &&& run(m, after_epilogue(after_binary(s, op)->Ok_0)->Ok_0.code).acc == result_of(
                op,
                a,
                b,
            )
            &&& run(m, after_epilogue(after_binary(s, op)->Ok_0)->Ok_0.code).native == m.native
        }),
{
    let s = after_number(after_number(after_prologue(initial()), a), b);
    let lhs = Location::OnOperandStack(Operand::Integer(a));
    let rhs = Location::OnOperandStack(Operand::Integer(b));
    let body = combine_lines(op, lhs, rhs)->Some_0;
    assert(s.stack.take(0) =~= Seq::<Location>::empty());
    let t = after_binary(s, op)->Ok_0;
    assert(t.stack =~= seq![Location::InAccumulator]);
    let u = after_epilogue(t)->Ok_0;
    assert(u.code =~= prologue_lines() + body + seq![Line::Ret]);
    run_concat(m, prologue_lines() + body, seq![Line::Ret]);
    run_concat(m, prologue_lines(), body);
    run_three(m, Line::Global, Line::TextSection, Line::Entry);
    combine_computes(m, op, lhs, rhs);
    run_one(run(m, prologue_lines() + body), Line::Ret);
}

/// The character that stands for an operator.
pub open spec fn operator_char(op: BinOp) -> char {
    match op {
        BinOp::Add => '+',
        BinOp::Sub => '-',
        BinOp::Mul => '*',
    }
}

/// The unit of a program of two digits and one operator leaves the
/// operator's result on the digits' values in the accumulator, and the
/// native stack as it found it.
pub proof fn digit_pair_unit_computes(m: Machine, a: nat, b: nat, op: BinOp)
    requires
        a < 10,
        b < 10,
    ensures
        unit_of(seq![digit_char(a), digit_char(b), operator_char(op)]) is Ok,
        run(m, unit_of(seq![digit_char(a), digit_char(b), operator_char(op)])->Ok_0).acc
            == result_of(op, a as u32, b as u32),
        run(m, unit_of(seq![digit_char(a), digit_char(b), operator_char(op)])->Ok_0).native
            == m.native,
{
    let input = seq![digit_char(a), digit_char(b), operator_char(op)];
    let opened = after_prologue(initial());
    let first = after_number(opened, a as u32);
    let second = after_number(first, b as u32);
    literal_pair_computes(m, a as u32, b as u32, op);
    let third = after_binary(second, op)->Ok_0;
    let event = match op {
        BinOp::Add => Event::Plus,
        BinOp::Sub => Event::Minus,
        BinOp::Mul => Event::Star,
    };
    assert(event_of(digit_char(a)) == Some(Event::Digit(a as u32)));
    assert(event_of(digit_char(b)) == Some(Event::Digit(b as u32)));
    assert(event_of(operator_char(op)) == Some(event));
    let rest = input.drop_first();
    let last = rest.drop_first();
    assert(rest =~= seq![digit_char(b), operator_char(op)]);
    assert(last =~= seq![operator_char(op)]);
    assert(last.drop_first() =~= Seq::<char>::empty());
    assert(after_input(third, last.drop_first()) == Ok::<State, Failure>(third));
    assert(after_input(second, last) == Ok::<State, Failure>(third));
    assert(after_input(first, rest) == Ok::<State, Failure>(third));
    assert(after_input(opened, input) == Ok::<State, Failure>(third));
}

/// How many entries of the stack were spilled onto the native stack.
pub open spec fn spills(stack: Seq<Location>) -> int
    decreases stack.len(),
{
    if stack.len() == 0 {
        0
    } else {
        spills(stack.drop_last()) + if stack.last() == Location::OnCpuStack {
            1int
        } else {
            0int
        }
    }
}

/// By how many words a line grows the native stack.
pub open spec fn growth(l: Line) -> int {
    match l {
        Line::Push => 1,
        Line::Pop => -1,
        _ => 0,
    }
}

/// The pushes of `code` less its pops.
pub open spec fn balance(code: Seq<Line>) -> int
    decreases code.len(),
{
    if code.len() == 0 {
        0
    } else {
        balance(code.drop_last()) + growth(code.last())
    }
}

/// No line of `code` declares storage.
pub open spec fn declares_nothing(code: Seq<Line>) -> bool {
    forall|i: int| 0 <= i < code.len() ==> !(#[trigger] code[i] is Declare)
}

/// What holds of the generator between any two events of a unit: it is
/// well formed, the words that the code has left on the native stack are
/// the spilled entries, and no storage is declared yet.
pub open spec fn consistent(s: State) -> bool {
    &&& well_formed(s)
    &&& balance(s.code) == spills(s.stack)
    &&& declares_nothing(s.code)
}

/// One more line changes the balance by its own growth.
pub proof fn balance_push(code: Seq<Line>, l: Line)
    ensures
        balance(code.push(l)) == balance(code) + growth(l),
{
    assert(code.push(l).drop_last() =~= code);
}

/// The balance of two pieces of code in a row is the sum of theirs.
pub proof fn balance_concat(first: Seq<Line>, second: Seq<Line>)
    ensures
        balance(first + second) == balance(first) + balance(second),
    decreases second.len(),
{
    if second.len() == 0 {
        assert(first + second =~= first);
    } else {
        balance_concat(first, second.drop_last());
        assert((first + second).drop_last() =~= first + second.drop_last());
    }
}

/// Code without a push or a pop leaves the native stack as it is.
pub proof fn balance_neutral(code: Seq<Line>)
    requires
        forall|i: int| 0 <= i < code.len() ==> growth(#[trigger] code[i]) == 0,
    ensures
        balance(code) == 0,
    decreases code.len(),
{
    if code.len() > 0 {
        balance_neutral(code.drop_last());
    }
}

/// One more entry is one more spill exactly if it is a spilled one.
pub proof fn spills_push(stack: Seq<Location>, l: Location)
    ensures
        spills(stack.push(l)) == spills(stack) + if l == Location::OnCpuStack {
            1int
        } else {
            0int
        },
{
    assert(stack.push(l).drop_last() =~= stack);
}

/// Freeing the accumulator spills one entry more exactly where it emits
/// the push.
pub proof fn spill_is_balanced(rest: Seq<Location>)
    ensures
        spills(spilled(rest)) == spills(rest) + balance(spill_lines(rest)),
        spillable(rest) ==> forall|i: int|
            0 <= i < spilled(rest).len() ==> spilled(rest)[i] != Location::InAccumulator,
{
    if needs_spill(rest) {
        spills_push(rest.drop_last(), Location::OnCpuStack);
        balance_push(Seq::empty(), Line::Push);
        assert(spill_lines(rest) =~= Seq::<Line>::empty().push(Line::Push));
    }
}

/// The code that combines two values pops the native stack once where the
/// left value was spilled, and leaves it alone elsewhere.
pub proof fn combine_is_balanced(op: BinOp, lhs: Location, rhs: Location)
    requires
        combine_lines(op, lhs, rhs) is Some,
    ensures
        balance(combine_lines(op, lhs, rhs)->Some_0) == if lhs == Location::OnCpuStack {
            -1int
        } else {
            0int
        },
        rhs != Location::OnCpuStack,
        declares_nothing(combine_lines(op, lhs, rhs)->Some_0),
{
    let lines = combine_lines(op, lhs, rhs)->Some_0;
    if lhs == Location::OnCpuStack {
        balance_concat(seq![Line::Pop], apply_lines(op, Source::Scratch));
        balance_push(Seq::empty(), Line::Pop);
        assert(seq![Line::Pop] =~= Seq::<Line>::empty().push(Line::Pop));
        balance_neutral(apply_lines(op, Source::Scratch));
    } else {
        balance_neutral(lines);
    }
}

/// After an operator or an assignment the value in the accumulator is the
/// newest entry, and no older entry is in the accumulator.
pub proof fn operator_leaves_accumulator_on_top(s: State, op: BinOp)
    ensures
        after_binary(s, op) is Ok ==> accumulator_on_top(after_binary(s, op)->Ok_0.stack),
        after_assign(s) is Ok ==> accumulator_on_top(after_assign(s)->Ok_0.stack),
{
    if s.stack.len() >= 2 {
        spill_is_balanced(s.stack.take(s.stack.len() - 2));
    }
}

/// Every event that succeeds keeps the generator consistent.
pub proof fn event_keeps_consistent(s: State, e: Event)
    requires
        consistent(s),
        after_event(s, e) is Ok,
    ensures
        consistent(after_event(s, e)->Ok_0),
{
    let t = after_event(s, e)->Ok_0;
    match e {
        Event::Digit(n) => {
            spills_push(s.stack, Location::OnOperandStack(Operand::Integer(n)));
        },
        Event::Letter(v) => {
            spills_push(s.stack, Location::OnOperandStack(Operand::Variable(v)));
        },
        Event::Semicolon => {
            if s.stack.len() == 1 {
                assert(s.stack.drop_last() =~= Seq::<Location>::empty());
                assert(s.stack =~= Seq::<Location>::empty().push(s.stack[0]));
                spills_push(Seq::empty(), s.stack[0]);
                match s.stack[0] {
                    Location::OnOperandStack(o) => balance_push(s.code, Line::Load(o)),
                    _ => {},
                }
            }
        },
        _ => {
            let n = s.stack.len();
            let rest = s.stack.take(n - 2);
            let lhs = s.stack[n - 2];
            let rhs = s.stack[n - 1];
            let p = prepared(s)->Ok_0.2;
            assert(s.stack =~= rest.push(lhs).push(rhs));
            spills_push(rest, lhs);
            spills_push(rest.push(lhs), rhs);
            spill_is_balanced(rest);
            balance_concat(s.code, spill_lines(rest));
            spills_push(spilled(rest), Location::InAccumulator);
            if e == Event::Equals {
                let lines = store_lines(lhs, rhs)->Ok_0;
                balance_neutral(lines);
                balance_concat(p.code, lines);
                assert(t.code == p.code + lines);
            } else {
                let op = match e {
                    Event::Plus => BinOp::Add,
                    Event::Minus => BinOp::Sub,
                    _ => BinOp::Mul,
                };
                let lines = combine_lines(op, lhs, rhs)->Some_0;
                combine_is_balanced(op, lhs, rhs);
                balance_concat(p.code, lines);
                assert(t.code == p.code + lines);
            }
        },
    }
}

/// No event forgets a symbol or changes the order of the symbols, and a
/// variable that is read is a symbol from then on.
pub proof fn symbols_only_grow(s: State, e: Event)
    requires
        after_event(s, e) is Ok,
    ensures
        s.symbols.is_prefix_of(after_event(s, e)->Ok_0.symbols),
        forall|v: char| e == Event::Letter(v) ==> after_variable(s, v).symbols.contains(v),
{
    assert forall|v: char| e == Event::Letter(v) implies after_variable(s, v).symbols.contains(
        v,
    ) by {
        if !s.symbols.contains(v) {
            assert(s.symbols.push(v)[s.symbols.len() as int] == v);
        }
    }
}

/// The generator is consistent when the unit has been opened.
pub proof fn opened_is_consistent()
    ensures
        consistent(after_prologue(initial())),
{
    balance_neutral(after_prologue(initial()).code);
}

/// Every program that is read without a failure keeps the generator
/// consistent.
pub proof fn input_keeps_consistent(s: State, input: Seq<char>)
    requires
        consistent(s),
        after_input(s, input) is Ok,
    ensures
        consistent(after_input(s, input)->Ok_0),
    decreases input.len(),
{
    if input.len() > 0 {
        let e = event_of(input[0])->Some_0;
        event_keeps_consistent(s, e);
        input_keeps_consistent(after_event(s, e)->Ok_0, input.drop_first());
    }
}

/// A unit pops the native stack as often as it pushes onto it, and no two
/// of its lines declare the same variable.
pub proof fn unit_is_balanced_and_declares_once(input: Seq<char>)
    requires
        unit_of(input) is Ok,
    ensures
        balance(unit_of(input)->Ok_0) == 0,
        forall|i: int, j: int|
            0 <= i < j < unit_of(input)->Ok_0.len() && unit_of(input)->Ok_0[i] is Declare
                ==> unit_of(input)->Ok_0[i] != unit_of(input)->Ok_0[j],
{
    opened_is_consistent();
    let s = after_input(after_prologue(initial()), input)->Ok_0;
    input_keeps_consistent(after_prologue(initial()), input);
    event_keeps_consistent(s, Event::Semicolon);
    let t = after_statement(s)->Ok_0;
    let code = unit_of(input)->Ok_0;
    let tail = epilogue_lines(t.symbols);
    assert(code == t.code + tail);
    assert(t.stack.len() == 0);
    balance_neutral(tail);
    balance_concat(t.code, tail);
    assert forall|i: int, j: int| 0 <= i < j < code.len() && code[i] is Declare implies code[i]
        != code[j] by {
        let base = t.code.len() + 2;
        assert(i >= base);
        assert(code[i] == declarations(t.symbols)[i - base]);
        assert(code[j] == declarations(t.symbols)[j - base]);
    }
}

} // verus!
