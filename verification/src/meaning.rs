//! What a program means, and that the emitted code computes it.

use crate::codegen::{
    accumulator_free, after_assign, after_binary, after_prologue, after_statement,
    combine_lines, epilogue_lines, initial, needs_spill, prepared, spill_lines, spillable,
    spilled, store_lines, well_formed, BinOp, State,
};
use crate::compile::{after_event, after_input, event_of, unit_of, Event};
use crate::laws::{combine_computes, spills, spills_push};
use crate::line::Line;
use crate::machine::{
    operand_value, result_of, run, run_concat, run_inert, run_one, run_push, run_two, Machine,
};
use crate::operand::{Location, Operand};
use vstd::prelude::*;

verus! {

/// One pending value of a postfix evaluation: an operand, which is read
/// when an operator uses it, or a value computed before.
pub ghost enum Pending {
    Unread(Operand),
    Value(u32),
}

/// A postfix evaluation under way.
pub ghost struct Evaluation {
    /// The pending values, oldest first.
    pub stack: Seq<Pending>,
    /// The variables' cells.
    pub memory: Map<char, u32>,
    /// The value of the last statement that had one.
    pub result: u32,
}

/// The value of a pending value at the moment it is used.
pub open spec fn read(memory: Map<char, u32>, p: Pending) -> u32 {
    match p {
        Pending::Unread(o) => operand_value(memory, o),
        Pending::Value(x) => x,
    }
}

/// What an operator makes of two pending values. Between two values that
/// were both computed before, the right one comes first.
pub open spec fn combined(memory: Map<char, u32>, op: BinOp, l: Pending, r: Pending) -> u32 {
    if l is Value && r is Value {
        result_of(op, read(memory, r), read(memory, l))
    } else {
        result_of(op, read(memory, l), read(memory, r))
    }
}

/// Addition and multiplication give the same result in either order, so
/// only subtraction tells which operand came first.
pub proof fn only_subtraction_tells_the_order(
    memory: Map<char, u32>,
    op: BinOp,
    l: Pending,
    r: Pending,
)
    requires
        op != BinOp::Sub,
    ensures
        combined(memory, op, l, r) == result_of(op, read(memory, l), read(memory, r)),
{
    let x = read(memory, l) as int;
    let y = read(memory, r) as int;
    assert(x * y == y * x) by (nonlinear_arith);
}

/// The evaluation after an operator: the two newest pending values give
/// way to the computed one.
pub open spec fn operated(a: Evaluation, op: BinOp) -> Evaluation {
    let n = a.stack.len() as int;
    let x = combined(a.memory, op, a.stack[n - 2], a.stack[n - 1]);
    Evaluation { stack: a.stack.take(n - 2).push(Pending::Value(x)), ..a }
}

/// The evaluation after an assignment: the value is stored into the
/// variable's cell and stays pending as a computed value.
pub open spec fn assigned(a: Evaluation) -> Evaluation {
    let n = a.stack.len() as int;
    let x = read(a.memory, a.stack[n - 1]);
    match a.stack[n - 2] {
        Pending::Unread(Operand::Variable(v)) => Evaluation {
            stack: a.stack.take(n - 2).push(Pending::Value(x)),
            memory: a.memory.insert(v, x),
            ..a
        },
        _ => a,
    }
}

/// The evaluation after the end of a statement: the one pending value, if
/// there is one, becomes the result.
pub open spec fn ended(a: Evaluation) -> Evaluation {
    if a.stack.len() == 1 {
        Evaluation { stack: Seq::empty(), result: read(a.memory, a.stack[0]), ..a }
    } else {
        a
    }
}

/// The evaluation after an event that the generator accepts.
pub open spec fn meaning_after(a: Evaluation, e: Event) -> Evaluation {
    match e {
        Event::Digit(k) => Evaluation {
            stack: a.stack.push(Pending::Unread(Operand::Integer(k))),
            ..a
        },
        Event::Letter(v) => Evaluation {
            stack: a.stack.push(Pending::Unread(Operand::Variable(v))),
            ..a
        },
        Event::Plus => operated(a, BinOp::Add),
        Event::Minus => operated(a, BinOp::Sub),
        Event::Star => operated(a, BinOp::Mul),
        Event::Equals => assigned(a),
        Event::Semicolon => ended(a),
    }
}

/// The evaluation after every character of a program that the generator
/// accepts.
pub open spec fn meaning_after_input(a: Evaluation, input: Seq<char>) -> Evaluation
    decreases input.len(),
{
    if input.len() == 0 {
        a
    } else {
        meaning_after_input(meaning_after(a, event_of(input[0])->Some_0), input.drop_first())
    }
}

/// What a program leaves behind on a machine: the memory after its
/// assignments, and as its result the value of its last statement.
pub open spec fn meaning(input: Seq<char>, start: Machine) -> Evaluation {
    ended(
        meaning_after_input(
            Evaluation { stack: Seq::empty(), memory: start.memory, result: start.acc },
            input,
        ),
    )
}

/// The pending values that a stack of locations stands for on a machine
/// with `acc` in the accumulator and `words` on the native stack.
pub open spec fn decoded(stack: Seq<Location>, acc: u32, words: Seq<u32>) -> Seq<Pending>
    decreases stack.len(),
{
    if stack.len() == 0 {
        Seq::empty()
    } else {
        match stack.last() {
            Location::OnOperandStack(o) => decoded(stack.drop_last(), acc, words).push(
                Pending::Unread(o),
            ),
            Location::InAccumulator => decoded(stack.drop_last(), acc, words).push(
                Pending::Value(acc),
            ),
            Location::OnCpuStack => decoded(stack.drop_last(), acc, words.drop_last()).push(
                Pending::Value(words.last()),
            ),
        }
    }
}

/// The machine holds exactly what the evaluation has reached: the
/// generator's stack stands for the pending values, the spilled entries are
/// the words above those that the native stack held at the start, and the
/// memory is the same.
pub open spec fn reflects(s: State, a: Evaluation, m: Machine, base: Seq<u32>) -> bool {
    &&& well_formed(s)
    &&& a.stack == decoded(s.stack, m.acc, m.native)
    &&& a.memory == m.memory
    &&& m.native.len() == base.len() + spills(s.stack)
    &&& m.native.take(base.len() as int) == base
    &&& s.stack.len() == 0 ==> a.result == m.acc
}

/// A stack has no negative number of spilled entries.
pub proof fn spills_nonnegative(stack: Seq<Location>)
    ensures
        spills(stack) >= 0,
    decreases stack.len(),
{
    if stack.len() > 0 {
        spills_nonnegative(stack.drop_last());
    }
}

/// The newest entry stands for the newest pending value.
pub proof fn decoded_push(stack: Seq<Location>, l: Location, acc: u32, words: Seq<u32>)
    ensures
        decoded(stack.push(l), acc, words) == match l {
            Location::OnOperandStack(o) => decoded(stack, acc, words).push(Pending::Unread(o)),
            Location::InAccumulator => decoded(stack, acc, words).push(Pending::Value(acc)),
            Location::OnCpuStack => decoded(stack, acc, words.drop_last()).push(
                Pending::Value(words.last()),
            ),
        },
{
    assert(stack.push(l).drop_last() =~= stack);
}

/// Every entry stands for one pending value.
pub proof fn decoded_len(stack: Seq<Location>, acc: u32, words: Seq<u32>)
    ensures
        decoded(stack, acc, words).len() == stack.len(),
    decreases stack.len(),
{
    if stack.len() > 0 {
        decoded_len(stack.drop_last(), acc, words);
        decoded_len(stack.drop_last(), acc, words.drop_last());
    }
}

/// Where no entry is in the accumulator, the accumulator's value does not
/// matter.
pub proof fn decoded_ignores_accumulator(
    stack: Seq<Location>,
    acc: u32,
    other: u32,
    words: Seq<u32>,
)
    requires
        accumulator_free(stack),
    ensures
        decoded(stack, acc, words) == decoded(stack, other, words),
    decreases stack.len(),
{
    if stack.len() > 0 {
        assert(stack.last() != Location::InAccumulator);
        assert(accumulator_free(stack.drop_last()));
        decoded_ignores_accumulator(stack.drop_last(), acc, other, words);
        decoded_ignores_accumulator(stack.drop_last(), acc, other, words.drop_last());
    }
}

/// The words on the native stack once the accumulator is freed.
pub open spec fn spilled_words(rest: Seq<Location>, acc: u32, words: Seq<u32>) -> Seq<u32> {
    if needs_spill(rest) {
        words.push(acc)
    } else {
        words
    }
}

/// Freeing the accumulator changes no pending value.
pub proof fn freed_is_reflected(rest: Seq<Location>, acc: u32, other: u32, words: Seq<u32>)
    requires
        spillable(rest),
    ensures
        decoded(spilled(rest), other, spilled_words(rest, acc, words)) == decoded(
            rest,
            acc,
            words,
        ),
        accumulator_free(spilled(rest)),
        spills(spilled(rest)) == spills(rest) + if needs_spill(rest) {
            1int
        } else {
            0int
        },
{
    if needs_spill(rest) {
        let older = rest.drop_last();
        assert(rest =~= older.push(Location::InAccumulator));
        decoded_push(older, Location::InAccumulator, acc, words);
        decoded_push(older, Location::OnCpuStack, other, words.push(acc));
        assert(words.push(acc).drop_last() =~= words);
        assert(accumulator_free(older));
        decoded_ignores_accumulator(older, acc, other, words);
        spills_push(older, Location::OnCpuStack);
        spills_push(older, Location::InAccumulator);
    } else {
        assert(accumulator_free(rest));
        decoded_ignores_accumulator(rest, acc, other, words);
    }
}

/// The pending value that a location stands for on a machine.
pub open spec fn pending(m: Machine, l: Location) -> Pending {
    match l {
        Location::OnOperandStack(o) => Pending::Unread(o),
        Location::InAccumulator => Pending::Value(m.acc),
        Location::OnCpuStack => Pending::Value(m.native.last()),
    }
}

/// The words below a left operand that is reloaded.
pub open spec fn below(lhs: Location, words: Seq<u32>) -> Seq<u32> {
    if lhs == Location::OnCpuStack {
        words.drop_last()
    } else {
        words
    }
}

/// Before two values are combined, the two newest entries stand for the
/// two newest pending values, and freeing the accumulator leaves the older
/// ones as they are.
pub proof fn operands_are_reflected(s: State, a: Evaluation, m: Machine, base: Seq<u32>, other: u32)
    requires
        reflects(s, a, m, base),
        prepared(s) is Ok,
        prepared(s)->Ok_0.1 != Location::OnCpuStack,
        prepared(s)->Ok_0.0 == Location::OnCpuStack ==> prepared(s)->Ok_0.1
            == Location::InAccumulator,
    ensures
        ({
            let n = s.stack.len() as int;
            let rest = s.stack.take(n - 2);
            let lhs = s.stack[n - 2];
            let rhs = s.stack[n - 1];
            let after = run(m, spill_lines(rest));
            &&& a.stack.len() == n
            &&& a.stack[n - 2] == pending(m, lhs)
            &&& a.stack[n - 1] == pending(m, rhs)
            &&& after == Machine { native: spilled_words(rest, m.acc, m.native), ..m }
            &&& decoded(spilled(rest), other, below(lhs, after.native)) == a.stack.take(n - 2)
            &&& after.native.len() == base.len() + spills(spilled(rest)) + if lhs
                == Location::OnCpuStack {
                1int
            } else {
                0int
            }
            &&& lhs == Location::OnCpuStack ==> after.native.len() > 0
            &&& below(lhs, after.native).take(base.len() as int) == base
            &&& accumulator_free(spilled(rest))
        }),
{
    let n = s.stack.len() as int;
    let rest = s.stack.take(n - 2);
    let lhs = s.stack[n - 2];
    let rhs = s.stack[n - 1];
    let after = run(m, spill_lines(rest));
    assert(s.stack =~= rest.push(lhs).push(rhs));
    decoded_push(rest.push(lhs), rhs, m.acc, m.native);
    decoded_push(rest, lhs, m.acc, m.native);
    decoded_len(rest, m.acc, m.native);
    decoded_len(rest, m.acc, m.native.drop_last());
    spills_push(rest.push(lhs), rhs);
    spills_push(rest, lhs);
    spills_nonnegative(rest);
    let older = decoded(rest, m.acc, below(lhs, m.native));
    assert(a.stack == older.push(pending(m, lhs)).push(pending(m, rhs)));
    assert(a.stack.take(n - 2) =~= older);
    if needs_spill(rest) {
        assert(s.stack[n - 3] == Location::InAccumulator);
        assert(lhs != Location::InAccumulator);
        assert(rhs != Location::InAccumulator);
        run_one(m, Line::Push);
    } else {
        assert(spill_lines(rest) =~= Seq::<Line>::empty());
    }
    freed_is_reflected(rest, m.acc, other, below(lhs, m.native));
    assert(below(lhs, after.native) == spilled_words(rest, m.acc, below(lhs, m.native)));
    assert(below(lhs, after.native).take(base.len() as int) =~= m.native.take(base.len() as int));
}

/// The code of an operator computes what the operator means.
pub proof fn operator_is_reflected(s: State, a: Evaluation, start: Machine, op: BinOp)
    requires
        after_binary(s, op) is Ok,
        reflects(s, a, run(start, s.code), start.native),
    ensures
        reflects(
            after_binary(s, op)->Ok_0,
            operated(a, op),
            run(start, after_binary(s, op)->Ok_0.code),
            start.native,
        ),
{
    let m = run(start, s.code);
    let n = s.stack.len() as int;
    let rest = s.stack.take(n - 2);
    let lhs = s.stack[n - 2];
    let rhs = s.stack[n - 1];
    let lines = combine_lines(op, lhs, rhs)->Some_0;
    let t = after_binary(s, op)->Ok_0;
    let freed = run(m, spill_lines(rest));
    let end = run(freed, lines);
    run_concat(start, s.code, spill_lines(rest));
    run_concat(start, s.code + spill_lines(rest), lines);
    assert(run(start, t.code) == end);
    operands_are_reflected(s, a, m, start.native, end.acc);
    combine_computes(freed, op, lhs, rhs);
    assert(end.native == below(lhs, freed.native));
    decoded_push(spilled(rest), Location::InAccumulator, end.acc, end.native);
    spills_push(spilled(rest), Location::InAccumulator);
    assert(end.acc == combined(a.memory, op, a.stack[n - 2], a.stack[n - 1]));
}

/// The code of an assignment stores what the assignment means.
pub proof fn assignment_is_reflected(s: State, a: Evaluation, start: Machine)
    requires
        after_assign(s) is Ok,
        reflects(s, a, run(start, s.code), start.native),
    ensures
        reflects(
            after_assign(s)->Ok_0,
            assigned(a),
            run(start, after_assign(s)->Ok_0.code),
            start.native,
        ),
{
    let m = run(start, s.code);
    let n = s.stack.len() as int;
    let rest = s.stack.take(n - 2);
    let lhs = s.stack[n - 2];
    let rhs = s.stack[n - 1];
    let lines = store_lines(lhs, rhs)->Ok_0;
    let t = after_assign(s)->Ok_0;
    let freed = run(m, spill_lines(rest));
    let end = run(freed, lines);
    run_concat(start, s.code, spill_lines(rest));
    run_concat(start, s.code + spill_lines(rest), lines);
    assert(run(start, t.code) == end);
    let v = lhs->OnOperandStack_0->Variable_0;
    match rhs {
        Location::OnOperandStack(r) => run_two(freed, Line::Load(r), Line::Store(v)),
        _ => run_one(freed, Line::Store(v)),
    }
    operands_are_reflected(s, a, m, start.native, end.acc);
    decoded_push(spilled(rest), Location::InAccumulator, end.acc, end.native);
    spills_push(spilled(rest), Location::InAccumulator);
}

/// The end of a statement leaves the statement's value in the accumulator.
pub proof fn statement_is_reflected(s: State, a: Evaluation, start: Machine)
    requires
        after_statement(s) is Ok,
        reflects(s, a, run(start, s.code), start.native),
    ensures
        reflects(
            after_statement(s)->Ok_0,
            ended(a),
            run(start, after_statement(s)->Ok_0.code),
            start.native,
        ),
        after_statement(s)->Ok_0.stack.len() == 0,
{
    let m = run(start, s.code);
    decoded_len(s.stack, m.acc, m.native);
    if s.stack.len() == 1 {
        let only = s.stack[0];
        assert(s.stack =~= Seq::<Location>::empty().push(only));
        decoded_push(Seq::empty(), only, m.acc, m.native);
        spills_push(Seq::empty(), only);
        match only {
            Location::OnOperandStack(o) => {
                run_push(start, s.code, Line::Load(o));
            },
            _ => {},
        }
    }
}

/// Every event that the generator accepts emits code that does on the
/// machine what the event means.
pub proof fn event_is_reflected(s: State, a: Evaluation, start: Machine, e: Event)
    requires
        after_event(s, e) is Ok,
        reflects(s, a, run(start, s.code), start.native),
    ensures
        reflects(
            after_event(s, e)->Ok_0,
            meaning_after(a, e),
            run(start, after_event(s, e)->Ok_0.code),
            start.native,
        ),
{
    let m = run(start, s.code);
    match e {
        Event::Digit(k) => {
            let l = Location::OnOperandStack(Operand::Integer(k));
            decoded_push(s.stack, l, m.acc, m.native);
            spills_push(s.stack, l);
        },
        Event::Letter(v) => {
            let l = Location::OnOperandStack(Operand::Variable(v));
            decoded_push(s.stack, l, m.acc, m.native);
            spills_push(s.stack, l);
        },
        Event::Plus => operator_is_reflected(s, a, start, BinOp::Add),
        Event::Minus => operator_is_reflected(s, a, start, BinOp::Sub),
        Event::Star => operator_is_reflected(s, a, start, BinOp::Mul),
        Event::Equals => assignment_is_reflected(s, a, start),
        Event::Semicolon => statement_is_reflected(s, a, start),
    }
}

/// Every program that the generator accepts emits code that does on the
/// machine what the program means.
pub proof fn input_is_reflected(s: State, a: Evaluation, start: Machine, input: Seq<char>)
    requires
        after_input(s, input) is Ok,
        reflects(s, a, run(start, s.code), start.native),
    ensures
        reflects(
            after_input(s, input)->Ok_0,
            meaning_after_input(a, input),
            run(start, after_input(s, input)->Ok_0.code),
            start.native,
        ),
    decreases input.len(),
{
    if input.len() > 0 {
        let e = event_of(input[0])->Some_0;
        event_is_reflected(s, a, start, e);
        input_is_reflected(
            after_event(s, e)->Ok_0,
            meaning_after(a, e),
            start,
            input.drop_first(),
        );
    }
}

/// The unit of a program, run on any machine, ends with the value of the
/// program's last statement in the accumulator, the memory that its
/// assignments leave, and the native stack as it found it.
pub proof fn unit_computes_meaning(input: Seq<char>, start: Machine)
    requires
        unit_of(input) is Ok,
    ensures
        run(start, unit_of(input)->Ok_0).acc == meaning(input, start).result,
        run(start, unit_of(input)->Ok_0).memory == meaning(input, start).memory,
        run(start, unit_of(input)->Ok_0).native == start.native,
{
    let opened = after_prologue(initial());
    let a = Evaluation { stack: Seq::empty(), memory: start.memory, result: start.acc };
    run_inert(start, opened.code);
    assert(start.native.take(start.native.len() as int) =~= start.native);
    assert(reflects(opened, a, run(start, opened.code), start.native));
    input_is_reflected(opened, a, start, input);
    let s = after_input(opened, input)->Ok_0;
    let b = meaning_after_input(a, input);
    statement_is_reflected(s, b, start);
    let t = after_statement(s)->Ok_0;
    let tail = epilogue_lines(t.symbols);
    assert(unit_of(input)->Ok_0 == t.code + tail);
    run_concat(start, t.code, tail);
    run_inert(run(start, t.code), tail);
    let end = run(start, t.code);
    assert(end.native =~= end.native.take(start.native.len() as int));
}

} // verus!
