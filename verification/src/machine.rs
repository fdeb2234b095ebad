//! What the emitted instructions do: a model of the two registers, the
//! native stack and the variables' memory cells.

use crate::codegen::BinOp;
use crate::line::{Line, Source};
use crate::operand::{Location, Operand};
use vstd::prelude::*;

verus! {

/// The part of the machine that the emitted code touches.
pub ghost struct Machine {
    /// The accumulator register.
    pub acc: u32,
    /// The scratch register.
    pub scratch: u32,
    /// The native stack, oldest word first.
    pub native: Seq<u32>,
    /// The variables' cells; a cell never stored to holds zero.
    pub memory: Map<char, u32>,
}

/// Reduces a mathematical result to the 32 bits of a register.
pub open spec fn wrap(n: int) -> u32 {
    (n % 0x1_0000_0000) as u32
}

/// What a variable's cell holds.
pub open spec fn cell(memory: Map<char, u32>, v: char) -> u32 {
    if memory.dom().contains(v) {
        memory[v]
    } else {
        0
    }
}

/// The value of an operand at the moment it is read.
pub open spec fn operand_value(memory: Map<char, u32>, o: Operand) -> u32 {
    match o {
        Operand::Integer(n) => n,
        Operand::Variable(v) => cell(memory, v),
    }
}

/// The value of an instruction's second operand.
pub open spec fn source_value(m: Machine, s: Source) -> u32 {
    match s {
        Source::Direct(o) => operand_value(m.memory, o),
        Source::Scratch => m.scratch,
    }
}

/// What an operator makes of two register values.
pub open spec fn result_of(op: BinOp, left: u32, right: u32) -> u32 {
    match op {
        BinOp::Add => wrap(left + right),
        BinOp::Sub => wrap(left - right),
        BinOp::Mul => wrap(left * right),
    }
}

/// The value that a location stands for: an operand's value, the
/// accumulator, or the newest word on the native stack.
pub open spec fn held(m: Machine, l: Location) -> u32 {
    match l {
        Location::OnOperandStack(o) => operand_value(m.memory, o),
        Location::InAccumulator => m.acc,
        Location::OnCpuStack => m.native.last(),
    }
}

/// The machine after one line. Directives, the label and the return leave
/// it as it is; a pop from an empty native stack does too.
pub open spec fn step(m: Machine, l: Line) -> Machine {
    match l {
        Line::Load(o) => Machine { acc: operand_value(m.memory, o), ..m },
        Line::Save => Machine { scratch: m.acc, ..m },
        Line::LoadScratch(s) => Machine { scratch: source_value(m, s), ..m },
        Line::Add(s) => Machine { acc: wrap(m.acc + source_value(m, s)), ..m },
        Line::Sub(s) => Machine { acc: wrap(m.acc - source_value(m, s)), ..m },
        Line::Mul => Machine { acc: wrap(m.acc * m.scratch), ..m },
        Line::Store(v) => Machine { memory: m.memory.insert(v, m.acc), ..m },
        Line::Push => Machine { native: m.native.push(m.acc), ..m },
        Line::Pop => if m.native.len() > 0 {
            Machine { scratch: m.native.last(), native: m.native.drop_last(), ..m }
        } else {
            m
        },
        _ => m,
    }
}

/// The machine after every line of `code`, in order.
pub open spec fn run(m: Machine, code: Seq<Line>) -> Machine
    decreases code.len(),
{
    if code.len() == 0 {
        m
    } else {
        step(run(m, code.drop_last()), code.last())
    }
}

/// A line that leaves the machine as it is.
pub open spec fn inert(l: Line) -> bool {
    match l {
        Line::Global | Line::TextSection | Line::Entry | Line::Ret | Line::DataSection
        | Line::Declare(_) => true,
        _ => false,
    }
}

/// Code of inert lines leaves the machine as it is.
pub proof fn run_inert(m: Machine, code: Seq<Line>)
    requires
        forall|i: int| 0 <= i < code.len() ==> inert(#[trigger] code[i]),
    ensures
        run(m, code) == m,
    decreases code.len(),
{
    if code.len() > 0 {
        run_inert(m, code.drop_last());
    }
}

/// Running one more line is one more step.
pub proof fn run_push(m: Machine, code: Seq<Line>, l: Line)
    ensures
        run(m, code.push(l)) == step(run(m, code), l),
{
    assert(code.push(l).drop_last() =~= code);
}

/// Running two pieces of code in a row is running their concatenation.
pub proof fn run_concat(m: Machine, first: Seq<Line>, second: Seq<Line>)
    ensures
        run(m, first + second) == run(run(m, first), second),
    decreases second.len(),
{
    if second.len() == 0 {
        assert(first + second =~= first);
    } else {
        run_concat(m, first, second.drop_last());
        assert((first + second).drop_last() =~= first + second.drop_last());
    }
}

/// Running one line is one step.
pub proof fn run_one(m: Machine, a: Line)
    ensures
        run(m, seq![a]) == step(m, a),
{
    run_push(m, Seq::empty(), a);
}

/// Running two lines is two steps.
pub proof fn run_two(m: Machine, a: Line, b: Line)
    ensures
        run(m, seq![a, b]) == step(step(m, a), b),
{
    run_one(m, a);
    run_push(m, seq![a], b);
    assert(seq![a].push(b) =~= seq![a, b]);
}

/// Running three lines is three steps.
pub proof fn run_three(m: Machine, a: Line, b: Line, c: Line)
    ensures
        run(m, seq![a, b, c]) == step(step(step(m, a), b), c),
{
    run_two(m, a, b);
    run_push(m, seq![a, b], c);
    assert(seq![a, b].push(c) =~= seq![a, b, c]);
}

} // verus!
