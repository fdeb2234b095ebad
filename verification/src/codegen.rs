//! The code generator: a state machine that takes one semantic event at a
//! time, keeps track of where every pending value lives, and appends the
//! instructions that compute it with a single accumulator register.

use crate::line::{Line, Source};
use crate::operand::{Location, Operand};
use vstd::prelude::*;

verus! {

/// A binary arithmetic operator.
#[derive(Clone, Copy, Debug, PartialEq, Eq, Structural)]
pub enum BinOp {
    Add,
    Sub,
    Mul,
}

/// Why a compilation was abandoned.
#[derive(Clone, Copy, Debug, PartialEq, Eq, Structural)]
pub enum ErrorKind {
    /// A character that is no token of the language.
    MalformedInput(char),
    /// An operator found fewer than two pending values.
    StackUnderflow,
    /// The pending values live in places that no instruction sequence covers.
    UnsupportedOperandShape,
    /// The left side of an assignment is not a variable.
    InvalidAssignmentTarget,
    /// A statement ended with more than one value, or with a spilled one.
    UnbalancedStatement,
}

/// A failed compilation: the reason, and the evaluation stack as it was when
/// the offending event arrived.
#[derive(Debug)]
pub struct CompileError {
    pub kind: ErrorKind,
    pub stack: Vec<Location>,
}

/// The generator as a mathematical value.
pub ghost struct State {
    /// One entry per pending value, oldest first.
    pub stack: Seq<Location>,
    /// The distinct variables seen so far, in order of first use.
    pub symbols: Seq<char>,
    /// Every line emitted so far.
    pub code: Seq<Line>,
}

/// The generator before any event.
pub open spec fn initial() -> State {
    State { stack: Seq::empty(), symbols: Seq::empty(), code: Seq::empty() }
}

/// The three lines that open a unit.
pub open spec fn prologue_lines() -> Seq<Line> {
    seq![Line::Global, Line::TextSection, Line::Entry]
}

/// The generator once the unit is opened.
pub open spec fn after_prologue(s: State) -> State {
    State { code: s.code + prologue_lines(), ..s }
}

/// The generator after a literal: one more pending operand.
pub open spec fn after_number(s: State, n: u32) -> State {
    State { stack: s.stack.push(Location::OnOperandStack(Operand::Integer(n))), ..s }
}

/// The generator after a variable: one more pending operand, and one more
/// symbol if the variable is new.
pub open spec fn after_variable(s: State, v: char) -> State {
    State {
        stack: s.stack.push(Location::OnOperandStack(Operand::Variable(v))),
        symbols: if s.symbols.contains(v) {
            s.symbols
        } else {
            s.symbols.push(v)
        },
        ..s
    }
}

/// The accumulator can be freed for a new computation: among the entries
/// that stay on the stack, only the newest may be in the accumulator.
pub open spec fn spillable(rest: Seq<Location>) -> bool {
    forall|i: int| 0 <= i < rest.len() - 1 ==> rest[i] != Location::InAccumulator
}

/// The newest of the entries that stay on the stack is in the accumulator.
pub open spec fn needs_spill(rest: Seq<Location>) -> bool {
    rest.len() > 0 && rest.last() == Location::InAccumulator
}

/// The entries that stay on the stack, once the accumulator is free.
pub open spec fn spilled(rest: Seq<Location>) -> Seq<Location> {
    if needs_spill(rest) {
        rest.drop_last().push(Location::OnCpuStack)
    } else {
        rest
    }
}

/// The push that frees the accumulator, where one is needed.
pub open spec fn spill_lines(rest: Seq<Location>) -> Seq<Line> {
    if needs_spill(rest) {
        seq![Line::Push]
    } else {
        Seq::empty()
    }
}

/// Takes the two newest entries off the stack, left operand first in the
/// result, and frees the accumulator among the others.
pub open spec fn prepared(s: State) -> Result<(Location, Location, State), ErrorKind> {
    if s.stack.len() < 2 {
        Err(ErrorKind::StackUnderflow)
    } else {
        let rest = s.stack.take(s.stack.len() - 2);
        if !spillable(rest) {
            Err(ErrorKind::UnsupportedOperandShape)
        } else {
            Ok(
                (
                    s.stack[s.stack.len() - 2],
                    s.stack[s.stack.len() - 1],
                    State { stack: spilled(rest), code: s.code + spill_lines(rest), ..s },
                ),
            )
        }
    }
}

/// Applies `op` to the accumulator with `src` as the second operand. The
/// multiply instruction takes its operand from the scratch register only.
pub open spec fn apply_lines(op: BinOp, src: Source) -> Seq<Line> {
    match op {
        BinOp::Add => seq![Line::Add(src)],
        BinOp::Sub => seq![Line::Sub(src)],
        BinOp::Mul => seq![Line::LoadScratch(src), Line::Mul],
    }
}

/// The instructions that combine two values by `op`, by where they live.
/// An operand on the left is loaded into the accumulator, after the
/// accumulator, if it holds the right value, has been saved in the scratch
/// register. A spilled left value is popped into the scratch register and
/// `op` is applied to the accumulator, which holds the right value: there
/// the operands of a subtraction change places. No other pair of locations
/// is combined.
pub open spec fn combine_lines(op: BinOp, lhs: Location, rhs: Location) -> Option<Seq<Line>> {
    match (lhs, rhs) {
        (Location::OnOperandStack(l), Location::OnOperandStack(r)) => Some(
            seq![Line::Load(l)] + apply_lines(op, Source::Direct(r)),
        ),
        (Location::OnOperandStack(l), Location::InAccumulator) => Some(
            seq![Line::Save, Line::Load(l)] + apply_lines(op, Source::Scratch),
        ),
        (Location::InAccumulator, Location::OnOperandStack(r)) => Some(
            apply_lines(op, Source::Direct(r)),
        ),
        (Location::OnCpuStack, Location::InAccumulator) => Some(
            seq![Line::Pop] + apply_lines(op, Source::Scratch),
        ),
        _ => None,
    }
}

/// The instructions that store the right value into the left variable.
pub open spec fn store_lines(lhs: Location, rhs: Location) -> Result<Seq<Line>, ErrorKind> {
    match lhs {
        Location::OnOperandStack(Operand::Variable(v)) => match rhs {
            Location::OnOperandStack(r) => Ok(seq![Line::Load(r), Line::Store(v)]),
            Location::InAccumulator => Ok(seq![Line::Store(v)]),
            Location::OnCpuStack => Err(ErrorKind::UnsupportedOperandShape),
        },
        _ => Err(ErrorKind::InvalidAssignmentTarget),
    }
}

/// The state with `lines` emitted and the accumulator as the newest entry.
pub open spec fn computed(s: State, lines: Seq<Line>) -> State {
    State { stack: s.stack.push(Location::InAccumulator), code: s.code + lines, ..s }
}

/// The generator after an operator, or why the operator is refused: fewer
/// than two pending values, an accumulator that cannot be freed, or two
/// locations that no instruction sequence combines.
pub open spec fn after_binary(s: State, op: BinOp) -> Result<State, ErrorKind> {
    match prepared(s) {
        Err(k) => Err(k),
        Ok((lhs, rhs, t)) => match combine_lines(op, lhs, rhs) {
            None => Err(ErrorKind::UnsupportedOperandShape),
            Some(lines) => Ok(computed(t, lines)),
        },
    }
}

/// The generator after an assignment, or why it is refused: fewer than two
/// pending values, an accumulator that cannot be freed, a target that is no
/// variable, or a spilled value on the right.
pub open spec fn after_assign(s: State) -> Result<State, ErrorKind> {
    match prepared(s) {
        Err(k) => Err(k),
        Ok((lhs, rhs, t)) => match store_lines(lhs, rhs) {
            Err(k) => Err(k),
            Ok(lines) => Ok(computed(t, lines)),
        },
    }
}

/// The generator after the end of a statement: the stack is empty and the
/// statement's value, if there is one, is in the accumulator. More than one
/// pending value, or a spilled one, is refused.
pub open spec fn after_statement(s: State) -> Result<State, ErrorKind> {
    if s.stack.len() == 0 {
        Ok(s)
    } else if s.stack.len() > 1 {
        Err(ErrorKind::UnbalancedStatement)
    } else {
        match s.stack[0] {
            Location::OnOperandStack(o) => Ok(
                State { stack: Seq::empty(), code: s.code.push(Line::Load(o)), ..s },
            ),
            Location::InAccumulator => Ok(State { stack: Seq::empty(), ..s }),
            Location::OnCpuStack => Err(ErrorKind::UnbalancedStatement),
        }
    }
}

/// The storage declaration of one variable.
pub open spec fn declaration(v: char) -> Line {
    Line::Declare(v)
}

/// One storage declaration per symbol, in the order of the symbols.
pub open spec fn declarations(symbols: Seq<char>) -> Seq<Line> {
    Seq::new(symbols.len(), |i: int| declaration(symbols[i]))
}

/// The lines that close a unit: the return, and the data section where
/// there is a variable.
pub open spec fn epilogue_lines(symbols: Seq<char>) -> Seq<Line> {
    if symbols.len() == 0 {
        seq![Line::Ret]
    } else {
        seq![Line::Ret, Line::DataSection] + declarations(symbols)
    }
}

/// The generator once the last statement is ended and the unit is closed.
pub open spec fn after_epilogue(s: State) -> Result<State, ErrorKind> {
    match after_statement(s) {
        Err(k) => Err(k),
        Ok(t) => Ok(State { code: t.code + epilogue_lines(t.symbols), ..t }),
    }
}

/// No two entries of the stack are in the accumulator.
pub open spec fn single_accumulator(stack: Seq<Location>) -> bool {
    forall|i: int, j: int|
        0 <= i < j < stack.len() ==> !(stack[i] == Location::InAccumulator && stack[j]
            == Location::InAccumulator)
}

/// The newest entry is in the accumulator, and no other entry is.
pub open spec fn accumulator_on_top(stack: Seq<Location>) -> bool {
    &&& stack.len() > 0
    &&& stack.last() == Location::InAccumulator
    &&& forall|i: int| 0 <= i < stack.len() - 1 ==> stack[i] != Location::InAccumulator
}

/// No entry is in the accumulator.
pub open spec fn accumulator_free(stack: Seq<Location>) -> bool {
    forall|i: int| 0 <= i < stack.len() ==> stack[i] != Location::InAccumulator
}

/// The generator's invariant: every symbol is there once, and the one
/// accumulator holds one pending value at most.
pub open spec fn well_formed(s: State) -> bool {
    s.symbols.no_duplicates() && single_accumulator(s.stack)
}

/// Once the accumulator is freed, no entry that stays on the stack is in it.
pub proof fn prepared_frees_accumulator(s: State)
    requires
        prepared(s) is Ok,
    ensures
        accumulator_free(prepared(s)->Ok_0.2.stack),
{
}

/// What an event that may fail owes: on success the new state, on failure
/// the reason with the stack as it was, and the generator untouched.
pub open spec fn outcome(
    before: State,
    expected: Result<State, ErrorKind>,
    after: State,
    r: Result<(), CompileError>,
) -> bool {
    match expected {
        Ok(s) => r is Ok && after == s,
        Err(k) => r is Err && r->Err_0.kind == k && r->Err_0.stack@ == before.stack && after
            == before,
    }
}

/// The code generator. One generator compiles one unit.
#[derive(Debug)]
pub struct CodeGen {
    /// Where each pending value lives, oldest first.
    stack: Vec<Location>,
    /// The distinct variables, in order of first use.
    symbols: Vec<char>,
    /// The lines emitted so far.
    code: Vec<Line>,
}

impl View for CodeGen {
    type V = State;

    closed spec fn view(&self) -> State {
        State { stack: self.stack@, symbols: self.symbols@, code: self.code@ }
    }
}

/// The lines of `combine_lines`, where the pair of locations has any.
fn combine(op: BinOp, lhs: Location, rhs: Location) -> (r: Option<Vec<Line>>)
    ensures
        r is Some <==> combine_lines(op, lhs, rhs) is Some,
        r is Some ==> r->Some_0@ == combine_lines(op, lhs, rhs)->Some_0,
{
    let mut lines: Vec<Line> = Vec::new();
    let src = match (lhs, rhs) {
        (Location::OnOperandStack(l), Location::OnOperandStack(r)) => {
            lines.push(Line::Load(l));
            Source::Direct(r)
        },
        (Location::OnOperandStack(l), Location::InAccumulator) => {
            lines.push(Line::Save);
            lines.push(Line::Load(l));
            Source::Scratch
        },
        (Location::InAccumulator, Location::OnOperandStack(r)) => Source::Direct(r),
        (Location::OnCpuStack, Location::InAccumulator) => {
            lines.push(Line::Pop);
            Source::Scratch
        },
        _ => {
            return None;
        },
    };
    match op {
        BinOp::Add => lines.push(Line::Add(src)),
        BinOp::Sub => lines.push(Line::Sub(src)),
        BinOp::Mul => {
            lines.push(Line::LoadScratch(src));
            lines.push(Line::Mul);
        },
    }
    assert(lines@ =~= combine_lines(op, lhs, rhs)->Some_0);
    Some(lines)
}

/// The lines of `store_lines`, or why the assignment is refused.
fn store(lhs: Location, rhs: Location) -> (r: Result<Vec<Line>, ErrorKind>)
    ensures
        match store_lines(lhs, rhs) {
            Ok(lines) => r is Ok && r->Ok_0@ == lines,
            Err(k) => r == Err::<Vec<Line>, ErrorKind>(k),
        },
{
    match lhs {
        Location::OnOperandStack(Operand::Variable(v)) => {
            let mut lines: Vec<Line> = Vec::new();
            match rhs {
                Location::OnOperandStack(r) => lines.push(Line::Load(r)),
                Location::InAccumulator => {},
                Location::OnCpuStack => {
                    return Err(ErrorKind::UnsupportedOperandShape);
                },
            }
            lines.push(Line::Store(v));
            assert(lines@ =~= store_lines(lhs, rhs)->Ok_0);
            Ok(lines)
        },
        _ => Err(ErrorKind::InvalidAssignmentTarget),
    }
}

impl CodeGen {
    /// A generator with nothing pending, no symbol and no line.
    pub fn new() -> (g: CodeGen)
        ensures
            g@ == initial(),
            well_formed(g@),
    {
        CodeGen { stack: Vec::new(), symbols: Vec::new(), code: Vec::new() }
    }

    /// The evaluation stack, oldest entry first.
    pub fn stack(&self) -> (s: &Vec<Location>)
        ensures
            s@ == self@.stack,
    {
        &self.stack
    }

    /// The distinct variables seen so far, in order of first use.
    pub fn symbols(&self) -> (s: &Vec<char>)
        ensures
            s@ == self@.symbols,
    {
        &self.symbols
    }

    /// The lines emitted so far.
    pub fn code(&self) -> (c: &Vec<Line>)
        ensures
            c@ == self@.code,
    {
        &self.code
    }

    /// The lines emitted, handed over.
    pub fn into_code(self) -> (c: Vec<Line>)
        ensures
            c@ == self@.code,
    {
        self.code
    }

    /// The failure of the given kind at the present stack.
    pub fn fail(&self, kind: ErrorKind) -> (e: CompileError)
        ensures
            e.kind == kind,
            e.stack@ == self@.stack,
    {
        let mut snapshot: Vec<Location> = Vec::new();
        let mut i: usize = 0;
        while i < self.stack.len()
            invariant
                i <= self.stack@.len(),
                snapshot@ == self.stack@.take(i as int),
            decreases self.stack@.len() - i,
        {
            snapshot.push(self.stack[i]);
            assert(snapshot@ =~= self.stack@.take(i + 1));
            i += 1;
        }
        assert(snapshot@ =~= self.stack@);
        CompileError { kind, stack: snapshot }
    }

    fn emit_all(&mut self, lines: &Vec<Line>)
        ensures
            final(self)@ == (State { code: old(self)@.code + lines@, ..old(self)@ }),
    {
        let mut i: usize = 0;
        while i < lines.len()
            invariant
                i <= lines@.len(),
                self.stack == old(self).stack,
                self.symbols == old(self).symbols,
                self.code@ == old(self).code@ + lines@.take(i as int),
            decreases lines@.len() - i,
        {
            self.code.push(lines[i]);
            assert(self.code@ =~= old(self).code@ + lines@.take(i + 1));
            i += 1;
        }
        assert(lines@.take(i as int) =~= lines@);
    }

    /// Emits the lines that open the unit.
    pub fn prologue(&mut self)
        ensures
            final(self)@ == after_prologue(old(self)@),
            well_formed(old(self)@) ==> well_formed(final(self)@),
    {
        self.code.push(Line::Global);
        self.code.push(Line::TextSection);
        self.code.push(Line::Entry);
        assert(self.code@ =~= old(self).code@ + prologue_lines());
    }

    /// A literal becomes the newest pending value. Nothing is emitted.
    pub fn number(&mut self, n: u32)
        ensures
            final(self)@ == after_number(old(self)@, n),
            well_formed(old(self)@) ==> well_formed(final(self)@),
    {
        self.stack.push(Location::OnOperandStack(Operand::Integer(n)));
    }

    fn knows(&self, v: char) -> (b: bool)
        ensures
            b == self@.symbols.contains(v),
    {
        let mut i: usize = 0;
        while i < self.symbols.len()
            invariant
                i <= self.symbols@.len(),
                forall|j: int| 0 <= j < i ==> self.symbols@[j] != v,
            decreases self.symbols@.len() - i,
        {
            if self.symbols[i] == v {
                return true;
            }
            i += 1;
        }
        false
    }

    /// A variable becomes the newest pending value, and a symbol on its
    /// first use. Nothing is emitted.
    pub fn variable(&mut self, v: char)
        ensures
            final(self)@ == after_variable(old(self)@, v),
            well_formed(old(self)@) ==> well_formed(final(self)@),
    {
        if !self.knows(v) {
            self.symbols.push(v);
        }
        self.stack.push(Location::OnOperandStack(Operand::Variable(v)));
    }

    /// Whether an entry other than the newest of those that stay on the
    /// stack is in the accumulator.
    fn spill_blocked(&self) -> (b: bool)
        requires
            self@.stack.len() >= 2,
        ensures
            b == !spillable(self@.stack.take(self@.stack.len() - 2)),
    {
        let n: usize = self.stack.len() - 2;
        let ghost rest = self.stack@.take(n as int);
        if n == 0 {
            return false;
        }
        let mut i: usize = 0;
        while i < n - 1
            invariant
                n + 2 == self.stack@.len(),
                i <= n - 1,
                rest == self.stack@.take(n as int),
                forall|j: int| 0 <= j < i ==> rest[j] != Location::InAccumulator,
            decreases n - i,
        {
            match self.stack[i] {
                Location::InAccumulator => {
                    assert(rest[i as int] == Location::InAccumulator);
                    return true;
                },
                _ => {},
            }
            i += 1;
        }
        false
    }

    /// Takes the two newest entries off the stack, and pushes the value in
    /// the accumulator, if an older entry holds it, onto the native stack.
    pub fn prepare_binop(&mut self) -> (r: Result<(Location, Location), CompileError>)
        ensures
            match prepared(old(self)@) {
                Ok((lhs, rhs, s)) => r == Ok::<(Location, Location), CompileError>((lhs, rhs))
                    && final(self)@ == s,
                Err(k) => r is Err && r->Err_0.kind == k && r->Err_0.stack@ == old(self)@.stack
                    && final(self)@ == old(self)@,
            },
            r is Ok ==> accumulator_free(final(self)@.stack),
            well_formed(old(self)@) ==> well_formed(final(self)@),
    {
        let n: usize = self.stack.len();
        if n < 2 {
            return Err(self.fail(ErrorKind::StackUnderflow));
        }
        if self.spill_blocked() {
            return Err(self.fail(ErrorKind::UnsupportedOperandShape));
        }
        let lhs = self.stack[n - 2];
        let rhs = self.stack[n - 1];
        let ghost rest = self.stack@.take(n - 2);
        self.stack.pop();
        self.stack.pop();
        assert(self.stack@ =~= rest);
        if n > 2 {
            match self.stack[n - 3] {
                Location::InAccumulator => {
                    self.code.push(Line::Push);
                    self.stack.pop();
                    self.stack.push(Location::OnCpuStack);
                },
                _ => {},
            }
        }
        assert(self.stack@ =~= spilled(rest));
        assert(self.code@ =~= old(self).code@ + spill_lines(rest));
        proof {
            prepared_frees_accumulator(old(self)@);
        }
        Ok((lhs, rhs))
    }

    /// Combines the two newest pending values by `op`; the result is in the
    /// accumulator and is the newest pending value.
    pub fn rvalue_binop(&mut self, op: BinOp) -> (r: Result<(), CompileError>)
        ensures
            outcome(old(self)@, after_binary(old(self)@, op), final(self)@, r),
            r is Ok ==> accumulator_on_top(final(self)@.stack),
            well_formed(old(self)@) ==> well_formed(final(self)@),
    {
        let n: usize = self.stack.len();
        if n < 2 {
            return Err(self.fail(ErrorKind::StackUnderflow));
        }
        let lines = match combine(op, self.stack[n - 2], self.stack[n - 1]) {
            Some(lines) => lines,
            None => {
                return Err(self.fail(ErrorKind::UnsupportedOperandShape));
            },
        };
        match self.prepare_binop() {
            Err(e) => {
                return Err(e);
            },
            Ok(_) => {},
        }
        self.emit_all(&lines);
        self.stack.push(Location::InAccumulator);
        Ok(())
    }

    /// Adds the two newest pending values.
    pub fn add(&mut self) -> (r: Result<(), CompileError>)
        ensures
            outcome(old(self)@, after_binary(old(self)@, BinOp::Add), final(self)@, r),
            r is Ok ==> accumulator_on_top(final(self)@.stack),
            well_formed(old(self)@) ==> well_formed(final(self)@),
    {
        self.rvalue_binop(BinOp::Add)
    }

    /// Subtracts the newest pending value from the one before it.
    pub fn sub(&mut self) -> (r: Result<(), CompileError>)
        ensures
            outcome(old(self)@, after_binary(old(self)@, BinOp::Sub), final(self)@, r),
            r is Ok ==> accumulator_on_top(final(self)@.stack),
            well_formed(old(self)@) ==> well_formed(final(self)@),
    {
        self.rvalue_binop(BinOp::Sub)
    }

    /// Multiplies the two newest pending values.
    pub fn mul(&mut self) -> (r: Result<(), CompileError>)
        ensures
            outcome(old(self)@, after_binary(old(self)@, BinOp::Mul), final(self)@, r),
            r is Ok ==> accumulator_on_top(final(self)@.stack),
            well_formed(old(self)@) ==> well_formed(final(self)@),
    {
        self.rvalue_binop(BinOp::Mul)
    }

    /// Stores the newest pending value into the variable before it; the
    /// value stays in the accumulator as the newest pending value.
    pub fn assign(&mut self) -> (r: Result<(), CompileError>)
        ensures
            outcome(old(self)@, after_assign(old(self)@), final(self)@, r),
            r is Ok ==> accumulator_on_top(final(self)@.stack),
            well_formed(old(self)@) ==> well_formed(final(self)@),
    {
        let n: usize = self.stack.len();
        if n < 2 {
            return Err(self.fail(ErrorKind::StackUnderflow));
        }
        let lines = match store(self.stack[n - 2], self.stack[n - 1]) {
            Ok(lines) => lines,
            Err(kind) => {
                if self.spill_blocked() {
                    return Err(self.fail(ErrorKind::UnsupportedOperandShape));
                }
                return Err(self.fail(kind));
            },
        };
        match self.prepare_binop() {
            Err(e) => {
                return Err(e);
            },
            Ok(_) => {},
        }
        self.emit_all(&lines);
        self.stack.push(Location::InAccumulator);
        Ok(())
    }

    /// Ends a statement: its value, if it is not yet there, is loaded into
    /// the accumulator, and the stack is left empty.
    pub fn end_of_expr(&mut self) -> (r: Result<(), CompileError>)
        ensures
            outcome(old(self)@, after_statement(old(self)@), final(self)@, r),
            r is Ok ==> final(self)@.stack.len() == 0,
            well_formed(old(self)@) ==> well_formed(final(self)@),
    {
        let n: usize = self.stack.len();
        if n == 0 {
            return Ok(());
        }
        if n > 1 {
            return Err(self.fail(ErrorKind::UnbalancedStatement));
        }
        match self.stack[0] {
            Location::OnOperandStack(o) => self.code.push(Line::Load(o)),
            Location::InAccumulator => {},
            Location::OnCpuStack => {
                return Err(self.fail(ErrorKind::UnbalancedStatement));
            },
        }
        self.stack.pop();
        assert(self.stack@ =~= Seq::empty());
        Ok(())
    }

    /// Ends the last statement and closes the unit: the return, then one
    /// storage declaration per variable, in order of first use.
    pub fn epilogue(&mut self) -> (r: Result<(), CompileError>)
        ensures
            outcome(old(self)@, after_epilogue(old(self)@), final(self)@, r),
            r is Ok ==> final(self)@.stack.len() == 0,
            well_formed(old(self)@) ==> well_formed(final(self)@),
    {
        match self.end_of_expr() {
            Err(e) => {
                return Err(e);
            },
            Ok(_) => {},
        }
        let ghost base = self.code@;
        let ghost stack = self.stack@;
        self.code.push(Line::Ret);
        if self.symbols.len() > 0 {
            self.code.push(Line::DataSection);
            assert(self.code@ =~= base + seq![Line::Ret, Line::DataSection] + declarations(
                self.symbols@.take(0),
            ));
            let mut i: usize = 0;
            while i < self.symbols.len()
                invariant
                    i <= self.symbols@.len(),
                    self.symbols@ == old(self).symbols@,
                    self.stack@ == stack,
                    self.code@ == base + seq![Line::Ret, Line::DataSection] + declarations(
                        self.symbols@.take(i as int),
                    ),
                decreases self.symbols@.len() - i,
            {
                self.code.push(Line::Declare(self.symbols[i]));
                assert(declarations(self.symbols@.take(i + 1)) =~= declarations(
                    self.symbols@.take(i as int),
                ).push(declaration(self.symbols@[i as int])));
                assert(self.code@ =~= base + seq![Line::Ret, Line::DataSection] + declarations(
                    self.symbols@.take(i + 1),
                ));
                i += 1;
            }
            assert(self.symbols@.take(i as int) =~= self.symbols@);
        }
        assert(self.code@ =~= base + epilogue_lines(self.symbols@));
        Ok(())
    }
}

} // verus!
