//! From a program of one-character tokens to the lines of its assembly unit.

use crate::codegen::{
    after_assign, after_binary, after_epilogue, after_number, after_prologue, after_statement,
    after_variable, initial, outcome, well_formed, BinOp, CodeGen, CompileError, ErrorKind, State,
};
use crate::line::{render, texts, unit_text, Line};
use crate::operand::Location;
use vstd::prelude::*;
use vstd::std_specs::iter::IteratorSpec;
use vstd::string::*;

verus! {

/// What one input character means to the generator.
#[derive(Clone, Copy, Debug, PartialEq, Eq, Structural)]
pub enum Event {
    Digit(u32),
    Letter(char),
    Plus,
    Minus,
    Star,
    Semicolon,
    Equals,
}

/// The reason of a failure and the evaluation stack at that moment.
pub ghost struct Failure {
    pub kind: ErrorKind,
    pub stack: Seq<Location>,
}

/// The event that a character stands for, if it is a token.
pub open spec fn event_of(c: char) -> Option<Event> {
    let code = c as u32;
    if 48 <= code <= 57 {
        Some(Event::Digit((code - 48) as u32))
    } else if 65 <= code <= 90 || 97 <= code <= 122 {
        Some(Event::Letter(c))
    } else if c == '+' {
        Some(Event::Plus)
    } else if c == '-' {
        Some(Event::Minus)
    } else if c == '*' {
        Some(Event::Star)
    } else if c == ';' {
        Some(Event::Semicolon)
    } else if c == '=' {
        Some(Event::Equals)
    } else {
        None
    }
}

/// The generator after one event.
pub open spec fn after_event(s: State, e: Event) -> Result<State, ErrorKind> {
    match e {
        Event::Digit(n) => Ok(after_number(s, n)),
        Event::Letter(v) => Ok(after_variable(s, v)),
        Event::Plus => after_binary(s, BinOp::Add),
        Event::Minus => after_binary(s, BinOp::Sub),
        Event::Star => after_binary(s, BinOp::Mul),
        Event::Semicolon => after_statement(s),
        Event::Equals => after_assign(s),
    }
}

/// The generator after every character of `input`, or the first failure.
pub open spec fn after_input(s: State, input: Seq<char>) -> Result<State, Failure>
    decreases input.len(),
{
    if input.len() == 0 {
        Ok(s)
    } else {
        match event_of(input[0]) {
            None => Err(Failure { kind: ErrorKind::MalformedInput(input[0]), stack: s.stack }),
            Some(e) => match after_event(s, e) {
                Err(kind) => Err(Failure { kind, stack: s.stack }),
                Ok(t) => after_input(t, input.drop_first()),
            },
        }
    }
}

/// The assembly unit of a program: the prologue, what each character adds
/// in turn, and the epilogue; or the first failure on the way.
pub open spec fn unit_of(input: Seq<char>) -> Result<Seq<Line>, Failure> {
    match after_input(after_prologue(initial()), input) {
        Err(f) => Err(f),
        Ok(s) => match after_epilogue(s) {
            Err(kind) => Err(Failure { kind, stack: s.stack }),
            Ok(t) => Ok(t.code),
        },
    }
}

/// Whether `e` reports exactly the failure `f`.
pub open spec fn reports(e: CompileError, f: Failure) -> bool {
    e.kind == f.kind && e.stack@ == f.stack
}

/// Reads one character as a token.
pub fn classify(c: char) -> (e: Option<Event>)
    ensures
        e == event_of(c),
{
    let code: u32 = c as u32;
    if 48 <= code && code <= 57 {
        Some(Event::Digit(code - 48))
    } else if (65 <= code && code <= 90) || (97 <= code && code <= 122) {
        Some(Event::Letter(c))
    } else if c == '+' {
        Some(Event::Plus)
    } else if c == '-' {
        Some(Event::Minus)
    } else if c == '*' {
        Some(Event::Star)
    } else if c == ';' {
        Some(Event::Semicolon)
    } else if c == '=' {
        Some(Event::Equals)
    } else {
        None
    }
}

impl CodeGen {
    /// Hands one event to the operation that it names.
    pub fn event(&mut self, e: Event) -> (r: Result<(), CompileError>)
        ensures
            outcome(old(self)@, after_event(old(self)@, e), final(self)@, r),
            well_formed(old(self)@) ==> well_formed(final(self)@),
    {
        match e {
            Event::Digit(n) => {
                self.number(n);
                Ok(())
            },
            Event::Letter(v) => {
                self.variable(v);
                Ok(())
            },
            Event::Plus => self.add(),
            Event::Minus => self.sub(),
            Event::Star => self.mul(),
            Event::Semicolon => self.end_of_expr(),
            Event::Equals => self.assign(),
        }
    }
}

/// Compiles a program into the lines of its assembly unit.
pub fn assemble(input: &str) -> (r: Result<Vec<Line>, CompileError>)
    ensures
        match unit_of(input@) {
            Ok(code) => r is Ok && r->Ok_0@ == code,
            Err(f) => r is Err && reports(r->Err_0, f),
        },
{
    let mut cg = CodeGen::new();
    cg.prologue();
    let mut rest = input.chars();
    loop
        invariant
            after_input(cg@, rest.remaining()) == after_input(
                after_prologue(initial()),
                input@,
            ),
            rest.decrease() is Some,
        ensures
            rest.remaining().len() == 0,
        decreases rest.decrease()->Some_0,
    {
        let ghost before = rest.remaining();
        let c = match rest.next() {
            None => {
                break;
            },
            Some(c) => c,
        };
        assert(before.len() > 0 && before[0] == c && rest.remaining() == before.drop_first());
        match classify(c) {
            None => {
                return Err(cg.fail(ErrorKind::MalformedInput(c)));
            },
            Some(e) => match cg.event(e) {
                Err(e) => {
                    return Err(e);
                },
                Ok(_) => {},
            },
        }
    }
    match cg.epilogue() {
        Err(e) => Err(e),
        Ok(_) => Ok(cg.into_code()),
    }
}

/// Compiles a program into the text of its assembly unit, one string
/// per line.
pub fn compile(input: &str) -> (r: Result<Vec<String>, CompileError>)
    ensures
        match unit_of(input@) {
            Ok(code) => r is Ok && texts(r->Ok_0@) == unit_text(code),
            Err(f) => r is Err && reports(r->Err_0, f),
        },
{
    match assemble(input) {
        Err(e) => Err(e),
        Ok(code) => {
            Ok(render(&code))
        },
    }
}

} // verus!
