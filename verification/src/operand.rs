//! Operands, the places where a pending value can live, and their text.

use vstd::prelude::*;
use vstd::string::*;

verus! {

/// A primary of the language: a literal, or a named four-byte memory cell.
#[derive(Clone, Copy, Debug, PartialEq, Eq, Structural)]
pub enum Operand {
    Integer(u32),
    Variable(char),
}

/// Where the value of an already-read sub-expression currently lives.
#[derive(Clone, Copy, Debug, PartialEq, Eq, Structural)]
pub enum Location {
    /// Not loaded yet; usable directly as an instruction operand.
    OnOperandStack(Operand),
    /// Held in the accumulator register.
    InAccumulator,
    /// Pushed from the accumulator onto the native stack.
    OnCpuStack,
}

/// The character of one decimal digit.
pub open spec fn digit_char(d: nat) -> char {
    if d == 0 {
        '0'
    } else if d == 1 {
        '1'
    } else if d == 2 {
        '2'
    } else if d == 3 {
        '3'
    } else if d == 4 {
        '4'
    } else if d == 5 {
        '5'
    } else if d == 6 {
        '6'
    } else if d == 7 {
        '7'
    } else if d == 8 {
        '8'
    } else {
        '9'
    }
}

/// The decimal digits of `n`, most significant first, without leading zeros.
pub open spec fn decimal(n: nat) -> Seq<char>
    decreases n,
{
    if n < 10 {
        seq![digit_char(n)]
    } else {
        decimal(n / 10).push(digit_char(n % 10))
    }
}

/// The text of an operand inside an instruction: the decimal digits of a
/// literal, or a reference to the memory cell named after a variable.
pub open spec fn operand_text(o: Operand) -> Seq<char> {
    match o {
        Operand::Integer(n) => decimal(n as nat),
        Operand::Variable(v) => "[rel "@.push(v).push(']'),
    }
}

/// `String::push` of the standard library: appends one character to the end
/// of the string and leaves what was there before in place.
#[verifier::external_body]
pub(crate) fn push_char(out: &mut String, c: char)
    ensures
        final(out)@ == old(out)@.push(c),
{
    out.push(c)
}

/// The character of the digit `d`.
fn digit(d: u32) -> (c: char)
    requires
        d < 10,
    ensures
        c == digit_char(d as nat),
{
    if d == 0 {
        '0'
    } else if d == 1 {
        '1'
    } else if d == 2 {
        '2'
    } else if d == 3 {
        '3'
    } else if d == 4 {
        '4'
    } else if d == 5 {
        '5'
    } else if d == 6 {
        '6'
    } else if d == 7 {
        '7'
    } else if d == 8 {
        '8'
    } else {
        '9'
    }
}

/// Appends the decimal digits of `n` to `out`.
pub fn push_decimal(out: &mut String, n: u32)
    ensures
        final(out)@ == old(out)@ + decimal(n as nat),
    decreases n,
{
    if n >= 10 {
        push_decimal(out, n / 10);
    }
    push_char(out, digit(n % 10));
    assert(out@ =~= old(out)@ + decimal(n as nat));
}

impl Operand {
    /// Appends the operand's text to `out`.
    pub fn push_text(&self, out: &mut String)
        ensures
            final(out)@ == old(out)@ + operand_text(*self),
    {
        match *self {
            Operand::Integer(n) => push_decimal(out, n),
            Operand::Variable(v) => {
                out.append("[rel ");
                push_char(out, v);
                push_char(out, ']');
                assert(out@ =~= old(out)@ + operand_text(*self));
            },
        }
    }

    /// The operand as it is written inside an instruction.
    pub fn text(&self) -> (s: String)
        ensures
            s@ == operand_text(*self),
    {
        let mut s = String::new();
        self.push_text(&mut s);
        assert(s@ =~= operand_text(*self));
        s
    }
}

} // verus!
