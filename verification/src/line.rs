//! The lines of an assembly unit and their exact text.

use crate::operand::{operand_text, Operand};
use vstd::prelude::*;
use vstd::string::*;

verus! {

/// The second operand of an instruction that works on the accumulator.
#[derive(Clone, Copy, Debug, PartialEq, Eq, Structural)]
pub enum Source {
    /// A literal or a memory cell, written into the instruction itself.
    Direct(Operand),
    /// The scratch register.
    Scratch,
}

/// One line of output.
#[derive(Clone, Copy, Debug, PartialEq, Eq, Structural)]
pub enum Line {
    /// Exports the entry point.
    Global,
    /// Opens the code section.
    TextSection,
    /// The entry label.
    Entry,
    /// Loads the accumulator from an operand.
    Load(Operand),
    /// Copies the accumulator into the scratch register.
    Save,
    /// Loads the scratch register.
    LoadScratch(Source),
    /// Adds to the accumulator.
    Add(Source),
    /// Subtracts from the accumulator.
    Sub(Source),
    /// Multiplies the accumulator by the scratch register.
    Mul,
    /// Stores the accumulator into a variable's memory cell.
    Store(char),
    /// Pushes the accumulator onto the native stack.
    Push,
    /// Pops the native stack into the scratch register.
    Pop,
    /// Returns to the caller.
    Ret,
    /// Opens the data section.
    DataSection,
    /// Reserves one zeroed four-byte cell for a variable.
    Declare(char),
}

/// The text of a second operand: the operand's own, or the scratch
/// register's name.
pub open spec fn source_text(s: Source) -> Seq<char> {
    match s {
        Source::Direct(o) => operand_text(o),
        Source::Scratch => "ebx"@,
    }
}

/// The exact characters of a line, without a line terminator.
pub open spec fn line_text(l: Line) -> Seq<char> {
    match l {
        Line::Global => "global _evaluate"@,
        Line::TextSection => "section .text"@,
        Line::Entry => "_evaluate:"@,
        Line::Load(o) => "\tmov eax, "@ + operand_text(o),
        Line::Save => "\tmov ebx, eax"@,
        Line::LoadScratch(s) => "\tmov ebx, "@ + source_text(s),
        Line::Add(s) => "\tadd eax, "@ + source_text(s),
        Line::Sub(s) => "\tsub eax, "@ + source_text(s),
        Line::Mul => "\tmul ebx"@,
        Line::Store(v) => "\tmov dword [rel "@.push(v) + "], eax"@,
        Line::Push => "\tpush rax"@,
        Line::Pop => "\tpop rbx"@,
        Line::Ret => "\tret"@,
        Line::DataSection => "section .data"@,
        Line::Declare(v) => seq![v] + ": dd 0"@,
    }
}

/// The text of every line of a unit, in order.
pub open spec fn unit_text(code: Seq<Line>) -> Seq<Seq<char>> {
    Seq::new(code.len(), |i: int| line_text(code[i]))
}

/// The characters of each string, in order.
pub open spec fn texts(lines: Seq<String>) -> Seq<Seq<char>> {
    Seq::new(lines.len(), |i: int| lines[i]@)
}

impl Source {
    /// Appends the source's text to `out`.
    pub fn push_text(&self, out: &mut String)
        ensures
            final(out)@ == old(out)@ + source_text(*self),
    {
        match *self {
            Source::Direct(o) => o.push_text(out),
            Source::Scratch => out.append("ebx"),
        }
    }
}

impl Line {
    /// The line as it is written in the assembly unit.
    pub fn text(&self) -> (s: String)
        ensures
            s@ == line_text(*self),
    {
        let mut s = String::new();
        match *self {
            Line::Global => s.append("global _evaluate"),
            Line::TextSection => s.append("section .text"),
            Line::Entry => s.append("_evaluate:"),
            Line::Load(o) => {
                s.append("\tmov eax, ");
                o.push_text(&mut s);
            },
            Line::Save => s.append("\tmov ebx, eax"),
            Line::LoadScratch(src) => {
                s.append("\tmov ebx, ");
                src.push_text(&mut s);
            },
            Line::Add(src) => {
                s.append("\tadd eax, ");
                src.push_text(&mut s);
            },
            Line::Sub(src) => {
                s.append("\tsub eax, ");
                src.push_text(&mut s);
            },
            Line::Mul => s.append("\tmul ebx"),
            Line::Store(v) => {
                s.append("\tmov dword [rel ");
                crate::operand::push_char(&mut s, v);
                s.append("], eax");
            },
            Line::Push => s.append("\tpush rax"),
            Line::Pop => s.append("\tpop rbx"),
            Line::Ret => s.append("\tret"),
            Line::DataSection => s.append("section .data"),
            Line::Declare(v) => {
                crate::operand::push_char(&mut s, v);
                s.append(": dd 0");
            },
        }
        assert(s@ =~= line_text(*self));
        s
    }
}

/// The text of a whole unit, one string per line.
pub fn render(code: &Vec<Line>) -> (out: Vec<String>)
    ensures
        texts(out@) == unit_text(code@),
{
    let mut out: Vec<String> = Vec::new();
    let mut i: usize = 0;
    while i < code.len()
        invariant
            i <= code@.len(),
            out@.len() == i,
            forall|j: int| 0 <= j < i ==> (#[trigger] out@[j])@ == line_text(code@[j]),
        decreases code@.len() - i,
    {
        out.push(code[i].text());
        i += 1;
    }
    assert(texts(out@) =~= unit_text(code@));
    out
}

} // verus!
