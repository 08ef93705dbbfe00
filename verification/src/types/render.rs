//! The written form of a value.

use crate::text::{decimal, decimal_text};
use crate::types::{Atom, Cons, ConsValue, Sexp};
use vstd::prelude::*;

verus! {

/// Mathematical model of a [`Piece`].
pub enum Part {
    Text(Seq<char>),
    Float(u64),
}

/// A piece of the written form of a value: a run of characters, or a double
/// that is still to be written out. The written form is the pieces put
/// together in order, each double in the host's notation for it.
#[derive(Debug, PartialEq)]
pub enum Piece {
    Text(String),
    Float(u64),
}

impl View for Piece {
    type V = Part;

    open spec fn view(&self) -> Part {
        match self {
            Piece::Text(s) => Part::Text(s@),
            Piece::Float(bits) => Part::Float(*bits),
        }
    }
}

/// The models of the pieces in `pieces`, in order.
pub open spec fn parts(pieces: Seq<Piece>) -> Seq<Part> {
    Seq::new(pieces.len(), |i: int| pieces[i]@)
}

impl Atom {
    /// The written form of an atom: `'()` for the empty list, a symbol's
    /// name, a string between double quotes, `true` or `false`, the decimal
    /// form of an integer, a double left to the host, and a comment after a
    /// semicolon and up to a line end.
    pub open spec fn written(self) -> Seq<Part> {
        match self {
            Atom::Nil => seq![Part::Text("'()"@)],
            Atom::Symbol(s) => seq![Part::Text(s)],
            Atom::Text(s) => seq![Part::Text("\""@), Part::Text(s), Part::Text("\""@)],
            Atom::Boolean(b) => seq![
                Part::Text(
                    if b {
                        "true"@
                    } else {
                        "false"@
                    },
                ),
            ],
            Atom::Int(i) => seq![Part::Text(decimal(i as int))],
            Atom::Float(bits) => seq![Part::Float(bits)],
            Atom::Comment(s) => seq![Part::Text("; "@), Part::Text(s), Part::Text("\n"@)],
        }
    }
}

impl Sexp {
    /// The written form of a value: an atom as `Atom::written` says, a pair
    /// as the list of its elements between brackets with one space between
    /// two of them, and a quoted value after an apostrophe. The walk over
    /// the elements of a list ends at the first tail that is not a pair,
    /// and that tail is not written.
    pub open spec fn written(self) -> Seq<Part>
        decreases self, 1nat,
    {
        match self {
            Sexp::Atom(a) => a.written(),
            Sexp::Pair(head, tail) => seq![Part::Text("("@)] + head.written() + tail.written_rest()
                + seq![Part::Text(")"@)],
            Sexp::Quoted(inner) => seq![Part::Text("'"@)] + inner.written(),
        }
    }

    /// The written form of the elements from `self` on, a space before
    /// each.
    pub open spec fn written_rest(self) -> Seq<Part>
        decreases self, 0nat,
    {
        match self {
            Sexp::Pair(head, tail) => seq![Part::Text(" "@)] + head.written() + tail.written_rest(),
            _ => Seq::empty(),
        }
    }
}

/// Appends a run of characters to the pieces.
fn push_text(out: &mut Vec<Piece>, text: &str)
    ensures
        parts(final(out)@) == parts(old(out)@).push(Part::Text(text@)),
{
    out.push(Piece::Text(text.to_owned()));
    assert(parts(out@) =~= parts(old(out)@).push(Part::Text(text@)));
}

impl ConsValue {
    /// Appends the written form of the atom to `out`.
    fn write(&self, out: &mut Vec<Piece>)
        ensures
            parts(final(out)@) == parts(old(out)@) + self@.written(),
    {
        match self {
            ConsValue::NIL => {
                push_text(out, "'()");
            },
            ConsValue::Symbol(s) => {
                push_text(out, s.as_str());
            },
            ConsValue::String(s) => {
                push_text(out, "\"");
                push_text(out, s.as_str());
                push_text(out, "\"");
            },
            ConsValue::Boolean(b) => {
                if *b {
                    push_text(out, "true");
                } else {
                    push_text(out, "false");
                }
            },
            ConsValue::Int(i) => {
                let text = decimal_text(*i);
                push_text(out, text.as_str());
            },
            ConsValue::Float(bits) => {
                out.push(Piece::Float(*bits));
                assert(parts(out@) =~= parts(old(out)@).push(Part::Float(*bits)));
            },
            ConsValue::Comment(s) => {
                push_text(out, "; ");
                push_text(out, s.as_str());
                push_text(out, "\n");
            },
        }
        assert(parts(out@) =~= parts(old(out)@) + self@.written());
    }

    /// The pieces of the written form of the atom.
    pub fn to_pieces(&self) -> (r: Vec<Piece>)
        ensures
            parts(r@) == self@.written(),
    {
        let mut out: Vec<Piece> = Vec::new();
        assert(parts(out@) =~= Seq::empty());
        self.write(&mut out);
        assert(parts(out@) =~= self@.written());
        out
    }
}

impl Cons {
    /// Appends the written form of the value to `out`.
    fn write(&self, out: &mut Vec<Piece>)
        ensures
            parts(final(out)@) == parts(old(out)@) + self@.written(),
        decreases self, 1nat,
    {
        match self {
            Cons::Value(v) => {
                v.write(out);
            },
            Cons::Cell(head, tail) => {
                push_text(out, "(");
                (**head).write(out);
                (**tail).write_rest(out);
                push_text(out, ")");
                assert(parts(out@) =~= parts(old(out)@) + self@.written());
            },
            Cons::Quoted(inner) => {
                push_text(out, "'");
                (**inner).write(out);
                assert(parts(out@) =~= parts(old(out)@) + self@.written());
            },
        }
    }

    /// Appends the written form of the elements from the value on to `out`,
    /// a space before each.
    fn write_rest(&self, out: &mut Vec<Piece>)
        ensures
            parts(final(out)@) == parts(old(out)@) + self@.written_rest(),
        decreases self, 0nat,
    {
        match self {
            Cons::Cell(head, tail) => {
                push_text(out, " ");
                (**head).write(out);
                (**tail).write_rest(out);
                assert(parts(out@) =~= parts(old(out)@) + self@.written_rest());
            },
            _ => {
                assert(parts(out@) =~= parts(old(out)@) + self@.written_rest());
            },
        }
    }

    /// The pieces of the written form of the value.
    pub fn to_pieces(&self) -> (r: Vec<Piece>)
        ensures
            parts(r@) == self@.written(),
    {
        let mut out: Vec<Piece> = Vec::new();
        assert(parts(out@) =~= Seq::empty());
        self.write(&mut out);
        assert(parts(out@) =~= self@.written());
        out
    }
}

} // verus!
