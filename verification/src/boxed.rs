//! Values that borrow their text from the source: cells that own their
//! parts, integers, truth values and pieces of text.

use crate::text::{decimal, decimal_text};
use vstd::prelude::*;
use vstd::string::StringExecFns;

verus! {

/// Mathematical model of a [`BoxrType`].
pub enum Boxed {
    Nil,
    Bool(bool),
    Int(i64),
    Str(Seq<char>),
    Cell(Box<Boxed>, Box<Boxed>),
}

/// A value over borrowed text: the empty list, a truth value, an integer,
/// a piece of the source text, or a cell that owns its two parts.
#[derive(Debug, PartialEq, Eq)]
pub enum BoxrType<'a> {
    NIL,
    BOOL(bool),
    INT(i64),
    STR(&'a str),
    CELL(Box<BoxrType<'a>>, Box<BoxrType<'a>>),
}

impl<'a> View for BoxrType<'a> {
    type V = Boxed;

    open spec fn view(&self) -> Boxed
        decreases self,
    {
        match self {
            BoxrType::NIL => Boxed::Nil,
            BoxrType::BOOL(b) => Boxed::Bool(*b),
            BoxrType::INT(i) => Boxed::Int(*i),
            BoxrType::STR(s) => Boxed::Str(s@),
            BoxrType::CELL(car, cdr) => Boxed::Cell(Box::new((**car)@), Box::new((**cdr)@)),
        }
    }
}

impl Boxed {
    /// The proper list of the values `items`, in order.
    pub open spec fn list(items: Seq<Boxed>) -> Boxed
        decreases items.len(),
    {
        if items.len() == 0 {
            Boxed::Nil
        } else {
            Boxed::Cell(Box::new(items[0]), Box::new(Boxed::list(items.drop_first())))
        }
    }

    /// The elements met by walking the chain of tails from `self`, up to
    /// the first tail that is not a cell.
    pub open spec fn elements(self) -> Seq<Boxed>
        decreases self,
    {
        match self {
            Boxed::Cell(car, cdr) => seq![*car] + cdr.elements(),
            _ => Seq::empty(),
        }
    }

    /// Whether the value counts as true: a truth value is itself, the empty
    /// list, zero and the empty text are false, anything else is true.
    pub open spec fn truth(self) -> bool {
        match self {
            Boxed::Bool(b) => b,
            Boxed::Nil => false,
            Boxed::Cell(_, _) => true,
            Boxed::Int(i) => i != 0,
            Boxed::Str(s) => s.len() != 0,
        }
    }

    /// The written form of the value: `'()` for the empty list, `#t` and
    /// `#f` for the truth values, the decimal form of an integer, the text
    /// itself, and for a cell its elements between brackets, one space
    /// between two of them.
    pub open spec fn shown(self) -> Seq<char>
        decreases self, 1nat,
    {
        match self {
            Boxed::Nil => "'()"@,
            Boxed::Bool(b) => if b {
                "#t"@
            } else {
                "#f"@
            },
            Boxed::Int(i) => decimal(i as int),
            Boxed::Str(s) => s,
            Boxed::Cell(car, cdr) => "("@ + car.shown() + cdr.shown_rest() + ")"@,
        }
    }

    /// The written form of the elements from `self` on, a space before
    /// each.
    pub open spec fn shown_rest(self) -> Seq<char>
        decreases self, 0nat,
    {
        match self {
            Boxed::Cell(car, cdr) => " "@ + car.shown() + cdr.shown_rest(),
            _ => Seq::empty(),
        }
    }

    /// The form of the value that lays its structure open: a cell is
    /// written as `(cons head tail)` and the empty list as `NIL`.
    pub open spec fn inspected(self) -> Seq<char>
        decreases self,
    {
        match self {
            Boxed::Nil => "NIL"@,
            Boxed::Bool(b) => if b {
                "#t"@
            } else {
                "#f"@
            },
            Boxed::Int(i) => decimal(i as int),
            Boxed::Str(s) => s,
            Boxed::Cell(car, cdr) => "(cons "@ + car.inspected() + " "@ + cdr.inspected() + ")"@,
        }
    }
}

/// The models of the values in `items`, in order.
pub open spec fn boxed_views(items: Seq<BoxrType>) -> Seq<Boxed> {
    Seq::new(items.len(), |i: int| items[i]@)
}

impl<'a> Clone for BoxrType<'a> {
    fn clone(&self) -> (r: Self)
        ensures
            r@ == self@,
        decreases self,
    {
        match self {
            BoxrType::NIL => BoxrType::NIL,
            BoxrType::BOOL(b) => BoxrType::BOOL(*b),
            BoxrType::INT(i) => BoxrType::INT(*i),
            BoxrType::STR(s) => BoxrType::STR(*s),
            BoxrType::CELL(car, cdr) => BoxrType::CELL(
                Box::new((**car).clone()),
                Box::new((**cdr).clone()),
            ),
        }
    }
}

impl<'a> BoxrType<'a> {
    /// The empty list.
    pub fn nil() -> (r: BoxrType<'a>)
        ensures
            r@ == Boxed::Nil,
    {
        BoxrType::NIL
    }

    /// The cell of `car` and `cdr`.
    pub fn cons_cell(car: BoxrType<'a>, cdr: BoxrType<'a>) -> (r: BoxrType<'a>)
        ensures
            r@ == Boxed::Cell(Box::new(car@), Box::new(cdr@)),
    {
        BoxrType::CELL(Box::new(car), Box::new(cdr))
    }

    /// The head of a cell; `None` for what is not a cell.
    pub fn car(self) -> (r: Option<BoxrType<'a>>)
        ensures
            match self@ {
                Boxed::Cell(car, _) => r is Some && r.unwrap()@ == *car,
                _ => r is None,
            },
    {
        match self {
            BoxrType::CELL(car, _) => Some(*car),
            _ => None,
        }
    }

    /// The tail of a cell; `None` for what is not a cell.
    pub fn cdr(self) -> (r: Option<BoxrType<'a>>)
        ensures
            match self@ {
                Boxed::Cell(_, cdr) => r is Some && r.unwrap()@ == *cdr,
                _ => r is None,
            },
    {
        match self {
            BoxrType::CELL(_, cdr) => Some(*cdr),
            _ => None,
        }
    }

    /// Head and tail of a cell; `None` for what is not a cell.
    pub fn decompose(self) -> (r: Option<(BoxrType<'a>, BoxrType<'a>)>)
        ensures
            match self@ {
                Boxed::Cell(car, cdr) => r is Some && r.unwrap().0@ == *car && r.unwrap().1@
                    == *cdr,
                _ => r is None,
            },
    {
        if let BoxrType::CELL(car, cdr) = self {
            Some((*car, *cdr))
        } else {
            None
        }
    }

    /// Copies of the head and the tail of a cell; `None` for what is not a
    /// cell. The value stays as it is.
    pub fn top(&mut self) -> (r: Option<(BoxrType<'a>, BoxrType<'a>)>)
        ensures
            final(self)@ == old(self)@,
            match old(self)@ {
                Boxed::Cell(car, cdr) => r is Some && r.unwrap().0@ == *car && r.unwrap().1@
                    == *cdr,
                _ => r is None,
            },
    {
        match self {
            BoxrType::CELL(car, cdr) => Some(((**car).clone(), (**cdr).clone())),
            _ => None,
        }
    }

    /// Whether the value counts as true.
    pub fn bool(&self) -> (r: bool)
        ensures
            r == self@.truth(),
    {
        match self {
            BoxrType::BOOL(b) => *b,
            BoxrType::NIL => false,
            BoxrType::CELL(_, _) => true,
            BoxrType::INT(i) => *i != 0,
            BoxrType::STR(s) => !s.is_empty(),
        }
    }

    /// The proper list of `items`, in order.
    pub fn from_iter(items: Vec<BoxrType<'a>>) -> (r: BoxrType<'a>)
        ensures
            r@ == Boxed::list(boxed_views(items@)),
    {
        let ghost all = boxed_views(items@);
        let mut stack = items;
        let mut current = BoxrType::NIL;
        loop
            invariant
                all == boxed_views(items@),
                stack@.len() <= all.len(),
                boxed_views(stack@) == all.take(stack@.len() as int),
                current@ == Boxed::list(all.skip(stack@.len() as int)),
            decreases stack@.len(),
        {
            let ghost before = stack@;
            match stack.pop() {
                Some(item) => {
                    proof {
                        let n = stack@.len() as int;
                        assert(boxed_views(before)[n] == item@);
                        assert(all.skip(n).drop_first() =~= all.skip(n + 1));
                        assert(boxed_views(stack@) =~= all.take(n));
                    }
                    current = BoxrType::cons_cell(item, current);
                },
                None => {
                    assert(all.skip(0) =~= all);
                    return current;
                },
            }
        }
    }

    /// The head of a cell, the value itself moving on to the cell's tail;
    /// `None` for what is not a cell, which stays as it is.
    pub fn next(&mut self) -> (r: Option<BoxrType<'a>>)
        ensures
            match old(self)@ {
                Boxed::Cell(car, cdr) => r is Some && r.unwrap()@ == *car && final(self)@ == *cdr,
                _ => r is None && final(self)@ == old(self)@,
            },
    {
        match self.top() {
            Some((car, cdr)) => {
                *self = cdr;
                Some(car)
            },
            None => None,
        }
    }

    /// Appends the written form of the value to `out`.
    fn write(&self, out: &mut String)
        ensures
            final(out)@ == old(out)@ + self@.shown(),
        decreases self, 1nat,
    {
        match self {
            BoxrType::NIL => out.append("'()"),
            BoxrType::BOOL(b) => {
                if *b {
                    out.append("#t")
                } else {
                    out.append("#f")
                }
            },
            BoxrType::INT(i) => {
                let text = decimal_text(*i);
                out.append(text.as_str());
            },
            BoxrType::STR(s) => out.append(s),
            BoxrType::CELL(car, cdr) => {
                out.append("(");
                (**car).write(out);
                (**cdr).write_rest(out);
                out.append(")");
                assert(out@ =~= old(out)@ + self@.shown());
            },
        }
    }

    /// Appends the written form of the elements from the value on to `out`,
    /// a space before each.
    fn write_rest(&self, out: &mut String)
        ensures
            final(out)@ == old(out)@ + self@.shown_rest(),
        decreases self, 0nat,
    {
        match self {
            BoxrType::CELL(car, cdr) => {
                out.append(" ");
                (**car).write(out);
                (**cdr).write_rest(out);
                assert(out@ =~= old(out)@ + self@.shown_rest());
            },
            _ => {
                assert(out@ =~= old(out)@ + self@.shown_rest());
            },
        }
    }

    /// Appends the form of the value that lays its structure open to `out`.
    fn write_inspected(&self, out: &mut String)
        ensures
            final(out)@ == old(out)@ + self@.inspected(),
        decreases self,
    {
        match self {
            BoxrType::NIL => out.append("NIL"),
            BoxrType::BOOL(b) => {
                if *b {
                    out.append("#t")
                } else {
                    out.append("#f")
                }
            },
            BoxrType::INT(i) => {
                let text = decimal_text(*i);
                out.append(text.as_str());
            },
            BoxrType::STR(s) => out.append(s),
            BoxrType::CELL(car, cdr) => {
                out.append("(cons ");
                (**car).write_inspected(out);
                out.append(" ");
                (**cdr).write_inspected(out);
                out.append(")");
                assert(out@ =~= old(out)@ + self@.inspected());
            },
        }
    }

    /// The written form of the value.
    pub fn to_text(&self) -> (r: String)
        ensures
            r@ == self@.shown(),
    {
        let mut out = String::new();
        self.write(&mut out);
        assert(out@ =~= self@.shown());
        out
    }

    /// The form of the value that lays its structure open.
    pub fn to_debug_text(&self) -> (r: String)
        ensures
            r@ == self@.inspected(),
    {
        let mut out = String::new();
        self.write_inspected(&mut out);
        assert(out@ =~= self@.inspected());
        out
    }
}

impl<'a> From<bool> for BoxrType<'a> {
    fn from(value: bool) -> (r: Self) {
        BoxrType::BOOL(value)
    }
}

impl<'a> vstd::std_specs::convert::FromSpecImpl<bool> for BoxrType<'a> {
    open spec fn obeys_from_spec() -> bool {
        true
    }

    open spec fn from_spec(value: bool) -> Self {
        BoxrType::BOOL(value)
    }
}

impl<'a> From<i64> for BoxrType<'a> {
    fn from(value: i64) -> (r: Self) {
        BoxrType::INT(value)
    }
}

impl<'a> vstd::std_specs::convert::FromSpecImpl<i64> for BoxrType<'a> {
    open spec fn obeys_from_spec() -> bool {
        true
    }

    open spec fn from_spec(value: i64) -> Self {
        BoxrType::INT(value)
    }
}

impl<'a> From<&'a str> for BoxrType<'a> {
    fn from(value: &'a str) -> (r: Self) {
        BoxrType::STR(value)
    }
}

impl<'a> vstd::std_specs::convert::FromSpecImpl<&'a str> for BoxrType<'a> {
    open spec fn obeys_from_spec() -> bool {
        true
    }

    open spec fn from_spec(value: &'a str) -> Self {
        BoxrType::STR(value)
    }
}

} // verus!
