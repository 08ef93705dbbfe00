//! The value model: atoms, cons cells and quoted values, with the
//! operations on lists.

pub mod function;
pub mod numeric;
pub mod render;
pub mod scope;

use std::sync::Arc;
use vstd::prelude::*;

verus! {

/// Mathematical model of an atomic datum.
///
/// A floating-point datum is held as the 64 bits of its IEEE 754 encoding;
/// the library carries such a datum around and never computes with it.
pub enum Atom {
    Nil,
    Symbol(Seq<char>),
    Text(Seq<char>),
    Boolean(bool),
    Int(i64),
    Float(u64),
    Comment(Seq<char>),
}

/// Mathematical model of a value: an atom, a pair or a quoted value.
pub enum Sexp {
    Atom(Atom),
    Pair(Box<Sexp>, Box<Sexp>),
    Quoted(Box<Sexp>),
}

impl Sexp {
    /// The empty list.
    pub open spec fn nil() -> Sexp {
        Sexp::Atom(Atom::Nil)
    }

    /// The pair of `head` and `tail`.
    pub open spec fn cons(head: Sexp, tail: Sexp) -> Sexp {
        Sexp::Pair(Box::new(head), Box::new(tail))
    }

    /// The symbol called `name`.
    pub open spec fn symbol(name: Seq<char>) -> Sexp {
        Sexp::Atom(Atom::Symbol(name))
    }

    /// The truth value `b`.
    pub open spec fn boolean(b: bool) -> Sexp {
        Sexp::Atom(Atom::Boolean(b))
    }

    /// Whether the value is a symbol.
    pub open spec fn is_symbol(self) -> bool {
        self matches Sexp::Atom(Atom::Symbol(_))
    }

    /// The name of a symbol.
    pub open spec fn name(self) -> Seq<char>
        recommends
            self.is_symbol(),
    {
        match self {
            Sexp::Atom(Atom::Symbol(name)) => name,
            _ => Seq::empty(),
        }
    }

    /// Whether every element of the list is a symbol.
    pub open spec fn all_symbols(self) -> bool
        decreases self,
    {
        match self {
            Sexp::Pair(head, tail) => head.is_symbol() && tail.all_symbols(),
            _ => true,
        }
    }

    /// The head of a pair; the empty list for anything else.
    pub open spec fn car(self) -> Sexp {
        match self {
            Sexp::Pair(head, _) => *head,
            _ => Sexp::nil(),
        }
    }

    /// The tail of a pair; the empty list for anything else.
    pub open spec fn cdr(self) -> Sexp {
        match self {
            Sexp::Pair(_, tail) => *tail,
            _ => Sexp::nil(),
        }
    }

    /// The value with one layer of quoting removed, if it has one.
    pub open spec fn dequote(self) -> Sexp {
        match self {
            Sexp::Quoted(inner) => *inner,
            _ => self,
        }
    }

    /// The proper list of the values `items`, in order.
    pub open spec fn list(items: Seq<Sexp>) -> Sexp
        decreases items.len(),
    {
        if items.len() == 0 {
            Sexp::nil()
        } else {
            Sexp::cons(items[0], Sexp::list(items.drop_first()))
        }
    }

    /// The elements met by walking the chain of tails from `self`. The walk
    /// ends at the first tail that is not a pair, and drops that tail.
    pub open spec fn elements(self) -> Seq<Sexp>
        decreases self,
    {
        match self {
            Sexp::Pair(head, tail) => seq![*head] + tail.elements(),
            _ => Seq::empty(),
        }
    }

    /// Whether the chain of tails from `self` ends in the empty list.
    pub open spec fn is_proper_list(self) -> bool
        decreases self,
    {
        match self {
            Sexp::Pair(_, tail) => tail.is_proper_list(),
            _ => self == Sexp::nil(),
        }
    }
}

/// An atomic datum.
#[derive(Debug, PartialEq)]
pub enum ConsValue {
    NIL,
    Symbol(String),
    String(String),
    Boolean(bool),
    Int(i64),
    /// A double, as the bits of its IEEE 754 encoding.
    Float(u64),
    Comment(String),
}

/// A value: an atom, a cons cell or a quoted value. The children of a cell
/// and of a quote are shared, so that a clone costs no deep copy.
#[derive(Debug, PartialEq)]
pub enum Cons {
    Value(ConsValue),
    Cell(Arc<Cons>, Arc<Cons>),
    Quoted(Arc<Cons>),
}

impl View for ConsValue {
    type V = Atom;

    open spec fn view(&self) -> Atom {
        match self {
            ConsValue::NIL => Atom::Nil,
            ConsValue::Symbol(s) => Atom::Symbol(s@),
            ConsValue::String(s) => Atom::Text(s@),
            ConsValue::Boolean(b) => Atom::Boolean(*b),
            ConsValue::Int(i) => Atom::Int(*i),
            ConsValue::Float(bits) => Atom::Float(*bits),
            ConsValue::Comment(s) => Atom::Comment(s@),
        }
    }
}

impl View for Cons {
    type V = Sexp;

    open spec fn view(&self) -> Sexp
        decreases self,
    {
        match self {
            Cons::Value(v) => Sexp::Atom(v@),
            Cons::Cell(head, tail) => Sexp::cons((**head)@, (**tail)@),
            Cons::Quoted(inner) => Sexp::Quoted(Box::new((**inner)@)),
        }
    }
}

/// The model of a result: that of the value, or that of the error.
pub open spec fn outcome<T: View>(r: Result<T, crate::errors::EvaluatorError>) -> Result<
    T::V,
    crate::errors::Failure,
> {
    match r {
        Ok(value) => Ok(value@),
        Err(e) => Err(e@),
    }
}

/// The models of the values in `items`, in order.
pub open spec fn views(items: Seq<Cons>) -> Seq<Sexp> {
    Seq::new(items.len(), |i: int| items[i]@)
}

/// `Arc::clone` of std: the new pointer shares the allocation of the old
/// one, so both point to the same value.
#[verifier::external_body]
pub(crate) fn share<T>(p: &Arc<T>) -> (r: Arc<T>)
    ensures
        r == *p,
{
    Arc::clone(p)
}

/// Whether two strings hold the same characters.
pub(crate) fn same_text(a: &String, b: &String) -> (r: bool)
    ensures
        r == (a@ == b@),
{
    *a == *b
}

/// Whether two string slices hold the same characters, found by comparing
/// their encodings byte by byte.
pub(crate) fn same_str(a: &str, b: &str) -> (r: bool)
    ensures
        r == (a@ == b@),
{
    let x = a.as_bytes();
    let y = b.as_bytes();
    proof {
        vstd::utf8::encode_utf8_decode_utf8(a@);
        vstd::utf8::encode_utf8_decode_utf8(b@);
    }
    if x.len() != y.len() {
        return false;
    }
    let mut i: usize = 0;
    while i < x.len()
        invariant
            i <= x@.len(),
            x@.len() == y@.len(),
            x@ == vstd::utf8::encode_utf8(a@),
            y@ == vstd::utf8::encode_utf8(b@),
            vstd::utf8::decode_utf8(x@) == a@,
            vstd::utf8::decode_utf8(y@) == b@,
            x@.take(i as int) == y@.take(i as int),
        decreases x@.len() - i,
    {
        if x[i] != y[i] {
            return false;
        }
        assert(x@.take(i + 1) =~= x@.take(i as int).push(x@[i as int]));
        assert(y@.take(i + 1) =~= y@.take(i as int).push(y@[i as int]));
        i += 1;
    }
    assert(x@ =~= x@.take(i as int));
    assert(y@ =~= y@.take(i as int));
    true
}

impl Clone for ConsValue {
    fn clone(&self) -> (r: Self)
        ensures
            r@ == self@,
    {
        match self {
            ConsValue::NIL => ConsValue::NIL,
            ConsValue::Symbol(s) => ConsValue::Symbol(s.clone()),
            ConsValue::String(s) => ConsValue::String(s.clone()),
            ConsValue::Boolean(b) => ConsValue::Boolean(*b),
            ConsValue::Int(i) => ConsValue::Int(*i),
            ConsValue::Float(bits) => ConsValue::Float(*bits),
            ConsValue::Comment(s) => ConsValue::Comment(s.clone()),
        }
    }
}

impl Clone for Cons {
    fn clone(&self) -> (r: Self)
        ensures
            r@ == self@,
    {
        match self {
            Cons::Value(v) => Cons::Value(v.clone()),
            Cons::Cell(head, tail) => Cons::Cell(share(head), share(tail)),
            Cons::Quoted(inner) => Cons::Quoted(share(inner)),
        }
    }
}

impl ConsValue {
    /// Whether the atom is the empty list.
    pub fn is_nil(&self) -> (r: bool)
        ensures
            r == (self@ == Atom::Nil),
    {
        match self {
            ConsValue::NIL => true,
            _ => false,
        }
    }

    /// Whether two atoms are the same datum.
    pub fn same(&self, other: &ConsValue) -> (r: bool)
        ensures
            r == (self@ == other@),
    {
        match (self, other) {
            (ConsValue::NIL, ConsValue::NIL) => true,
            (ConsValue::Symbol(a), ConsValue::Symbol(b)) => same_text(a, b),
            (ConsValue::String(a), ConsValue::String(b)) => same_text(a, b),
            (ConsValue::Boolean(a), ConsValue::Boolean(b)) => *a == *b,
            (ConsValue::Int(a), ConsValue::Int(b)) => *a == *b,
            (ConsValue::Float(a), ConsValue::Float(b)) => *a == *b,
            (ConsValue::Comment(a), ConsValue::Comment(b)) => same_text(a, b),
            _ => false,
        }
    }
}

impl Cons {
    /// The empty list.
    pub fn nil() -> (r: Cons)
        ensures
            r@ == Sexp::nil(),
    {
        Cons::Value(ConsValue::NIL)
    }

    /// The pair of `head` and `tail`.
    pub fn cons(head: Cons, tail: Cons) -> (r: Cons)
        ensures
            r@ == Sexp::cons(head@, tail@),
    {
        Cons::Cell(Arc::new(head), Arc::new(tail))
    }

    /// The value under one layer of quoting; the value itself where it is
    /// not quoted.
    pub fn dequote(&self) -> (r: Cons)
        ensures
            r@ == self@.dequote(),
    {
        match self {
            Cons::Quoted(q) => (**q).clone(),
            _ => self.clone(),
        }
    }

    /// Whether the value is the empty list.
    pub fn is_nil(&self) -> (r: bool)
        ensures
            r == (self@ == Sexp::nil()),
    {
        match self {
            Cons::Value(ConsValue::NIL) => true,
            _ => false,
        }
    }

    /// Whether the value is a cell.
    pub fn is_cell(&self) -> (r: bool)
        ensures
            r == (self@ is Pair),
    {
        match self {
            Cons::Cell(_, _) => true,
            _ => false,
        }
    }

    /// Whether the value is a quoted value.
    pub fn is_quoted(&self) -> (r: bool)
        ensures
            r == (self@ is Quoted),
    {
        match self {
            Cons::Quoted(_) => true,
            _ => false,
        }
    }

    /// The head of a cell; the empty list for anything else.
    pub fn car(&self) -> (r: Cons)
        ensures
            r@ == self@.car(),
    {
        match self {
            Cons::Cell(car, _) => (**car).clone(),
            _ => Cons::Value(ConsValue::NIL),
        }
    }

    /// The tail of a cell; the empty list for anything else.
    pub fn cdr(&self) -> (r: Cons)
        ensures
            r@ == self@.cdr(),
    {
        match self {
            Cons::Cell(_, cdr) => (**cdr).clone(),
            _ => Cons::Value(ConsValue::NIL),
        }
    }

    /// Head and tail of a cell; `None` exactly for what is not a cell.
    pub fn split(&self) -> (r: Option<(Cons, Cons)>)
        ensures
            r is Some <==> self@ is Pair,
            r matches Some(parts) ==> parts.0@ == self@.car() && parts.1@ == self@.cdr(),
    {
        match self {
            Cons::Cell(car, cdr) => Some(((**car).clone(), (**cdr).clone())),
            _ => None,
        }
    }

    /// Whether two values have the same structure and the same atoms.
    pub fn same(&self, other: &Cons) -> (r: bool)
        ensures
            r == (self@ == other@),
        decreases self,
    {
        match (self, other) {
            (Cons::Value(a), Cons::Value(b)) => a.same(b),
            (Cons::Cell(a, x), Cons::Cell(b, y)) => (**a).same(&**b) && (**x).same(&**y),
            (Cons::Quoted(a), Cons::Quoted(b)) => (**a).same(&**b),
            _ => false,
        }
    }

    /// Whether every element of the list is a symbol.
    pub fn symbols_only(&self) -> (r: bool)
        ensures
            r == self@.all_symbols(),
    {
        let mut rest: &Cons = self;
        loop
            invariant
                self@.all_symbols() == rest@.all_symbols(),
            decreases rest,
        {
            match rest {
                Cons::Cell(head, tail) => {
                    assert(rest@.all_symbols() == ((**head)@.is_symbol() && (**tail)@.all_symbols()));
                    match &**head {
                        Cons::Value(ConsValue::Symbol(_)) => {},
                        _ => {
                            return false;
                        },
                    }
                    rest = &**tail;
                },
                _ => {
                    return true;
                },
            }
        }
    }

    /// The proper list of `items`, in order.
    pub fn from_iter(items: Vec<Cons>) -> (r: Cons)
        ensures
            r@ == Sexp::list(views(items@)),
    {
        let ghost all = views(items@);
        let mut stack = items;
        let mut list = Cons::Value(ConsValue::NIL);
        loop
            invariant
                all == views(items@),
                stack@.len() <= all.len(),
                views(stack@) == all.take(stack@.len() as int),
                list@ == Sexp::list(all.skip(stack@.len() as int)),
            decreases stack@.len(),
        {
            let ghost before = stack@;
            match stack.pop() {
                Some(item) => {
                    proof {
                        let n = stack@.len() as int;
                        assert(views(before)[n] == item@);
                        assert(all.skip(n).drop_first() =~= all.skip(n + 1));
                        assert(views(stack@) =~= all.take(n));
                    }
                    list = Cons::Cell(Arc::new(item), Arc::new(list));
                },
                None => {
                    assert(all.skip(0) =~= all);
                    return list;
                },
            }
        }
    }

    /// The elements of a list, in order: those met by walking the chain of
    /// tails, which ends at the first tail that is not a cell.
    pub fn to_vec(&self) -> (r: Vec<Cons>)
        ensures
            views(r@) == self@.elements(),
    {
        let mut out: Vec<Cons> = Vec::new();
        let mut rest: &Cons = self;
        loop
            invariant
                views(out@) + rest@.elements() == self@.elements(),
            decreases rest,
        {
            match rest {
                Cons::Cell(head, tail) => {
                    let ghost before = views(out@);
                    out.push((**head).clone());
                    proof {
                        assert(views(out@) =~= before + seq![(**head)@]);
                        assert(views(out@) + (**tail)@.elements() =~= before + rest@.elements());
                    }
                    rest = &**tail;
                },
                _ => {
                    assert(views(out@) + rest@.elements() =~= views(out@));
                    return out;
                },
            }
        }
    }

    /// A walk over the elements of the list, from its first element.
    pub fn into_iter(self) -> (r: ConsIter)
        ensures
            r@ == self@,
    {
        ConsIter(Arc::new(self))
    }
}

/// A forward walk over the elements of a list. Its model is the part of the
/// list that is still to come.
#[derive(Debug)]
pub struct ConsIter(Arc<Cons>);

impl View for ConsIter {
    type V = Sexp;

    closed spec fn view(&self) -> Sexp {
        (*self.0)@
    }
}

impl ConsIter {
    /// The next element, if the rest of the list is a cell; the walk then
    /// moves on to that cell's tail. At anything but a cell the walk has
    /// ended and stays where it is.
    pub fn next(&mut self) -> (r: Option<Cons>)
        ensures
            r is Some <==> old(self)@ is Pair,
            r matches Some(item) ==> item@ == old(self)@.car(),
            final(self)@ == (if old(self)@ is Pair {
                old(self)@.cdr()
            } else {
                old(self)@
            }),
    {
        let here = share(&self.0);
        match &*here {
            Cons::Cell(car, cdr) => {
                self.0 = share(cdr);
                Some((**car).clone())
            },
            _ => None,
        }
    }
}

/// Building a list from values and walking it gives the values back.
pub proof fn lemma_list_round_trip(items: Seq<Sexp>)
    ensures
        Sexp::list(items).elements() == items,
        Sexp::list(items).is_proper_list(),
    decreases items.len(),
{
    if items.len() == 0 {
        assert(Sexp::list(items).elements() =~= items);
    } else {
        lemma_list_round_trip(items.drop_first());
        assert(seq![items[0]] + items.drop_first() =~= items);
    }
}

/// Walking a proper list and building a list from what was met gives the
/// list back.
pub proof fn lemma_elements_round_trip(list: Sexp)
    requires
        list.is_proper_list(),
    ensures
        Sexp::list(list.elements()) == list,
    decreases list,
{
    match list {
        Sexp::Pair(head, tail) => {
            lemma_elements_round_trip(*tail);
            assert(list.elements().drop_first() =~= tail.elements());
        },
        _ => {},
    }
}

} // verus!
