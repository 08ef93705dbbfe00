//! Numbers, and the requests by which arithmetic and comparisons in
//! floating point are handed to the host.

use crate::errors::{EvaluatorError, Failure};
use crate::types::{Atom, Cons, ConsValue, Sexp};
use vstd::prelude::*;

verus! {

/// The bits of the double `0.0`.
pub const ZERO: u64 = 0;

/// The bits of the double `1.0`.
pub const ONE: u64 = 0x3FF0_0000_0000_0000;

/// The bit that holds the sign of a double.
pub const SIGN: u64 = 0x8000_0000_0000_0000;

/// A number: an integer, or a double held as its 64 bits.
#[derive(Debug, Clone, Copy, PartialEq, Eq, Structural)]
pub enum Number {
    Int(i64),
    Float(u64),
}

/// The number that a value is, if it is one.
pub open spec fn number_of(value: Sexp) -> Option<Number> {
    match value {
        Sexp::Atom(Atom::Int(i)) => Some(Number::Int(i)),
        Sexp::Atom(Atom::Float(bits)) => Some(Number::Float(bits)),
        _ => None,
    }
}

/// Whether every one of `args` is a number.
pub open spec fn all_numbers(args: Seq<Sexp>) -> bool {
    forall|i: int| 0 <= i < args.len() ==> (#[trigger] number_of(args[i])) is Some
}

/// The numbers that `args` are, where all of them are numbers.
pub open spec fn numbers(args: Seq<Sexp>) -> Seq<Number> {
    Seq::new(args.len(), |i: int| number_of(args[i]).unwrap())
}

impl Number {
    /// The number as a value.
    pub open spec fn sexp(self) -> Sexp {
        match self {
            Number::Int(i) => Sexp::Atom(Atom::Int(i)),
            Number::Float(bits) => Sexp::Atom(Atom::Float(bits)),
        }
    }

    /// The number with its sign changed. An integer is negated, the least
    /// one staying as it is; a double has its sign bit flipped.
    pub open spec fn negated(self) -> Number {
        match self {
            Number::Int(i) => Number::Int(
                if i == i64::MIN {
                    i64::MIN
                } else {
                    (-i) as i64
                },
            ),
            Number::Float(bits) => Number::Float(bits ^ SIGN),
        }
    }

    /// The number that a value is, if it is one.
    pub fn of(value: &Cons) -> (r: Option<Number>)
        ensures
            r == number_of(value@),
    {
        match value {
            Cons::Value(ConsValue::Int(i)) => Some(Number::Int(*i)),
            Cons::Value(ConsValue::Float(bits)) => Some(Number::Float(*bits)),
            _ => None,
        }
    }

    /// The number as a value.
    pub fn to_cons(self) -> (r: Cons)
        ensures
            r@ == self.sexp(),
    {
        match self {
            Number::Int(i) => Cons::Value(ConsValue::Int(i)),
            Number::Float(bits) => Cons::Value(ConsValue::Float(bits)),
        }
    }

    /// The number with its sign changed.
    pub fn negate(self) -> (r: Number)
        ensures
            r == self.negated(),
    {
        match self {
            Number::Int(i) => Number::Int(
                if i == i64::MIN {
                    i64::MIN
                } else {
                    -i
                },
            ),
            Number::Float(bits) => Number::Float(bits ^ SIGN),
        }
    }
}

/// The numbers that `args` are; `None` where one of them is no number.
pub fn collect_numbers(args: &Vec<Cons>) -> (r: Option<Vec<Number>>)
    ensures
        r is Some <==> all_numbers(crate::types::views(args@)),
        r matches Some(found) ==> found@ == numbers(crate::types::views(args@)),
{
    let ghost models = crate::types::views(args@);
    let mut found: Vec<Number> = Vec::new();
    let mut i: usize = 0;
    while i < args.len()
        invariant
            i <= args@.len(),
            models == crate::types::views(args@),
            found@.len() == i,
            forall|j: int| 0 <= j < i ==> (#[trigger] number_of(models[j])) == Some(found@[j]),
        decreases args@.len() - i,
    {
        match Number::of(&args[i]) {
            Some(n) => found.push(n),
            None => {
                assert(number_of(models[i as int]) is None);
                return None;
            },
        }
        i += 1;
    }
    assert(found@ =~= numbers(models));
    Some(found)
}

/// An arithmetic operation on two doubles.
#[derive(Debug, Clone, Copy, PartialEq, Eq, Structural)]
pub enum FloatOp {
    Add,
    Sub,
    Mul,
    Div,
    /// The remainder of the division, with the sign of the dividend.
    Rem,
    /// The accumulator raised to the power of the operand.
    Pow,
}

/// What becomes of the accumulator when the steps are done.
#[derive(Debug, Clone, Copy, PartialEq, Eq, Structural)]
pub enum Finish {
    /// An integer where the accumulator has no fractional part, the
    /// accumulator itself where it has one.
    Narrow,
    /// The accumulator cut down to an integer.
    Truncate,
    /// The accumulator itself.
    Keep,
}

/// One step of an accumulation: the accumulator becomes what `op` makes of
/// the accumulator and the operand, an integer operand being converted to a
/// double first.
#[derive(Debug, Clone, Copy, PartialEq, Eq, Structural)]
pub struct FloatStep {
    pub op: FloatOp,
    pub operand: Number,
}

/// Mathematical model of a [`FloatJob`].
pub struct Computation {
    pub seed: u64,
    pub steps: Seq<FloatStep>,
    pub finish: Finish,
}

/// An accumulation in floating point, for the host to carry out: start from
/// `seed`, take the steps in order, and finish as `finish` says.
#[derive(Debug, PartialEq)]
pub struct FloatJob {
    pub seed: u64,
    pub steps: Vec<FloatStep>,
    pub finish: Finish,
}

impl View for FloatJob {
    type V = Computation;

    open spec fn view(&self) -> Computation {
        Computation { seed: self.seed, steps: self.steps@, finish: self.finish }
    }
}

/// The steps of a fold over `operands`: `first` for the first operand,
/// `rest` for every later one.
pub open spec fn fold_steps(first: FloatOp, rest: FloatOp, operands: Seq<Number>) -> Seq<
    FloatStep,
> {
    Seq::new(
        operands.len(),
        |i: int|
            FloatStep {
                op: if i == 0 {
                    first
                } else {
                    rest
                },
                operand: operands[i],
            },
    )
}

impl FloatJob {
    /// The fold over `operands` that starts from `seed`.
    pub fn fold(seed: u64, first: FloatOp, rest: FloatOp, operands: &Vec<Number>, finish: Finish)
        -> (r: FloatJob)
        ensures
            r@ == (Computation { seed, steps: fold_steps(first, rest, operands@), finish }),
    {
        let mut steps: Vec<FloatStep> = Vec::new();
        let mut i: usize = 0;
        while i < operands.len()
            invariant
                i <= operands@.len(),
                steps@ == fold_steps(first, rest, operands@).take(i as int),
            decreases operands@.len() - i,
        {
            let op = if i == 0 {
                first
            } else {
                rest
            };
            steps.push(FloatStep { op, operand: operands[i] });
            assert(steps@ =~= fold_steps(first, rest, operands@).take(i + 1));
            i += 1;
        }
        assert(steps@ =~= fold_steps(first, rest, operands@));
        FloatJob { seed, steps, finish }
    }

    /// The value of the call, given the number that the host made of the
    /// job.
    pub fn conclude(&self, reply: Number) -> (r: Cons)
        ensures
            r@ == reply.sexp(),
    {
        reply.to_cons()
    }
}

/// An order between two numbers.
#[derive(Debug, Clone, Copy, PartialEq, Eq, Structural)]
pub enum Relation {
    Less,
    LessOrEqual,
    Greater,
    GreaterOrEqual,
}

impl Relation {
    /// Whether the relation holds between two integers.
    pub open spec fn holds(self, left: i64, right: i64) -> bool {
        match self {
            Relation::Less => left < right,
            Relation::LessOrEqual => left <= right,
            Relation::Greater => left > right,
            Relation::GreaterOrEqual => left >= right,
        }
    }

    /// Whether the relation holds between two integers.
    pub fn test(self, left: i64, right: i64) -> (r: bool)
        ensures
            r == self.holds(left, right),
    {
        match self {
            Relation::Less => left < right,
            Relation::LessOrEqual => left <= right,
            Relation::Greater => left > right,
            Relation::GreaterOrEqual => left >= right,
        }
    }
}

/// Mathematical model of a [`CompareJob`].
pub struct Comparison {
    pub relation: Relation,
    pub pairs: Seq<(Number, Number)>,
    pub otherwise: Result<bool, Failure>,
}

/// A chain of comparisons of which some need floating point, for the host
/// to look at: does `relation` hold of one of the `pairs`, an integer being
/// converted to a double first? If it does, the chain is broken and the
/// call's value is `false`; if not, the call ends as `otherwise` says.
#[derive(Debug, PartialEq)]
pub struct CompareJob {
    pub relation: Relation,
    pub pairs: Vec<(Number, Number)>,
    pub otherwise: Result<bool, EvaluatorError>,
}

/// The model of a truth value or the error in its place.
pub open spec fn verdict_view(verdict: Result<bool, EvaluatorError>) -> Result<bool, Failure> {
    match verdict {
        Ok(b) => Ok(b),
        Err(e) => Err(e@),
    }
}

impl View for CompareJob {
    type V = Comparison;

    open spec fn view(&self) -> Comparison {
        Comparison {
            relation: self.relation,
            pairs: self.pairs@,
            otherwise: verdict_view(self.otherwise),
        }
    }
}

/// How a comparison ends, given whether the host found the relation to
/// hold of one of the pairs: with `false` if it did, and as `otherwise`
/// says if it did not.
pub open spec fn concluded(otherwise: Result<bool, Failure>, found: bool) -> Result<Sexp, Failure> {
    if found {
        Ok(Sexp::boolean(false))
    } else {
        match otherwise {
            Ok(b) => Ok(Sexp::boolean(b)),
            Err(e) => Err(e),
        }
    }
}

/// How a comparison ends, given whether the host found the relation to
/// hold of one of the pairs.
pub fn conclude(otherwise: &Result<bool, EvaluatorError>, found: bool) -> (r: Result<
    Cons,
    EvaluatorError,
>)
    ensures
        crate::types::outcome(r) == concluded(verdict_view(*otherwise), found),
{
    if found {
        Ok(Cons::Value(ConsValue::Boolean(false)))
    } else {
        match otherwise {
            Ok(b) => Ok(Cons::Value(ConsValue::Boolean(*b))),
            Err(e) => Err(e.clone()),
        }
    }
}

impl CompareJob {
    /// How the call ends, given whether the host found the relation to hold
    /// of one of the pairs.
    pub fn conclude(&self, found: bool) -> (r: Result<Cons, EvaluatorError>)
        ensures
            crate::types::outcome(r) == concluded(self@.otherwise, found),
    {
        conclude(&self.otherwise, found)
    }
}

} // verus!
