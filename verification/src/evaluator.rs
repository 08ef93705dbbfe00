//! The evaluator: resolution of symbols, dispatch of calls and the
//! invocation of closures, as a machine that takes one step at a time.

use crate::errors::{EvaluatorError, Failure};
use crate::types::function::{
    builtin_function, builtin_macro, Applied, BuiltinFunction, BuiltinMacro, BuiltinReturn, Expanded,
    Lambda, MacroReturn, UserFunction,
};
use crate::types::numeric::{
    conclude, concluded, verdict_view, CompareJob, Comparison, Computation, FloatJob, Number,
};
use crate::types::scope::{LexicalVarStorage, Scope};
use crate::types::{outcome, views, Atom, Cons, ConsValue, Sexp};
use vstd::prelude::*;

verus! {

/// What a form evaluates to: a plain value, or a handle on something that
/// can be called.
#[derive(Debug)]
pub enum EvalReturnType {
    CONS(Cons),
    FUNC(BuiltinFunction),
    MACRO(BuiltinMacro),
    USER(UserFunction),
}

/// Mathematical model of an [`EvalReturnType`].
pub enum Evaluated {
    Data(Sexp),
    Builtin(BuiltinFunction),
    Macro(BuiltinMacro),
    Closure(Lambda),
}

impl View for EvalReturnType {
    type V = Evaluated;

    open spec fn view(&self) -> Evaluated {
        match self {
            EvalReturnType::CONS(c) => Evaluated::Data(c@),
            EvalReturnType::FUNC(f) => Evaluated::Builtin(*f),
            EvalReturnType::MACRO(m) => Evaluated::Macro(*m),
            EvalReturnType::USER(u) => Evaluated::Closure(u@),
        }
    }
}

impl Clone for EvalReturnType {
    fn clone(&self) -> (r: Self)
        ensures
            r@ == self@,
    {
        match self {
            EvalReturnType::CONS(c) => EvalReturnType::CONS(c.clone()),
            EvalReturnType::FUNC(f) => EvalReturnType::FUNC(*f),
            EvalReturnType::MACRO(m) => EvalReturnType::MACRO(*m),
            EvalReturnType::USER(u) => EvalReturnType::USER(u.clone()),
        }
    }
}

/// The models of the results in `items`, in order.
pub open spec fn results(items: Seq<EvalReturnType>) -> Seq<Evaluated> {
    Seq::new(items.len(), |i: int| items[i]@)
}

impl Evaluated {
    /// The result as a plain value: a value is itself, a closure is the
    /// list `(lambda args body)`, and a builtin handle is an error.
    pub open spec fn plain(self) -> Result<Sexp, Failure> {
        match self {
            Evaluated::Data(v) => Ok(v),
            Evaluated::Closure(c) => Ok(c.to_sexp()),
            Evaluated::Builtin(_) => Err(
                Failure::ReturnedNonCons("Function returned non-cons value"@),
            ),
            Evaluated::Macro(_) => Err(Failure::ReturnedNonCons("Macro returned non-cons value"@)),
        }
    }
}

/// The results as plain values, or the error of the first that has none.
pub open spec fn plain_all(items: Seq<Evaluated>) -> Result<Seq<Sexp>, Failure>
    decreases items.len(),
{
    if items.len() == 0 {
        Ok(Seq::empty())
    } else {
        match plain_all(items.drop_last()) {
            Err(e) => Err(e),
            Ok(front) => match items.last().plain() {
                Ok(v) => Ok(front.push(v)),
                Err(e) => Err(e),
            },
        }
    }
}

impl EvalReturnType {
    /// The result as a plain value.
    pub fn to_plain(&self) -> (r: Result<Cons, EvaluatorError>)
        ensures
            outcome(r) == self@.plain(),
    {
        match self {
            EvalReturnType::CONS(c) => Ok(c.clone()),
            EvalReturnType::USER(u) => Ok(u.to_cons()),
            EvalReturnType::FUNC(_) => Err(
                EvaluatorError::ReturnedNonCons("Function returned non-cons value".to_owned()),
            ),
            EvalReturnType::MACRO(_) => Err(
                EvaluatorError::ReturnedNonCons("Macro returned non-cons value".to_owned()),
            ),
        }
    }
}

/// The results as plain values, or the error of the first that has none.
fn to_plain_all(items: &Vec<EvalReturnType>) -> (r: Result<Vec<Cons>, EvaluatorError>)
    ensures
        match r {
            Ok(values) => plain_all(results(items@)) == Ok::<Seq<Sexp>, Failure>(views(values@)),
            Err(e) => plain_all(results(items@)) == Err::<Seq<Sexp>, Failure>(e@),
        },
{
    let ghost all = results(items@);
    let mut values: Vec<Cons> = Vec::new();
    let mut i: usize = 0;
    assert(all.take(0) =~= Seq::empty());
    assert(views(values@) =~= Seq::empty());
    while i < items.len()
        invariant
            i <= items@.len(),
            all == results(items@),
            plain_all(all.take(i as int)) == Ok::<Seq<Sexp>, Failure>(views(values@)),
        decreases items@.len() - i,
    {
        assert(all.take(i + 1).drop_last() =~= all.take(i as int));
        let ghost before = views(values@);
        match items[i].to_plain() {
            Ok(v) => {
                values.push(v);
                assert(views(values@) =~= before.push(v@));
            },
            Err(e) => {
                proof {
                    lemma_plain_all_error(all, i + 1);
                }
                return Err(e);
            },
        }
        i += 1;
    }
    assert(all.take(i as int) =~= all);
    Ok(values)
}

/// An error among the first `upto` results is the error of them all.
proof fn lemma_plain_all_error(items: Seq<Evaluated>, upto: int)
    requires
        0 <= upto <= items.len(),
        plain_all(items.take(upto)) is Err,
    ensures
        plain_all(items) == plain_all(items.take(upto)),
    decreases items.len() - upto,
{
    if upto < items.len() {
        assert(items.take(upto + 1).drop_last() =~= items.take(upto));
        lemma_plain_all_error(items, upto + 1);
    } else {
        assert(items.take(upto) =~= items);
    }
}

/// What a symbol stands for in an environment. The tables are asked in a
/// fixed order: the eager primitives, the special forms, the functions of
/// the environment, its variables. The first that knows the name decides.
pub open spec fn resolve(name: Seq<char>, env: Scope) -> Option<Evaluated> {
    if let Some(f) = builtin_function(name) {
        Some(Evaluated::Builtin(f))
    } else if let Some(m) = builtin_macro(name) {
        Some(Evaluated::Macro(m))
    } else if let Some(c) = env.lookup_func(name) {
        Some(Evaluated::Closure(c))
    } else if let Some(v) = env.lookup(name) {
        Some(Evaluated::Data(v))
    } else {
        None
    }
}

/// What the symbol `name` stands for in the environment `env`; `None` where
/// no table knows it.
pub fn lookup(name: &str, env: &LexicalVarStorage) -> (r: Option<EvalReturnType>)
    ensures
        r is Some <==> resolve(name@, env@) is Some,
        r matches Some(found) ==> resolve(name@, env@) == Some(found@),
{
    if let Some(f) = BuiltinFunction::named(name) {
        Some(EvalReturnType::FUNC(f))
    } else if let Some(m) = BuiltinMacro::named(name) {
        Some(EvalReturnType::MACRO(m))
    } else if let Some(c) = env.get_func(name) {
        Some(EvalReturnType::USER(c.clone()))
    } else if let Some(v) = env.get(name) {
        Some(EvalReturnType::CONS(v.clone()))
    } else {
        None
    }
}

/// What is called in a call form.
#[derive(Debug)]
pub enum Callee {
    Builtin(BuiltinFunction),
    User(UserFunction),
}

/// Mathematical model of a [`Callee`].
pub enum Target {
    Builtin(BuiltinFunction),
    Closure(Lambda),
}

impl View for Callee {
    type V = Target;

    open spec fn view(&self) -> Target {
        match self {
            Callee::Builtin(f) => Target::Builtin(*f),
            Callee::User(u) => Target::Closure(u@),
        }
    }
}

/// The model of an environment that may be absent.
pub open spec fn scope_view(scope: Option<LexicalVarStorage>) -> Option<Scope> {
    match scope {
        Some(s) => Some(s@),
        None => None,
    }
}

/// A piece of work that waits for the value of the form under evaluation.
#[derive(Debug)]
pub enum Frame {
    /// A call whose arguments are being evaluated, each in a fork of the
    /// environment of the call.
    Args { callee: Callee, rest: Cons, done: Vec<EvalReturnType>, saved: Option<LexicalVarStorage> },
    /// A `define` that waits for the value to bind.
    Define { name: String },
    /// A closure body of which a form is being evaluated.
    Body { rest: Cons, saved: Option<LexicalVarStorage> },
}

/// Mathematical model of a [`Frame`].
pub enum Pending {
    /// `rest` holds the argument forms after the one under evaluation,
    /// `done` the results of those before it, and `saved` the environment
    /// of the call.
    Args { callee: Target, rest: Sexp, done: Seq<Evaluated>, saved: Option<Scope> },
    /// `name` is the name to bind.
    Define { name: Seq<char> },
    /// `rest` holds the body forms after the one under evaluation, and
    /// `saved` the environment of the caller.
    Body { rest: Sexp, saved: Option<Scope> },
}

impl View for Frame {
    type V = Pending;

    open spec fn view(&self) -> Pending {
        match self {
            Frame::Args { callee, rest, done, saved } => Pending::Args {
                callee: callee@,
                rest: rest@,
                done: results(done@),
                saved: scope_view(*saved),
            },
            Frame::Define { name } => Pending::Define { name: name@ },
            Frame::Body { rest, saved } => Pending::Body { rest: rest@, saved: scope_view(*saved) },
        }
    }
}

/// The models of the frames in `frames`, the innermost last.
pub open spec fn pendings(frames: Seq<Frame>) -> Seq<Pending> {
    Seq::new(frames.len(), |i: int| frames[i]@)
}

/// What the machine does next.
#[derive(Debug)]
pub enum Control {
    /// Evaluate the form.
    Eval(Cons),
    /// Hand the result to the innermost frame.
    Return(EvalReturnType),
    /// Call the callee on the evaluated arguments.
    Call(Callee, Vec<EvalReturnType>),
    /// Take the number that the host made of an accumulation.
    AwaitNumber,
    /// Take the host's answer to a comparison; the job is kept to conclude
    /// from it.
    AwaitTruth(Result<bool, EvaluatorError>),
    /// Nothing: the evaluation is over.
    Halted,
}

/// Mathematical model of a [`Control`].
pub enum Focus {
    Eval(Sexp),
    Return(Evaluated),
    Call(Target, Seq<Evaluated>),
    AwaitNumber,
    AwaitTruth(Result<bool, Failure>),
    Halted,
}

impl View for Control {
    type V = Focus;

    open spec fn view(&self) -> Focus {
        match self {
            Control::Eval(expr) => Focus::Eval(expr@),
            Control::Return(value) => Focus::Return(value@),
            Control::Call(callee, args) => Focus::Call(callee@, results(args@)),
            Control::AwaitNumber => Focus::AwaitNumber,
            Control::AwaitTruth(otherwise) => Focus::AwaitTruth(verdict_view(*otherwise)),
            Control::Halted => Focus::Halted,
        }
    }
}

/// What the host is asked to do after a step.
#[derive(Debug)]
pub enum Action {
    /// Nothing: take the next step.
    Continue,
    /// Nothing more: the evaluation is over, with this result.
    Done(Result<Cons, EvaluatorError>),
    /// Carry out the accumulation and reply with the number.
    Compute(FloatJob),
    /// Look at the comparison and reply with the answer.
    Compare(CompareJob),
    /// Print the values, each followed by a line end if the flag is set.
    Print(Vec<Cons>, bool),
}

/// Mathematical model of an [`Action`].
pub enum Effect {
    Continue,
    Done(Result<Sexp, Failure>),
    Compute(Computation),
    Compare(Comparison),
    Print(Seq<Sexp>, bool),
}

impl View for Action {
    type V = Effect;

    open spec fn view(&self) -> Effect {
        match self {
            Action::Continue => Effect::Continue,
            Action::Done(r) => Effect::Done(outcome(*r)),
            Action::Compute(job) => Effect::Compute(job@),
            Action::Compare(job) => Effect::Compare(job@),
            Action::Print(values, newline) => Effect::Print(views(values@), *newline),
        }
    }
}

/// What the host hands to a step.
#[derive(Debug, Clone, Copy, PartialEq, Eq, Structural)]
pub enum Reply {
    /// Nothing: the step before asked for nothing.
    Nothing,
    /// The number made of the accumulation that the step before asked for.
    Number(Number),
    /// Whether the relation holds of one of the pairs of the comparison
    /// that the step before asked about.
    Truth(bool),
}

/// Mathematical model of a [`Machine`]: what it does next, the work that
/// waits for that, the innermost frame last, and the environment it works
/// in, `None` standing for the global one.
pub struct State {
    pub focus: Focus,
    pub pending: Seq<Pending>,
    pub scope: Option<Scope>,
}

/// The environment that `scope` stands for.
pub open spec fn current(scope: Option<Scope>, global: Scope) -> Scope {
    match scope {
        Some(s) => s,
        None => global,
    }
}

/// The end of an evaluation in an error.
pub open spec fn fail(global: Scope, e: Failure) -> (State, Scope, Effect) {
    (State::halted(), global, Effect::Done(Err(e)))
}

/// The start of a call of `callee` on the argument forms `tail`: the first
/// form is evaluated in a fork of the environment of the call; without a
/// form the call is made at once.
pub open spec fn begin_call(
    callee: Target,
    tail: Sexp,
    pending: Seq<Pending>,
    scope: Option<Scope>,
    global: Scope,
) -> (State, Scope, Effect) {
    match tail {
        Sexp::Pair(first, rest) => (
            State {
                focus: Focus::Eval(*first),
                pending: pending.push(
                    Pending::Args { callee, rest: *rest, done: Seq::empty(), saved: scope },
                ),
                scope: Some(current(scope, global).fork()),
            },
            global,
            Effect::Continue,
        ),
        _ => (
            State { focus: Focus::Call(callee, Seq::empty()), pending, scope },
            global,
            Effect::Continue,
        ),
    }
}

/// One step on a form to evaluate.
///
/// A quoted value loses one layer of quoting. A comment is the empty list.
/// Any other atom but a symbol is itself. A symbol is what `resolve` finds
/// for it, and an error if that is nothing. A pair is a call form, headed
/// by a symbol that stands for something to call: a special form is
/// applied to the unevaluated tail, a primitive or a closure is called
/// after the evaluation of the forms of the tail.
pub open spec fn evaluate(expr: Sexp, pending: Seq<Pending>, scope: Option<Scope>, global: Scope)
    -> (State, Scope, Effect) {
    let env = current(scope, global);
    match expr {
        Sexp::Quoted(inner) => (
            State { focus: Focus::Return(Evaluated::Data(*inner)), pending, scope },
            global,
            Effect::Continue,
        ),
        Sexp::Atom(Atom::Comment(_)) => (
            State { focus: Focus::Return(Evaluated::Data(Sexp::nil())), pending, scope },
            global,
            Effect::Continue,
        ),
        Sexp::Atom(Atom::Symbol(name)) => match resolve(name, env) {
            Some(found) => (
                State { focus: Focus::Return(found), pending, scope },
                global,
                Effect::Continue,
            ),
            None => fail(global, Failure::UndefinedSymbol(name)),
        },
        Sexp::Atom(_) => (
            State { focus: Focus::Return(Evaluated::Data(expr)), pending, scope },
            global,
            Effect::Continue,
        ),
        Sexp::Pair(head, tail) => {
            if !head.is_symbol() {
                fail(global, Failure::UncallableType("Head of a call form is not a symbol"@))
            } else {
                match resolve(head.name(), env) {
                    None => fail(global, Failure::UndefinedSymbol(head.name())),
                    Some(Evaluated::Data(_)) => fail(
                        global,
                        Failure::NotAFunction("Symbol is not bound to a function"@),
                    ),
                    Some(Evaluated::Builtin(f)) => begin_call(
                        Target::Builtin(f),
                        *tail,
                        pending,
                        scope,
                        global,
                    ),
                    Some(Evaluated::Closure(c)) => begin_call(
                        Target::Closure(c),
                        *tail,
                        pending,
                        scope,
                        global,
                    ),
                    Some(Evaluated::Macro(m)) => {
                        let (expanded, after) = m.expanded(*tail, env);
                        let scope_after = if scope is Some {
                            Some(after)
                        } else {
                            None
                        };
                        let global_after = if scope is Some {
                            global
                        } else {
                            after
                        };
                        match expanded {
                            Err(e) => fail(global_after, e),
                            Ok(Expanded::Value(v)) => (
                                State {
                                    focus: Focus::Return(Evaluated::Data(v)),
                                    pending,
                                    scope: scope_after,
                                },
                                global_after,
                                Effect::Continue,
                            ),
                            Ok(Expanded::Function(c)) => (
                                State {
                                    focus: Focus::Return(Evaluated::Closure(c)),
                                    pending,
                                    scope: scope_after,
                                },
                                global_after,
                                Effect::Continue,
                            ),
                            Ok(Expanded::Define(name, value)) => (
                                State {
                                    focus: Focus::Eval(value),
                                    pending: pending.push(Pending::Define { name }),
                                    scope: scope_after,
                                },
                                global_after,
                                Effect::Continue,
                            ),
                        }
                    },
                }
            }
        },
    }
}

/// One step on a result to hand on.
///
/// Without a frame the result is that of the whole evaluation, as a plain
/// value. An argument joins the results of the call; builtin handles are
/// no arguments. After the last argument the call is made, in the
/// environment it stands in. A `define` binds its name to a value as a
/// variable and to a closure as a function, and has the empty list as its
/// value. A body goes on to its next form, and its last form's result is
/// that of the call.
pub open spec fn deliver(value: Evaluated, pending: Seq<Pending>, scope: Option<Scope>, global: Scope)
    -> (State, Scope, Effect) {
    if pending.len() == 0 {
        (State::halted(), global, Effect::Done(value.plain()))
    } else {
        let below = pending.drop_last();
        match pending.last() {
            Pending::Args { callee, rest, done, saved } => {
                if callee is Builtin && value.plain() is Err {
                    fail(global, value.plain()->Err_0)
                } else if callee is Closure && (value is Builtin || value is Macro) {
                    fail(global, Failure::InvalidArgument("Invalid argument"@))
                } else {
                    match rest {
                        Sexp::Pair(next, more) => (
                            State {
                                focus: Focus::Eval(*next),
                                pending: below.push(
                                    Pending::Args {
                                        callee,
                                        rest: *more,
                                        done: done.push(value),
                                        saved,
                                    },
                                ),
                                scope: Some(current(saved, global).fork()),
                            },
                            global,
                            Effect::Continue,
                        ),
                        _ => (
                            State {
                                focus: Focus::Call(callee, done.push(value)),
                                pending: below,
                                scope: saved,
                            },
                            global,
                            Effect::Continue,
                        ),
                    }
                }
            },
            Pending::Define { name } => {
                let env = current(scope, global);
                match value {
                    Evaluated::Data(v) => store(
                        env.bind(name, v),
                        Focus::Return(Evaluated::Data(Sexp::nil())),
                        below,
                        scope,
                        global,
                    ),
                    Evaluated::Closure(c) => store(
                        env.bind_func(name, c),
                        Focus::Return(Evaluated::Data(Sexp::nil())),
                        below,
                        scope,
                        global,
                    ),
                    _ => fail(global, Failure::InvalidArgument("Invalid argument type for define"@)),
                }
            },
            Pending::Body { rest, saved } => match rest {
                Sexp::Pair(next, more) => (
                    State {
                        focus: Focus::Eval(*next),
                        pending: below.push(Pending::Body { rest: *more, saved }),
                        scope,
                    },
                    global,
                    Effect::Continue,
                ),
                _ => (
                    State { focus: Focus::Return(value), pending: below, scope: saved },
                    global,
                    Effect::Continue,
                ),
            },
        }
    }
}

/// The machine that goes on with `focus` after its environment has become
/// `env`.
pub open spec fn store(
    env: Scope,
    focus: Focus,
    pending: Seq<Pending>,
    scope: Option<Scope>,
    global: Scope,
) -> (State, Scope, Effect) {
    if scope is Some {
        (State { focus, pending, scope: Some(env) }, global, Effect::Continue)
    } else {
        (State { focus, pending, scope: None }, env, Effect::Continue)
    }
}

/// One step on a call to make.
///
/// A primitive is applied to the arguments as plain values; what needs
/// floating point or the terminal is handed to the host. A closure has its
/// parameters bound to the arguments in a fork of its captured environment,
/// and the forms of its body evaluated there in order; without a form the
/// call has the empty list as its value.
pub open spec fn invoke(
    callee: Target,
    args: Seq<Evaluated>,
    pending: Seq<Pending>,
    scope: Option<Scope>,
    global: Scope,
) -> (State, Scope, Effect) {
    match callee {
        Target::Builtin(f) => match plain_all(args) {
            Err(e) => fail(global, e),
            Ok(values) => match f.applied(values) {
                Err(e) => fail(global, e),
                Ok(Applied::Value(v)) => (
                    State { focus: Focus::Return(Evaluated::Data(v)), pending, scope },
                    global,
                    Effect::Continue,
                ),
                Ok(Applied::Compute(job)) => (
                    State { focus: Focus::AwaitNumber, pending, scope },
                    global,
                    Effect::Compute(job),
                ),
                Ok(Applied::Compare(job)) => (
                    State { focus: Focus::AwaitTruth(job.otherwise), pending, scope },
                    global,
                    Effect::Compare(job),
                ),
                Ok(Applied::Print(values, newline)) => (
                    State { focus: Focus::Return(Evaluated::Data(Sexp::nil())), pending, scope },
                    global,
                    Effect::Print(values, newline),
                ),
            },
        },
        Target::Closure(c) => match c.bound(args) {
            Err(e) => fail(global, e),
            Ok(bound) => match c.body {
                Sexp::Pair(first, rest) => (
                    State {
                        focus: Focus::Eval(*first),
                        pending: pending.push(Pending::Body { rest: *rest, saved: scope }),
                        scope: Some(bound),
                    },
                    global,
                    Effect::Continue,
                ),
                _ => (
                    State { focus: Focus::Return(Evaluated::Data(Sexp::nil())), pending, scope },
                    global,
                    Effect::Continue,
                ),
            },
        },
    }
}

impl State {
    /// The machine that is about to evaluate `expr` in the global
    /// environment.
    pub open spec fn load(expr: Sexp) -> State {
        State { focus: Focus::Eval(expr), pending: Seq::empty(), scope: None }
    }

    /// The machine after the end of an evaluation.
    pub open spec fn halted() -> State {
        State { focus: Focus::Halted, pending: Seq::empty(), scope: None }
    }

    /// One step of the machine over the global environment `global`, given
    /// the host's reply to the step before: the machine and the global
    /// environment afterwards, and what the host is asked to do.
    pub open spec fn step(self, global: Scope, reply: Reply) -> (State, Scope, Effect) {
        match self.focus {
            Focus::Eval(expr) => evaluate(expr, self.pending, self.scope, global),
            Focus::Return(value) => deliver(value, self.pending, self.scope, global),
            Focus::Call(callee, args) => invoke(callee, args, self.pending, self.scope, global),
            Focus::AwaitNumber => match reply {
                Reply::Number(n) => (
                    State { focus: Focus::Return(Evaluated::Data(n.sexp())), ..self },
                    global,
                    Effect::Continue,
                ),
                _ => fail(
                    global,
                    Failure::ReturnedNonCons("Host reply does not answer the request"@),
                ),
            },
            Focus::AwaitTruth(otherwise) => match reply {
                Reply::Truth(found) => match concluded(otherwise, found) {
                    Ok(v) => (
                        State { focus: Focus::Return(Evaluated::Data(v)), ..self },
                        global,
                        Effect::Continue,
                    ),
                    Err(e) => fail(global, e),
                },
                _ => fail(
                    global,
                    Failure::ReturnedNonCons("Host reply does not answer the request"@),
                ),
            },
            Focus::Halted => fail(global, Failure::ReturnedNonCons("Machine has halted"@)),
        }
    }

    /// Up to `limit` steps in a row, the first with `reply` and the others
    /// with no reply, as long as the host is asked for nothing. After the
    /// last of `limit` such steps the host is asked to go on.
    pub open spec fn run(self, global: Scope, reply: Reply, limit: nat) -> (State, Scope, Effect)
        decreases limit,
    {
        if limit == 0 {
            (self, global, Effect::Continue)
        } else {
            let (next, after, effect) = self.step(global, reply);
            if effect is Continue {
                next.run(after, Reply::Nothing, (limit - 1) as nat)
            } else {
                (next, after, effect)
            }
        }
    }
}

/// The evaluator: a machine that evaluates one form step by step. Floating
/// point and printing are the host's part: a step that needs one of them
/// says so, and the next step takes the host's reply.
#[derive(Debug)]
pub struct Machine {
    control: Control,
    frames: Vec<Frame>,
    scope: Option<LexicalVarStorage>,
}

impl View for Machine {
    type V = State;

    closed spec fn view(&self) -> State {
        State { focus: self.control@, pending: pendings(self.frames@), scope: scope_view(self.scope) }
    }
}

/// The machine at the end of an evaluation in the error `e`.
fn halt(e: EvaluatorError) -> (r: (Machine, Action))
    ensures
        r.0@ == State::halted(),
        r.1@ == Effect::Done(Err(e@)),
{
    let machine = Machine { control: Control::Halted, frames: Vec::new(), scope: None };
    assert(pendings(machine.frames@) =~= Seq::empty());
    (machine, Action::Done(Err(e)))
}

/// What `name` stands for in the environment that `scope` stands for.
fn find(name: &str, scope: &Option<LexicalVarStorage>, stg: &LexicalVarStorage) -> (r: Option<
    EvalReturnType,
>)
    ensures
        r is Some <==> resolve(name@, current(scope_view(*scope), stg@)) is Some,
        r matches Some(found) ==> resolve(name@, current(scope_view(*scope), stg@)) == Some(
            found@,
        ),
{
    match scope {
        Some(s) => lookup(name, s),
        None => lookup(name, stg),
    }
}

/// The fork of the environment that `scope` stands for.
fn fork_of(scope: &Option<LexicalVarStorage>, stg: &LexicalVarStorage) -> (r: LexicalVarStorage)
    ensures
        r@ == current(scope_view(*scope), stg@).fork(),
{
    match scope {
        Some(s) => s.fork(),
        None => stg.fork(),
    }
}

fn start_call(
    callee: Callee,
    tail: &Cons,
    frames: Vec<Frame>,
    scope: Option<LexicalVarStorage>,
    stg: &LexicalVarStorage,
) -> (r: (Machine, Action))
    ensures
        (r.0@, stg@, r.1@) == begin_call(
            callee@,
            tail@,
            pendings(frames@),
            scope_view(scope),
            stg@,
        ),
{
    let mut frames = frames;
    match tail {
        Cons::Cell(first, rest) => {
            let ghost below = pendings(frames@);
            let fork = fork_of(&scope, stg);
            let frame = Frame::Args {
                callee,
                rest: (**rest).clone(),
                done: Vec::new(),
                saved: scope,
            };
            assert(results(Seq::<EvalReturnType>::empty()) =~= Seq::empty());
            frames.push(frame);
            assert(pendings(frames@) =~= below.push(frame@));
            (
                Machine { control: Control::Eval((**first).clone()), frames, scope: Some(fork) },
                Action::Continue,
            )
        },
        _ => {
            let args: Vec<EvalReturnType> = Vec::new();
            assert(results(args@) =~= Seq::empty());
            (Machine { control: Control::Call(callee, args), frames, scope }, Action::Continue)
        },
    }
}

fn step_eval(
    expr: Cons,
    frames: Vec<Frame>,
    scope: Option<LexicalVarStorage>,
    stg: &mut LexicalVarStorage,
) -> (r: (Machine, Action))
    ensures
        (r.0@, final(stg)@, r.1@) == evaluate(
            expr@,
            pendings(frames@),
            scope_view(scope),
            old(stg)@,
        ),
{
    let mut frames = frames;
    match &expr {
        Cons::Quoted(inner) => (
            Machine {
                control: Control::Return(EvalReturnType::CONS((**inner).clone())),
                frames,
                scope,
            },
            Action::Continue,
        ),
        Cons::Value(ConsValue::Comment(_)) => (
            Machine {
                control: Control::Return(EvalReturnType::CONS(Cons::Value(ConsValue::NIL))),
                frames,
                scope,
            },
            Action::Continue,
        ),
        Cons::Value(ConsValue::Symbol(name)) => {
            match find(name.as_str(), &scope, stg) {
                Some(found) => (
                    Machine { control: Control::Return(found), frames, scope },
                    Action::Continue,
                ),
                None => halt(EvaluatorError::UndefinedSymbol(name.clone())),
            }
        },
        Cons::Value(_) => (
            Machine { control: Control::Return(EvalReturnType::CONS(expr.clone())), frames, scope },
            Action::Continue,
        ),
        Cons::Cell(head, tail) => {
            assert(expr@ == Sexp::cons((**head)@, (**tail)@));
            match &**head {
                Cons::Value(ConsValue::Symbol(name)) => {
                    match find(name.as_str(), &scope, stg) {
                        None => halt(EvaluatorError::UndefinedSymbol(name.clone())),
                        Some(EvalReturnType::CONS(_)) => halt(
                            EvaluatorError::NotAFunction(
                                "Symbol is not bound to a function".to_owned(),
                            ),
                        ),
                        Some(EvalReturnType::FUNC(f)) => start_call(
                            Callee::Builtin(f),
                            &**tail,
                            frames,
                            scope,
                            stg,
                        ),
                        Some(EvalReturnType::USER(u)) => start_call(
                            Callee::User(u),
                            &**tail,
                            frames,
                            scope,
                            stg,
                        ),
                        Some(EvalReturnType::MACRO(m)) => {
                            let (expanded, scope) = match scope {
                                Some(inner) => {
                                    let mut inner = inner;
                                    let expanded = m.call(&**tail, &mut inner);
                                    (expanded, Some(inner))
                                },
                                None => {
                                    let expanded = m.call(&**tail, stg);
                                    (expanded, None)
                                },
                            };
                            match expanded {
                                Err(e) => halt(e),
                                Ok(MacroReturn::Value(v)) => (
                                    Machine {
                                        control: Control::Return(EvalReturnType::CONS(v)),
                                        frames,
                                        scope,
                                    },
                                    Action::Continue,
                                ),
                                Ok(MacroReturn::Function(u)) => (
                                    Machine {
                                        control: Control::Return(EvalReturnType::USER(u)),
                                        frames,
                                        scope,
                                    },
                                    Action::Continue,
                                ),
                                Ok(MacroReturn::Define(name, value)) => {
                                    let ghost below = pendings(frames@);
                                    let frame = Frame::Define { name };
                                    frames.push(frame);
                                    assert(pendings(frames@) =~= below.push(frame@));
                                    (
                                        Machine { control: Control::Eval(value), frames, scope },
                                        Action::Continue,
                                    )
                                },
                            }
                        },
                    }
                },
                _ => halt(
                    EvaluatorError::UncallableType(
                        "Head of a call form is not a symbol".to_owned(),
                    ),
                ),
            }
        },
    }
}

fn step_return(
    value: EvalReturnType,
    frames: Vec<Frame>,
    scope: Option<LexicalVarStorage>,
    stg: &mut LexicalVarStorage,
) -> (r: (Machine, Action))
    ensures
        (r.0@, final(stg)@, r.1@) == deliver(
            value@,
            pendings(frames@),
            scope_view(scope),
            old(stg)@,
        ),
{
    let mut frames = frames;
    let ghost all = pendings(frames@);
    let top = frames.pop();
    let ghost below = pendings(frames@);
    assert(all.len() > 0 ==> below =~= all.drop_last());
    match top {
        None => {
            let machine = Machine { control: Control::Halted, frames, scope: None };
            assert(pendings(machine.frames@) =~= Seq::empty());
            (machine, Action::Done(value.to_plain()))
        },
        Some(Frame::Args { callee, rest, done, saved }) => {
            let mut done = done;
            assert(all.last() == (Frame::Args { callee, rest, done, saved })@);
            match (&callee, &value) {
                (Callee::Builtin(_), EvalReturnType::FUNC(_)) => {
                    return halt(
                        EvaluatorError::ReturnedNonCons(
                            "Function returned non-cons value".to_owned(),
                        ),
                    );
                },
                (Callee::Builtin(_), EvalReturnType::MACRO(_)) => {
                    return halt(
                        EvaluatorError::ReturnedNonCons("Macro returned non-cons value".to_owned()),
                    );
                },
                (Callee::User(_), EvalReturnType::FUNC(_)) => {
                    return halt(EvaluatorError::InvalidArgument("Invalid argument".to_owned()));
                },
                (Callee::User(_), EvalReturnType::MACRO(_)) => {
                    return halt(EvaluatorError::InvalidArgument("Invalid argument".to_owned()));
                },
                _ => {},
            }
            let ghost before = results(done@);
            done.push(value);
            assert(results(done@) =~= before.push(value@));
            match &rest {
                Cons::Cell(next, more) => {
                    let fork = fork_of(&saved, stg);
                    let frame = Frame::Args { callee, rest: (**more).clone(), done, saved };
                    frames.push(frame);
                    assert(pendings(frames@) =~= below.push(frame@));
                    (
                        Machine {
                            control: Control::Eval((**next).clone()),
                            frames,
                            scope: Some(fork),
                        },
                        Action::Continue,
                    )
                },
                _ => (
                    Machine { control: Control::Call(callee, done), frames, scope: saved },
                    Action::Continue,
                ),
            }
        },
        Some(Frame::Define { name }) => {
            assert(all.last() == (Frame::Define { name })@);
            let nil = Control::Return(EvalReturnType::CONS(Cons::Value(ConsValue::NIL)));
            match value {
                EvalReturnType::CONS(v) => match scope {
                    Some(inner) => {
                        let mut inner = inner;
                        inner.put(name.as_str(), v);
                        (Machine { control: nil, frames, scope: Some(inner) }, Action::Continue)
                    },
                    None => {
                        stg.put(name.as_str(), v);
                        (Machine { control: nil, frames, scope: None }, Action::Continue)
                    },
                },
                EvalReturnType::USER(u) => match scope {
                    Some(inner) => {
                        let mut inner = inner;
                        inner.put_func(name.as_str(), u);
                        (Machine { control: nil, frames, scope: Some(inner) }, Action::Continue)
                    },
                    None => {
                        stg.put_func(name.as_str(), u);
                        (Machine { control: nil, frames, scope: None }, Action::Continue)
                    },
                },
                _ => halt(
                    EvaluatorError::InvalidArgument("Invalid argument type for define".to_owned()),
                ),
            }
        },
        Some(Frame::Body { rest, saved }) => {
            assert(all.last() == (Frame::Body { rest, saved })@);
            match &rest {
                Cons::Cell(next, more) => {
                    let frame = Frame::Body { rest: (**more).clone(), saved };
                    frames.push(frame);
                    assert(pendings(frames@) =~= below.push(frame@));
                    (
                        Machine { control: Control::Eval((**next).clone()), frames, scope },
                        Action::Continue,
                    )
                },
                _ => (
                    Machine { control: Control::Return(value), frames, scope: saved },
                    Action::Continue,
                ),
            }
        },
    }
}

fn step_call(
    callee: Callee,
    args: Vec<EvalReturnType>,
    frames: Vec<Frame>,
    scope: Option<LexicalVarStorage>,
    stg: &LexicalVarStorage,
) -> (r: (Machine, Action))
    ensures
        (r.0@, stg@, r.1@) == invoke(
            callee@,
            results(args@),
            pendings(frames@),
            scope_view(scope),
            stg@,
        ),
{
    let mut frames = frames;
    let nil = Control::Return(EvalReturnType::CONS(Cons::Value(ConsValue::NIL)));
    match callee {
        Callee::Builtin(f) => {
            let values = match to_plain_all(&args) {
                Ok(values) => values,
                Err(e) => {
                    return halt(e);
                },
            };
            match f.call(values) {
                Err(e) => halt(e),
                Ok(BuiltinReturn::Value(v)) => (
                    Machine { control: Control::Return(EvalReturnType::CONS(v)), frames, scope },
                    Action::Continue,
                ),
                Ok(BuiltinReturn::Compute(job)) => (
                    Machine { control: Control::AwaitNumber, frames, scope },
                    Action::Compute(job),
                ),
                Ok(BuiltinReturn::Compare(job)) => {
                    let otherwise = match &job.otherwise {
                        Ok(b) => Ok(*b),
                        Err(e) => Err(e.clone()),
                    };
                    (
                        Machine { control: Control::AwaitTruth(otherwise), frames, scope },
                        Action::Compare(job),
                    )
                },
                Ok(BuiltinReturn::Print(values, newline)) => (
                    Machine { control: nil, frames, scope },
                    Action::Print(values, newline),
                ),
            }
        },
        Callee::User(u) => {
            match u.bind(&args) {
                Err(e) => halt(e),
                Ok(bound) => match u.body() {
                    Cons::Cell(first, rest) => {
                        let ghost below = pendings(frames@);
                        let frame = Frame::Body { rest: (**rest).clone(), saved: scope };
                        frames.push(frame);
                        assert(pendings(frames@) =~= below.push(frame@));
                        (
                            Machine {
                                control: Control::Eval((**first).clone()),
                                frames,
                                scope: Some(bound),
                            },
                            Action::Continue,
                        )
                    },
                    _ => (Machine { control: nil, frames, scope }, Action::Continue),
                },
            }
        },
    }
}

impl Machine {
    /// The machine that is about to evaluate `expr` in the global
    /// environment.
    pub fn load(expr: Cons) -> (r: Machine)
        ensures
            r@ == State::load(expr@),
    {
        let machine = Machine { control: Control::Eval(expr), frames: Vec::new(), scope: None };
        assert(pendings(machine.frames@) =~= Seq::empty());
        machine
    }

    /// Whether the evaluation is over.
    pub fn is_halted(&self) -> (r: bool)
        ensures
            r == (self@.focus is Halted),
    {
        match &self.control {
            Control::Halted => true,
            _ => false,
        }
    }

    /// Up to `limit` steps of the evaluation in a row, the first with
    /// `reply`, as long as the host is asked for nothing.
    pub fn run(self, stg: &mut LexicalVarStorage, reply: Reply, limit: usize) -> (r: (
        Machine,
        Action,
    ))
        ensures
            (r.0@, final(stg)@, r.1@) == self@.run(old(stg)@, reply, limit as nat),
    {
        let ghost goal = self@.run(old(stg)@, reply, limit as nat);
        let mut machine = self;
        let mut given = reply;
        let mut left = limit;
        while left > 0
            invariant
                machine@.run(stg@, given, left as nat) == goal,
                goal == self@.run(old(stg)@, reply, limit as nat),
            decreases left,
        {
            let ghost before = machine@;
            let ghost global = stg@;
            let (next, action) = machine.step(stg, given);
            assert(before.run(global, given, left as nat) == (if action@ is Continue {
                next@.run(stg@, Reply::Nothing, (left - 1) as nat)
            } else {
                (next@, stg@, action@)
            }));
            match action {
                Action::Continue => {
                    machine = next;
                    given = Reply::Nothing;
                    left -= 1;
                },
                other => {
                    return (next, other);
                },
            }
        }
        (machine, Action::Continue)
    }

    /// One step of the evaluation over the global environment `stg`.
    /// `reply` is the host's answer to what the step before asked for, and
    /// `Reply::Nothing` where it asked for nothing. The result is the
    /// machine to go on with and what the host is asked to do now.
    pub fn step(self, stg: &mut LexicalVarStorage, reply: Reply) -> (r: (Machine, Action))
        ensures
            (r.0@, final(stg)@, r.1@) == self@.step(old(stg)@, reply),
    {
        let Machine { control, frames, scope } = self;
        match control {
            Control::Eval(expr) => step_eval(expr, frames, scope, stg),
            Control::Return(value) => step_return(value, frames, scope, stg),
            Control::Call(callee, args) => step_call(callee, args, frames, scope, stg),
            Control::AwaitNumber => match reply {
                Reply::Number(n) => (
                    Machine {
                        control: Control::Return(EvalReturnType::CONS(n.to_cons())),
                        frames,
                        scope,
                    },
                    Action::Continue,
                ),
                _ => halt(
                    EvaluatorError::ReturnedNonCons(
                        "Host reply does not answer the request".to_owned(),
                    ),
                ),
            },
            Control::AwaitTruth(otherwise) => match reply {
                Reply::Truth(found) => match conclude(&otherwise, found) {
                    Ok(v) => (
                        Machine {
                            control: Control::Return(EvalReturnType::CONS(v)),
                            frames,
                            scope,
                        },
                        Action::Continue,
                    ),
                    Err(e) => halt(e),
                },
                _ => halt(
                    EvaluatorError::ReturnedNonCons(
                        "Host reply does not answer the request".to_owned(),
                    ),
                ),
            },
            Control::Halted => halt(
                EvaluatorError::ReturnedNonCons("Machine has halted".to_owned()),
            ),
        }
    }
}

/// Whether a value evaluates to itself: the empty list, a number, a string
/// or a truth value.
pub open spec fn self_evaluating(value: Sexp) -> bool {
    match value {
        Sexp::Atom(Atom::Nil) => true,
        Sexp::Atom(Atom::Int(_)) => true,
        Sexp::Atom(Atom::Float(_)) => true,
        Sexp::Atom(Atom::Text(_)) => true,
        Sexp::Atom(Atom::Boolean(_)) => true,
        _ => false,
    }
}

/// The empty list, a number, a string and a truth value evaluate to
/// themselves, in every environment and without a change to it.
pub proof fn lemma_self_evaluation(value: Sexp, global: Scope, reply: Reply)
    requires
        self_evaluating(value),
    ensures
        State::load(value).run(global, reply, 2) == (
            State::halted(),
            global,
            Effect::Done(Ok(value)),
        ),
{
    reveal_with_fuel(State::run, 3);
}

/// A quoted value evaluates to the value under the quote: exactly one layer
/// of quoting goes, in every environment and without a change to it.
pub proof fn lemma_quote_peeling(inner: Sexp, global: Scope, reply: Reply)
    ensures
        State::load(Sexp::Quoted(Box::new(inner))).run(global, reply, 2) == (
            State::halted(),
            global,
            Effect::Done(Ok(inner)),
        ),
{
    reveal_with_fuel(State::run, 3);
}

/// A comment evaluates to the empty list.
pub proof fn lemma_comment_is_dropped(text: Seq<char>, global: Scope, reply: Reply)
    ensures
        State::load(Sexp::Atom(Atom::Comment(text))).run(global, reply, 2) == (
            State::halted(),
            global,
            Effect::Done(Ok(Sexp::nil())),
        ),
{
    reveal_with_fuel(State::run, 3);
}

/// A symbol that no table knows is an error that names the symbol, and the
/// environment stays as it is.
pub proof fn lemma_undefined_symbol(name: Seq<char>, global: Scope, reply: Reply, limit: nat)
    requires
        resolve(name, global) is None,
        limit > 0,
    ensures
        State::load(Sexp::symbol(name)).run(global, reply, limit) == (
            State::halted(),
            global,
            Effect::Done(Err(Failure::UndefinedSymbol(name))),
        ),
{
    reveal_with_fuel(State::run, 2);
}

/// A symbol that is bound as a variable, and is the name of no primitive,
/// special form or function, evaluates to the value it is bound to.
pub proof fn lemma_variable(name: Seq<char>, global: Scope, reply: Reply)
    requires
        builtin_function(name) is None,
        builtin_macro(name) is None,
        global.lookup_func(name) is None,
        global.lookup(name) is Some,
    ensures
        State::load(Sexp::symbol(name)).run(global, reply, 2) == (
            State::halted(),
            global,
            Effect::Done(Ok(global.lookup(name).unwrap())),
        ),
{
    reveal_with_fuel(State::run, 3);
}

/// The form `(define name value)` for a value that evaluates to itself
/// binds the name to that value in the global environment, for good, and
/// has the empty list as its value.
pub proof fn lemma_define_binds(name: Seq<char>, value: Sexp, global: Scope, reply: Reply)
    requires
        self_evaluating(value),
    ensures
        State::load(
            Sexp::list(seq![Sexp::symbol("define"@), Sexp::symbol(name), value]),
        ).run(global, reply, 4) == (
            State::halted(),
            global.bind(name, value),
            Effect::Done(Ok(Sexp::nil())),
        ),
{
    let form = Sexp::list(seq![Sexp::symbol("define"@), Sexp::symbol(name), value]);
    let items = seq![Sexp::symbol("define"@), Sexp::symbol(name), value];
    let tail = Sexp::cons(Sexp::symbol(name), Sexp::cons(value, Sexp::nil()));
    assert(form == Sexp::cons(Sexp::symbol("define"@), tail)) by {
        reveal_with_fuel(Sexp::list, 4);
        assert(items.drop_first() =~= seq![Sexp::symbol(name), value]);
        assert(items.drop_first().drop_first() =~= seq![value]);
        assert(items.drop_first().drop_first().drop_first() =~= Seq::<Sexp>::empty());
    }
    assert(builtin_macro("define"@) == Some(BuiltinMacro::Define)) by {
        reveal_strlit("define");
        reveal_strlit("match");
        assert("define"@.len() != "match"@.len());
    }
    crate::types::function::lemma_tables_are_disjoint("define"@);
    assert(resolve("define"@, global) == Some(Evaluated::Macro(BuiltinMacro::Define)));
    let first = State::load(form).step(global, reply);
    assert(first == (
        State {
            focus: Focus::Eval(value),
            pending: Seq::<Pending>::empty().push(Pending::Define { name }),
            scope: None,
        },
        global,
        Effect::Continue,
    ));
    let second = first.0.step(global, Reply::Nothing);
    assert(second.0.focus == Focus::Return(Evaluated::Data(value)));
    let third = second.0.step(global, Reply::Nothing);
    assert(second.0.pending.drop_last() =~= Seq::<Pending>::empty());
    assert(third == (
        State {
            focus: Focus::Return(Evaluated::Data(Sexp::nil())),
            pending: Seq::<Pending>::empty(),
            scope: None,
        },
        global.bind(name, value),
        Effect::Continue,
    ));
    reveal_with_fuel(State::run, 5);
}

/// The form `(define (fname param...) body...)` binds `fname`, in the
/// global environment and for good, to the closure of the parameters and
/// the body over a fork of that environment as it was before, and has the
/// empty list as its value.
pub proof fn lemma_define_binds_function(
    fname: Seq<char>,
    params: Sexp,
    body: Sexp,
    global: Scope,
    reply: Reply,
)
    requires
        params.all_symbols(),
    ensures
        State::load(
            Sexp::cons(
                Sexp::symbol("define"@),
                Sexp::cons(Sexp::cons(Sexp::symbol(fname), params), body),
            ),
        ).run(global, reply, 2) == (
            State::halted(),
            global.bind_func(
                fname,
                Lambda { args: params, body, scope: Box::new(global.fork()) },
            ),
            Effect::Done(Ok(Sexp::nil())),
        ),
{
    assert(builtin_macro("define"@) == Some(BuiltinMacro::Define)) by {
        reveal_strlit("define");
        reveal_strlit("match");
        assert("define"@.len() != "match"@.len());
    }
    crate::types::function::lemma_tables_are_disjoint("define"@);
    assert(resolve("define"@, global) == Some(Evaluated::Macro(BuiltinMacro::Define)));
    reveal_with_fuel(State::run, 3);
}

/// A variable that was bound is found under its name, unless the name is
/// that of a primitive, a special form or a function.
pub proof fn lemma_bound_variable_is_found(name: Seq<char>, value: Sexp, global: Scope, reply: Reply)
    requires
        builtin_function(name) is None,
        builtin_macro(name) is None,
        global.lookup_func(name) is None,
    ensures
        State::load(Sexp::symbol(name)).run(global.bind(name, value), reply, 2) == (
            State::halted(),
            global.bind(name, value),
            Effect::Done(Ok(value)),
        ),
{
    lemma_variable(name, global.bind(name, value), reply);
}

/// The body of a closure runs in the environment that the closure
/// captured, with the parameters bound: the environment of the caller is
/// set aside until the call is over and decides nothing in between.
pub proof fn lemma_call_runs_in_captured_scope(
    closure: Lambda,
    args: Seq<Evaluated>,
    pending: Seq<Pending>,
    scope: Option<Scope>,
    global: Scope,
)
    requires
        closure.bound(args) is Ok,
        closure.body is Pair,
    ensures
        invoke(Target::Closure(closure), args, pending, scope, global) == (
            State {
                focus: Focus::Eval(closure.body.car()),
                pending: pending.push(Pending::Body { rest: closure.body.cdr(), saved: scope }),
                scope: Some(closure.bound(args)->Ok_0),
            },
            global,
            Effect::Continue,
        ),
{
}

/// Once an evaluation is over, every further step reports that the machine
/// has halted.
pub proof fn lemma_halted_stays_halted(global: Scope, reply: Reply)
    ensures
        State::halted().step(global, reply) == (
            State::halted(),
            global,
            Effect::Done(Err(Failure::ReturnedNonCons("Machine has halted"@))),
        ),
{
}

} // verus!
