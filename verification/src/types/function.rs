//! The registry of eager primitives and special forms, what each of them
//! does, and user-defined closures.

use crate::errors::{EvaluatorError, Failure};
use crate::evaluator::{results, EvalReturnType, Evaluated};
use crate::types::numeric::{
    all_numbers, collect_numbers, numbers, fold_steps, number_of, CompareJob, Comparison,
    Computation, Finish, FloatJob, FloatOp, Number, Relation, ONE, ZERO,
};
use crate::types::scope::{scope_of, LexicalVarStorage, Scope};
use crate::types::{outcome, same_str, views, Atom, Cons, ConsValue, Sexp};
use vstd::prelude::*;

verus! {

/// The eager primitives. Every argument of a call is evaluated before the
/// primitive runs.
#[derive(Debug, Clone, Copy, PartialEq, Eq, Structural)]
pub enum BuiltinFunction {
    Add,
    Sub,
    Mul,
    Div,
    FloorDiv,
    Mod,
    Pow,
    Eq,
    Neq,
    Lt,
    Gt,
    Lte,
    Gte,
    Not,
    Print,
    Println,
    Input,
    List,
    Cons,
    Car,
    Cdr,
    IsList,
    IsSymbol,
    IsString,
    IsBoolean,
    IsInt,
    IsFloat,
    IsQuoted,
    IsComment,
    IsFunction,
    IsMacro,
    IsNil,
    IsDefined,
    IsBound,
    Quote,
    Quasiquote,
    Unquote,
    UnquoteSplicing,
    Apply,
    Load,
    Exit,
    Help,
}

/// The special forms. A special form gets its argument forms unevaluated.
#[derive(Debug, Clone, Copy, PartialEq, Eq, Structural)]
pub enum BuiltinMacro {
    Match,
    Define,
    Lambda,
    Let,
    If,
    Cond,
    And,
    Or,
    Assign,
    Eval,
    Parse,
}

/// The eager primitive that `name` denotes, if it denotes one.
pub open spec fn builtin_function(name: Seq<char>) -> Option<BuiltinFunction> {
    if name == "+"@ {
        Some(BuiltinFunction::Add)
    } else if name == "-"@ {
        Some(BuiltinFunction::Sub)
    } else if name == "*"@ {
        Some(BuiltinFunction::Mul)
    } else if name == "/"@ {
        Some(BuiltinFunction::Div)
    } else if name == "floordiv"@ {
        Some(BuiltinFunction::FloorDiv)
    } else if name == "%"@ {
        Some(BuiltinFunction::Mod)
    } else if name == "^"@ {
        Some(BuiltinFunction::Pow)
    } else if name == "="@ {
        Some(BuiltinFunction::Eq)
    } else if name == "!="@ {
        Some(BuiltinFunction::Neq)
    } else if name == "<"@ {
        Some(BuiltinFunction::Lt)
    } else if name == ">"@ {
        Some(BuiltinFunction::Gt)
    } else if name == "<="@ {
        Some(BuiltinFunction::Lte)
    } else if name == ">="@ {
        Some(BuiltinFunction::Gte)
    } else if name == "not"@ {
        Some(BuiltinFunction::Not)
    } else if name == "print"@ {
        Some(BuiltinFunction::Print)
    } else if name == "println"@ {
        Some(BuiltinFunction::Println)
    } else if name == "input"@ {
        Some(BuiltinFunction::Input)
    } else if name == "list"@ {
        Some(BuiltinFunction::List)
    } else if name == "cons"@ {
        Some(BuiltinFunction::Cons)
    } else if name == "car"@ {
        Some(BuiltinFunction::Car)
    } else if name == "cdr"@ {
        Some(BuiltinFunction::Cdr)
    } else if name == "is-list"@ {
        Some(BuiltinFunction::IsList)
    } else if name == "is-symbol"@ {
        Some(BuiltinFunction::IsSymbol)
    } else if name == "is-string"@ {
        Some(BuiltinFunction::IsString)
    } else if name == "is-boolean"@ {
        Some(BuiltinFunction::IsBoolean)
    } else if name == "is-int"@ {
        Some(BuiltinFunction::IsInt)
    } else if name == "is-float"@ {
        Some(BuiltinFunction::IsFloat)
    } else if name == "is-quoted"@ {
        Some(BuiltinFunction::IsQuoted)
    } else if name == "is-comment"@ {
        Some(BuiltinFunction::IsComment)
    } else if name == "is-function"@ {
        Some(BuiltinFunction::IsFunction)
    } else if name == "is-macro"@ {
        Some(BuiltinFunction::IsMacro)
    } else if name == "is-nil"@ {
        Some(BuiltinFunction::IsNil)
    } else if name == "is-defined"@ {
        Some(BuiltinFunction::IsDefined)
    } else if name == "is-bound"@ {
        Some(BuiltinFunction::IsBound)
    } else if name == "quote"@ {
        Some(BuiltinFunction::Quote)
    } else if name == "quasiquote"@ {
        Some(BuiltinFunction::Quasiquote)
    } else if name == "unquote"@ {
        Some(BuiltinFunction::Unquote)
    } else if name == "unquote-splicing"@ {
        Some(BuiltinFunction::UnquoteSplicing)
    } else if name == "apply"@ {
        Some(BuiltinFunction::Apply)
    } else if name == "load"@ {
        Some(BuiltinFunction::Load)
    } else if name == "exit"@ {
        Some(BuiltinFunction::Exit)
    } else if name == "help"@ {
        Some(BuiltinFunction::Help)
    } else {
        None
    }
}

/// The special form that `name` denotes, if it denotes one.
pub open spec fn builtin_macro(name: Seq<char>) -> Option<BuiltinMacro> {
    if name == "match"@ {
        Some(BuiltinMacro::Match)
    } else if name == "define"@ {
        Some(BuiltinMacro::Define)
    } else if name == "set"@ {
        Some(BuiltinMacro::Assign)
    } else if name == "let"@ {
        Some(BuiltinMacro::Let)
    } else if name == "if"@ {
        Some(BuiltinMacro::If)
    } else if name == "lambda"@ {
        Some(BuiltinMacro::Lambda)
    } else if name == "cond"@ {
        Some(BuiltinMacro::Cond)
    } else if name == "and"@ {
        Some(BuiltinMacro::And)
    } else if name == "or"@ {
        Some(BuiltinMacro::Or)
    } else if name == "eval"@ {
        Some(BuiltinMacro::Eval)
    } else if name == "parse"@ {
        Some(BuiltinMacro::Parse)
    } else {
        None
    }
}

impl BuiltinFunction {
    /// The primitive of the given name.
    pub fn named(name: &str) -> (r: Option<Self>)
        ensures
            r == builtin_function(name@),
    {
        if same_str(name, "+") {
            Some(BuiltinFunction::Add)
        } else if same_str(name, "-") {
            Some(BuiltinFunction::Sub)
        } else if same_str(name, "*") {
            Some(BuiltinFunction::Mul)
        } else if same_str(name, "/") {
            Some(BuiltinFunction::Div)
        } else if same_str(name, "floordiv") {
            Some(BuiltinFunction::FloorDiv)
        } else if same_str(name, "%") {
            Some(BuiltinFunction::Mod)
        } else if same_str(name, "^") {
            Some(BuiltinFunction::Pow)
        } else if same_str(name, "=") {
            Some(BuiltinFunction::Eq)
        } else if same_str(name, "!=") {
            Some(BuiltinFunction::Neq)
        } else if same_str(name, "<") {
            Some(BuiltinFunction::Lt)
        } else if same_str(name, ">") {
            Some(BuiltinFunction::Gt)
        } else if same_str(name, "<=") {
            Some(BuiltinFunction::Lte)
        } else if same_str(name, ">=") {
            Some(BuiltinFunction::Gte)
        } else if same_str(name, "not") {
            Some(BuiltinFunction::Not)
        } else if same_str(name, "print") {
            Some(BuiltinFunction::Print)
        } else if same_str(name, "println") {
            Some(BuiltinFunction::Println)
        } else if same_str(name, "input") {
            Some(BuiltinFunction::Input)
        } else if same_str(name, "list") {
            Some(BuiltinFunction::List)
        } else if same_str(name, "cons") {
            Some(BuiltinFunction::Cons)
        } else if same_str(name, "car") {
            Some(BuiltinFunction::Car)
        } else if same_str(name, "cdr") {
            Some(BuiltinFunction::Cdr)
        } else if same_str(name, "is-list") {
            Some(BuiltinFunction::IsList)
        } else if same_str(name, "is-symbol") {
            Some(BuiltinFunction::IsSymbol)
        } else if same_str(name, "is-string") {
            Some(BuiltinFunction::IsString)
        } else if same_str(name, "is-boolean") {
            Some(BuiltinFunction::IsBoolean)
        } else if same_str(name, "is-int") {
            Some(BuiltinFunction::IsInt)
        } else if same_str(name, "is-float") {
            Some(BuiltinFunction::IsFloat)
        } else if same_str(name, "is-quoted") {
            Some(BuiltinFunction::IsQuoted)
        } else if same_str(name, "is-comment") {
            Some(BuiltinFunction::IsComment)
        } else if same_str(name, "is-function") {
            Some(BuiltinFunction::IsFunction)
        } else if same_str(name, "is-macro") {
            Some(BuiltinFunction::IsMacro)
        } else if same_str(name, "is-nil") {
            Some(BuiltinFunction::IsNil)
        } else if same_str(name, "is-defined") {
            Some(BuiltinFunction::IsDefined)
        } else if same_str(name, "is-bound") {
            Some(BuiltinFunction::IsBound)
        } else if same_str(name, "quote") {
            Some(BuiltinFunction::Quote)
        } else if same_str(name, "quasiquote") {
            Some(BuiltinFunction::Quasiquote)
        } else if same_str(name, "unquote") {
            Some(BuiltinFunction::Unquote)
        } else if same_str(name, "unquote-splicing") {
            Some(BuiltinFunction::UnquoteSplicing)
        } else if same_str(name, "apply") {
            Some(BuiltinFunction::Apply)
        } else if same_str(name, "load") {
            Some(BuiltinFunction::Load)
        } else if same_str(name, "exit") {
            Some(BuiltinFunction::Exit)
        } else if same_str(name, "help") {
            Some(BuiltinFunction::Help)
        } else {
            None
        }
    }

    /// The primitive that a symbol denotes; `None` for any other value and
    /// for a symbol that is not the name of a primitive.
    pub fn get(symbol: &Cons) -> (r: Option<Self>)
        ensures
            r == (match symbol@ {
                Sexp::Atom(Atom::Symbol(name)) => builtin_function(name),
                _ => None,
            }),
    {
        match symbol {
            Cons::Value(ConsValue::Symbol(s)) => Self::named(s.as_str()),
            _ => None,
        }
    }
}

impl BuiltinMacro {
    /// The special form of the given name.
    pub fn named(name: &str) -> (r: Option<Self>)
        ensures
            r == builtin_macro(name@),
    {
        if same_str(name, "match") {
            Some(BuiltinMacro::Match)
        } else if same_str(name, "define") {
            Some(BuiltinMacro::Define)
        } else if same_str(name, "set") {
            Some(BuiltinMacro::Assign)
        } else if same_str(name, "let") {
            Some(BuiltinMacro::Let)
        } else if same_str(name, "if") {
            Some(BuiltinMacro::If)
        } else if same_str(name, "lambda") {
            Some(BuiltinMacro::Lambda)
        } else if same_str(name, "cond") {
            Some(BuiltinMacro::Cond)
        } else if same_str(name, "and") {
            Some(BuiltinMacro::And)
        } else if same_str(name, "or") {
            Some(BuiltinMacro::Or)
        } else if same_str(name, "eval") {
            Some(BuiltinMacro::Eval)
        } else if same_str(name, "parse") {
            Some(BuiltinMacro::Parse)
        } else {
            None
        }
    }

    /// The special form that a symbol denotes; `None` for any other value
    /// and for a symbol that is not the name of a special form.
    pub fn get(symbol: &Cons) -> (r: Option<Self>)
        ensures
            r == (match symbol@ {
                Sexp::Atom(Atom::Symbol(name)) => builtin_macro(name),
                _ => None,
            }),
    {
        match symbol {
            Cons::Value(ConsValue::Symbol(s)) => Self::named(s.as_str()),
            _ => None,
        }
    }
}

/// How an arithmetic primitive folds its arguments: the accumulator starts
/// at `seed`, takes in the first argument by `first` and every later one by
/// `rest`, and ends as `finish` says.
#[derive(Debug, Clone, Copy, PartialEq, Eq, Structural)]
pub struct Fold {
    pub seed: u64,
    pub first: FloatOp,
    pub rest: FloatOp,
    pub finish: Finish,
}

/// What a call of an eager primitive comes to.
#[derive(Debug, PartialEq)]
pub enum BuiltinReturn {
    /// The call has this value.
    Value(Cons),
    /// The call has the value that the host makes of this accumulation.
    Compute(FloatJob),
    /// The call ends as the host's answer to this comparison decides.
    Compare(CompareJob),
    /// The host is to print these values, and a line end after each if the
    /// flag is set; the call has the empty list as its value.
    Print(Vec<Cons>, bool),
}

/// Mathematical model of a [`BuiltinReturn`].
pub enum Applied {
    Value(Sexp),
    Compute(Computation),
    Compare(Comparison),
    Print(Seq<Sexp>, bool),
}

impl View for BuiltinReturn {
    type V = Applied;

    open spec fn view(&self) -> Applied {
        match self {
            BuiltinReturn::Value(v) => Applied::Value(v@),
            BuiltinReturn::Compute(job) => Applied::Compute(job@),
            BuiltinReturn::Compare(job) => Applied::Compare(job@),
            BuiltinReturn::Print(values, newline) => Applied::Print(views(values@), *newline),
        }
    }
}

/// Whether every one of `args` is the same value as the first.
pub open spec fn all_alike(args: Seq<Sexp>) -> bool {
    forall|i: int| 0 <= i < args.len() ==> (#[trigger] args[i]) == args[0]
}

/// The comparison that is left of a chain from the pair at `from` on. A
/// pair of integers is decided on the spot: if `relation` holds of it the
/// chain is broken there, if not the chain goes on. A pair with a double in
/// it is left to the host. A pair with anything but numbers in it ends the
/// chain with the complaint.
pub open spec fn chain_from(
    relation: Relation,
    complaint: Seq<char>,
    args: Seq<Sexp>,
    from: int,
) -> Comparison
    decreases args.len() - from,
{
    if from < 0 || from + 1 >= args.len() {
        Comparison { relation, pairs: Seq::empty(), otherwise: Ok(true) }
    } else {
        match (number_of(args[from]), number_of(args[from + 1])) {
            (Some(Number::Int(left)), Some(Number::Int(right))) => {
                if relation.holds(left, right) {
                    Comparison { relation, pairs: Seq::empty(), otherwise: Ok(false) }
                } else {
                    chain_from(relation, complaint, args, from + 1)
                }
            },
            (Some(left), Some(right)) => {
                let rest = chain_from(relation, complaint, args, from + 1);
                Comparison { pairs: seq![(left, right)] + rest.pairs, ..rest }
            },
            _ => Comparison {
                relation,
                pairs: Seq::empty(),
                otherwise: Err(Failure::InvalidArgument(complaint)),
            },
        }
    }
}

impl BuiltinFunction {
    /// How the primitive folds its arguments, if it is an arithmetic one.
    pub open spec fn folding(self) -> Option<Fold> {
        match self {
            BuiltinFunction::Add => Some(
                Fold { seed: ZERO, first: FloatOp::Add, rest: FloatOp::Add, finish: Finish::Narrow },
            ),
            BuiltinFunction::Sub => Some(
                Fold { seed: ZERO, first: FloatOp::Add, rest: FloatOp::Sub, finish: Finish::Narrow },
            ),
            BuiltinFunction::Mul => Some(
                Fold { seed: ONE, first: FloatOp::Mul, rest: FloatOp::Mul, finish: Finish::Narrow },
            ),
            BuiltinFunction::Div => Some(
                Fold { seed: ONE, first: FloatOp::Mul, rest: FloatOp::Div, finish: Finish::Narrow },
            ),
            BuiltinFunction::FloorDiv => Some(
                Fold {
                    seed: ONE,
                    first: FloatOp::Mul,
                    rest: FloatOp::Div,
                    finish: Finish::Truncate,
                },
            ),
            BuiltinFunction::Mod => Some(
                Fold { seed: ONE, first: FloatOp::Mul, rest: FloatOp::Rem, finish: Finish::Narrow },
            ),
            BuiltinFunction::Pow => Some(
                Fold { seed: ONE, first: FloatOp::Mul, rest: FloatOp::Pow, finish: Finish::Narrow },
            ),
            _ => None,
        }
    }

    /// The relation that breaks the chain of a comparison primitive: the
    /// chain `<` is broken by a pair of which `>=` holds, and so on.
    pub open spec fn breaking(self) -> Option<Relation> {
        match self {
            BuiltinFunction::Lt => Some(Relation::GreaterOrEqual),
            BuiltinFunction::Gt => Some(Relation::LessOrEqual),
            BuiltinFunction::Lte => Some(Relation::Greater),
            BuiltinFunction::Gte => Some(Relation::Less),
            _ => None,
        }
    }

    /// The text of the error for an argument that is no number.
    pub open spec fn complaint(self) -> Seq<char> {
        match self {
            BuiltinFunction::Add => "Invalid argument type for +"@,
            BuiltinFunction::Sub => "Invalid argument type for -"@,
            BuiltinFunction::Mul => "Invalid argument type for *"@,
            BuiltinFunction::Div => "Invalid argument type for /"@,
            BuiltinFunction::FloorDiv => "Invalid argument type for //"@,
            BuiltinFunction::Mod => "Invalid argument type for %"@,
            BuiltinFunction::Pow => "Invalid argument type for ^"@,
            BuiltinFunction::Lt => "Invalid argument type for <"@,
            BuiltinFunction::Gt => "Invalid argument type for >"@,
            BuiltinFunction::Lte => "Invalid argument type for <="@,
            BuiltinFunction::Gte => "Invalid argument type for >="@,
            _ => "Invalid argument"@,
        }
    }

    /// What a call of the primitive on the values `args` comes to.
    ///
    /// An arithmetic primitive wants numbers. Of one number, `-` gives the
    /// number with its sign changed and `/` has the host divide one by it.
    /// Otherwise the arguments are folded by the host as `folding` says.
    ///
    /// `=` holds where all arguments are the same value as the first, `!=`
    /// where one is not. The four orders are chains over the pairs of
    /// neighbours, as `chain_from` says; a chain without a pair holds.
    ///
    /// `print` and `println` hand their arguments to the host. Every other
    /// primitive gives the empty list.
    pub open spec fn applied(self, args: Seq<Sexp>) -> Result<Applied, Failure> {
        if let Some(fold) = self.folding() {
            if !all_numbers(args) {
                Err(Failure::InvalidArgument(self.complaint()))
            } else if self == BuiltinFunction::Sub && args.len() == 1 {
                Ok(Applied::Value(numbers(args)[0].negated().sexp()))
            } else if self == BuiltinFunction::Div && args.len() == 1 {
                Ok(
                    Applied::Compute(
                        Computation {
                            seed: ONE,
                            steps: fold_steps(FloatOp::Div, FloatOp::Div, numbers(args)),
                            finish: Finish::Keep,
                        },
                    ),
                )
            } else {
                Ok(
                    Applied::Compute(
                        Computation {
                            seed: fold.seed,
                            steps: fold_steps(fold.first, fold.rest, numbers(args)),
                            finish: fold.finish,
                        },
                    ),
                )
            }
        } else if let Some(relation) = self.breaking() {
            let job = chain_from(relation, self.complaint(), args, 0);
            if job.pairs.len() > 0 {
                Ok(Applied::Compare(job))
            } else {
                match job.otherwise {
                    Ok(b) => Ok(Applied::Value(Sexp::boolean(b))),
                    Err(e) => Err(e),
                }
            }
        } else {
            match self {
                BuiltinFunction::Eq => Ok(Applied::Value(Sexp::boolean(all_alike(args)))),
                BuiltinFunction::Neq => Ok(Applied::Value(Sexp::boolean(!all_alike(args)))),
                BuiltinFunction::Print => Ok(Applied::Print(args, false)),
                BuiltinFunction::Println => Ok(Applied::Print(args, true)),
                _ => Ok(Applied::Value(Sexp::nil())),
            }
        }
    }

    /// How the primitive folds its arguments, if it is an arithmetic one.
    pub fn fold(&self) -> (r: Option<Fold>)
        ensures
            r == self.folding(),
    {
        match self {
            BuiltinFunction::Add => Some(
                Fold { seed: ZERO, first: FloatOp::Add, rest: FloatOp::Add, finish: Finish::Narrow },
            ),
            BuiltinFunction::Sub => Some(
                Fold { seed: ZERO, first: FloatOp::Add, rest: FloatOp::Sub, finish: Finish::Narrow },
            ),
            BuiltinFunction::Mul => Some(
                Fold { seed: ONE, first: FloatOp::Mul, rest: FloatOp::Mul, finish: Finish::Narrow },
            ),
            BuiltinFunction::Div => Some(
                Fold { seed: ONE, first: FloatOp::Mul, rest: FloatOp::Div, finish: Finish::Narrow },
            ),
            BuiltinFunction::FloorDiv => Some(
                Fold {
                    seed: ONE,
                    first: FloatOp::Mul,
                    rest: FloatOp::Div,
                    finish: Finish::Truncate,
                },
            ),
            BuiltinFunction::Mod => Some(
                Fold { seed: ONE, first: FloatOp::Mul, rest: FloatOp::Rem, finish: Finish::Narrow },
            ),
            BuiltinFunction::Pow => Some(
                Fold { seed: ONE, first: FloatOp::Mul, rest: FloatOp::Pow, finish: Finish::Narrow },
            ),
            _ => None,
        }
    }

    /// The relation that breaks the chain of a comparison primitive.
    pub fn breaker(&self) -> (r: Option<Relation>)
        ensures
            r == self.breaking(),
    {
        match self {
            BuiltinFunction::Lt => Some(Relation::GreaterOrEqual),
            BuiltinFunction::Gt => Some(Relation::LessOrEqual),
            BuiltinFunction::Lte => Some(Relation::Greater),
            BuiltinFunction::Gte => Some(Relation::Less),
            _ => None,
        }
    }

    /// The error for an argument that is no number.
    pub fn refuse(&self) -> (r: EvaluatorError)
        ensures
            r@ == Failure::InvalidArgument(self.complaint()),
    {
        let text = match self {
            BuiltinFunction::Add => "Invalid argument type for +",
            BuiltinFunction::Sub => "Invalid argument type for -",
            BuiltinFunction::Mul => "Invalid argument type for *",
            BuiltinFunction::Div => "Invalid argument type for /",
            BuiltinFunction::FloorDiv => "Invalid argument type for //",
            BuiltinFunction::Mod => "Invalid argument type for %",
            BuiltinFunction::Pow => "Invalid argument type for ^",
            BuiltinFunction::Lt => "Invalid argument type for <",
            BuiltinFunction::Gt => "Invalid argument type for >",
            BuiltinFunction::Lte => "Invalid argument type for <=",
            BuiltinFunction::Gte => "Invalid argument type for >=",
            _ => "Invalid argument",
        };
        EvaluatorError::InvalidArgument(text.to_owned())
    }

    /// The comparison that the chain over `args` comes to.
    fn chain(&self, relation: Relation, args: &Vec<Cons>) -> (r: CompareJob)
        ensures
            r@ == chain_from(relation, self.complaint(), views(args@), 0),
    {
        let ghost models = views(args@);
        let ghost complaint = self.complaint();
        let mut pairs: Vec<(Number, Number)> = Vec::new();
        let n = args.len();
        if n < 2 {
            return CompareJob { relation, pairs, otherwise: Ok(true) };
        }
        let mut i: usize = 0;
        while i < n - 1
            invariant
                2 <= n == args@.len(),
                i <= n - 1,
                models == views(args@),
                complaint == self.complaint(),
                chain_from(relation, complaint, models, 0) == (Comparison {
                    pairs: pairs@ + chain_from(relation, complaint, models, i as int).pairs,
                    ..chain_from(relation, complaint, models, i as int)
                }),
            decreases n - i,
        {
            let ghost here = chain_from(relation, complaint, models, i as int);
            let ghost next = chain_from(relation, complaint, models, i + 1);
            match (Number::of(&args[i]), Number::of(&args[i + 1])) {
                (Some(Number::Int(left)), Some(Number::Int(right))) => {
                    if relation.test(left, right) {
                        assert(pairs@ + here.pairs =~= pairs@);
                        return CompareJob { relation, pairs, otherwise: Ok(false) };
                    }
                },
                (Some(left), Some(right)) => {
                    let ghost before = pairs@;
                    pairs.push((left, right));
                    assert(pairs@ + next.pairs =~= before + here.pairs);
                },
                _ => {
                    assert(pairs@ + here.pairs =~= pairs@);
                    return CompareJob { relation, pairs, otherwise: Err(self.refuse()) };
                },
            }
            i += 1;
        }
        assert(pairs@ + chain_from(relation, complaint, models, i as int).pairs =~= pairs@);
        CompareJob { relation, pairs, otherwise: Ok(true) }
    }

    /// What a call of the primitive on the values `args` comes to.
    pub fn call(&self, args: Vec<Cons>) -> (r: Result<BuiltinReturn, EvaluatorError>)
        ensures
            outcome(r) == self.applied(views(args@)),
    {
        if let Some(fold) = self.fold() {
            match collect_numbers(&args) {
                None => Err(self.refuse()),
                Some(found) => {
                    if found.len() == 1 && *self == BuiltinFunction::Sub {
                        Ok(BuiltinReturn::Value(found[0].negate().to_cons()))
                    } else if found.len() == 1 && *self == BuiltinFunction::Div {
                        Ok(
                            BuiltinReturn::Compute(
                                FloatJob::fold(ONE, FloatOp::Div, FloatOp::Div, &found, Finish::Keep),
                            ),
                        )
                    } else {
                        Ok(
                            BuiltinReturn::Compute(
                                FloatJob::fold(fold.seed, fold.first, fold.rest, &found, fold.finish),
                            ),
                        )
                    }
                },
            }
        } else if let Some(relation) = self.breaker() {
            let job = self.chain(relation, &args);
            if job.pairs.len() > 0 {
                Ok(BuiltinReturn::Compare(job))
            } else {
                match job.otherwise {
                    Ok(b) => Ok(BuiltinReturn::Value(Cons::Value(ConsValue::Boolean(b)))),
                    Err(e) => Err(e),
                }
            }
        } else {
            match self {
                BuiltinFunction::Eq => Ok(
                    BuiltinReturn::Value(Cons::Value(ConsValue::Boolean(alike(&args)))),
                ),
                BuiltinFunction::Neq => Ok(
                    BuiltinReturn::Value(Cons::Value(ConsValue::Boolean(!alike(&args)))),
                ),
                BuiltinFunction::Print => Ok(BuiltinReturn::Print(args, false)),
                BuiltinFunction::Println => Ok(BuiltinReturn::Print(args, true)),
                _ => Ok(BuiltinReturn::Value(Cons::Value(ConsValue::NIL))),
            }
        }
    }
}

/// Whether every one of `args` is the same value as the first.
fn alike(args: &Vec<Cons>) -> (r: bool)
    ensures
        r == all_alike(views(args@)),
{
    let ghost models = views(args@);
    let mut i: usize = 0;
    while i < args.len()
        invariant
            i <= args@.len(),
            models == views(args@),
            forall|j: int| 0 <= j < i ==> (#[trigger] models[j]) == models[0],
        decreases args@.len() - i,
    {
        if !args[i].same(&args[0]) {
            assert(models[i as int] != models[0]);
            return false;
        }
        i += 1;
    }
    true
}

/// What a special form comes to.
#[derive(Debug)]
pub enum MacroReturn {
    /// The form has this value.
    Value(Cons),
    /// The form has made this closure.
    Function(UserFunction),
    /// The form binds the name to what the expression evaluates to, in the
    /// environment that the form stands in.
    Define(String, Cons),
}

/// Mathematical model of a [`MacroReturn`].
pub enum Expanded {
    Value(Sexp),
    Function(Lambda),
    Define(Seq<char>, Sexp),
}

impl View for MacroReturn {
    type V = Expanded;

    open spec fn view(&self) -> Expanded {
        match self {
            MacroReturn::Value(v) => Expanded::Value(v@),
            MacroReturn::Function(f) => Expanded::Function(f@),
            MacroReturn::Define(name, expr) => Expanded::Define(name@, expr@),
        }
    }
}

impl BuiltinMacro {
    /// What the special form makes of its unevaluated argument forms `args`
    /// in the environment `scope`, and the environment afterwards.
    ///
    /// `(define name expr)` asks for `name` to be bound to the value of
    /// `expr`. `(define (fname param...) body...)` binds `fname` to the
    /// closure of the parameters and the body forms over a fork of `scope`,
    /// and has the empty list as its value. `(lambda (param...) body...)`
    /// has that closure as its value. Every parameter is a symbol. The
    /// other special forms are not defined.
    pub open spec fn expanded(self, args: Sexp, scope: Scope) -> (Result<Expanded, Failure>, Scope) {
        match self {
            BuiltinMacro::Define => match args {
                Sexp::Pair(target, rest) => match *target {
                    Sexp::Atom(Atom::Symbol(name)) => {
                        if *rest is Pair && !(rest.cdr() is Pair) {
                            (Ok(Expanded::Define(name, rest.car())), scope)
                        } else {
                            (
                                Err(Failure::InvalidArgument("Invalid argument type for define"@)),
                                scope,
                            )
                        }
                    },
                    Sexp::Pair(fname, params) => {
                        if !fname.is_symbol() {
                            (
                                Err(
                                    Failure::BadFunctionDefinition(
                                        "Function name must be a symbol."@,
                                    ),
                                ),
                                scope,
                            )
                        } else if !params.all_symbols() {
                            (Err(Failure::BadFunctionDefinition("Args must be symbols."@)), scope)
                        } else {
                            (
                                Ok(Expanded::Value(Sexp::nil())),
                                scope.bind_func(
                                    fname.name(),
                                    Lambda { args: *params, body: *rest, scope: Box::new(scope.fork()) },
                                ),
                            )
                        }
                    },
                    _ => (
                        Err(
                            Failure::BadFunctionDefinition(
                                "Definition needs a symbol or a list headed by a symbol."@,
                            ),
                        ),
                        scope,
                    ),
                },
                _ => (
                    Err(
                        Failure::BadFunctionDefinition(
                            "Definition needs a symbol or a list headed by a symbol."@,
                        ),
                    ),
                    scope,
                ),
            },
            BuiltinMacro::Lambda => match args {
                Sexp::Pair(params, body) => {
                    if params.all_symbols() {
                        (
                            Ok(
                                Expanded::Function(
                                    Lambda { args: *params, body: *body, scope: Box::new(scope.fork()) },
                                ),
                            ),
                            scope,
                        )
                    } else {
                        (Err(Failure::BadFunctionDefinition("Args must be symbols."@)), scope)
                    }
                },
                _ => (
                    Err(
                        Failure::BadFunctionDefinition(
                            "Args to functions must be a list of symbols."@,
                        ),
                    ),
                    scope,
                ),
            },
            _ => (Err(Failure::UndefinedSymbol("Undefined symbol"@)), scope),
        }
    }

    /// What the special form makes of its unevaluated argument forms `args`
    /// in the environment `stg`.
    pub fn call(&self, args: &Cons, stg: &mut LexicalVarStorage) -> (r: Result<
        MacroReturn,
        EvaluatorError,
    >)
        ensures
            (outcome(r), final(stg)@) == self.expanded(args@, old(stg)@),
    {
        match self {
            BuiltinMacro::Define => {
                let (target, rest) = match args.split() {
                    Some(parts) => parts,
                    None => {
                        return Err(
                            EvaluatorError::BadFunctionDefinition(
                                "Definition needs a symbol or a list headed by a symbol.".to_owned(),
                            ),
                        );
                    },
                };
                match &target {
                    Cons::Value(ConsValue::Symbol(name)) => {
                        if rest.is_cell() && !rest.cdr().is_cell() {
                            Ok(MacroReturn::Define(name.clone(), rest.car()))
                        } else {
                            Err(
                                EvaluatorError::InvalidArgument(
                                    "Invalid argument type for define".to_owned(),
                                ),
                            )
                        }
                    },
                    Cons::Cell(fname, params) => {
                        assert(target@ == Sexp::cons((**fname)@, (**params)@));
                        match &**fname {
                            Cons::Value(ConsValue::Symbol(name)) => {
                                if !(**params).symbols_only() {
                                    return Err(
                                        EvaluatorError::BadFunctionDefinition(
                                            "Args must be symbols.".to_owned(),
                                        ),
                                    );
                                }
                                let func = UserFunction::new((**params).clone(), rest, stg.fork());
                                stg.put_func(name.as_str(), func);
                                Ok(MacroReturn::Value(Cons::Value(ConsValue::NIL)))
                            },
                            _ => Err(
                                EvaluatorError::BadFunctionDefinition(
                                    "Function name must be a symbol.".to_owned(),
                                ),
                            ),
                        }
                    },
                    _ => Err(
                        EvaluatorError::BadFunctionDefinition(
                            "Definition needs a symbol or a list headed by a symbol.".to_owned(),
                        ),
                    ),
                }
            },
            BuiltinMacro::Lambda => {
                match args.split() {
                    Some((params, body)) => {
                        if params.symbols_only() {
                            Ok(MacroReturn::Function(UserFunction::new(params, body, stg.fork())))
                        } else {
                            Err(
                                EvaluatorError::BadFunctionDefinition(
                                    "Args must be symbols.".to_owned(),
                                ),
                            )
                        }
                    },
                    None => Err(
                        EvaluatorError::BadFunctionDefinition(
                            "Args to functions must be a list of symbols.".to_owned(),
                        ),
                    ),
                }
            },
            _ => Err(EvaluatorError::UndefinedSymbol("Undefined symbol".to_owned())),
        }
    }
}

/// Mathematical model of a closure: the list of its parameters, the list of
/// the forms of its body, and the environment it was made in.
pub struct Lambda {
    pub args: Sexp,
    pub body: Sexp,
    pub scope: Box<Scope>,
}

/// A user-defined function: parameters, body and captured environment.
#[derive(Debug)]
pub struct UserFunction {
    args: Cons,
    body: Cons,
    _environ: LexicalVarStorage,
}

pub closed spec fn lambda_of(f: UserFunction) -> Lambda
    decreases f,
{
    Lambda { args: f.args@, body: f.body@, scope: Box::new(scope_of(f._environ)) }
}

impl View for UserFunction {
    type V = Lambda;

    open spec fn view(&self) -> Lambda {
        lambda_of(*self)
    }
}

/// The environment after binding the parameters from the one at `from` on
/// to the arguments at the same places. A plain value is bound as a
/// variable, a closure as a function. A parameter that is no symbol and an
/// argument that is a builtin handle end the binding with an error.
pub open spec fn bind_from(params: Seq<Sexp>, args: Seq<Evaluated>, scope: Scope, from: int)
    -> Result<Scope, Failure>
    decreases params.len() - from,
{
    if from < 0 || from >= params.len() || from >= args.len() {
        Ok(scope)
    } else if !params[from].is_symbol() {
        Err(Failure::BadFunctionDefinition("Args must be symbols."@))
    } else {
        match args[from] {
            Evaluated::Data(value) => bind_from(
                params,
                args,
                scope.bind(params[from].name(), value),
                from + 1,
            ),
            Evaluated::Closure(func) => bind_from(
                params,
                args,
                scope.bind_func(params[from].name(), func),
                from + 1,
            ),
            _ => Err(Failure::InvalidArgument("Invalid argument"@)),
        }
    }
}

impl Lambda {
    /// The closure as data: the list `(lambda args body)`.
    pub open spec fn to_sexp(self) -> Sexp {
        Sexp::list(seq![Sexp::symbol("lambda"@), self.args, self.body])
    }

    /// The environment in which a call with the evaluated arguments `args`
    /// runs the body: a fork of the captured environment with every
    /// parameter bound to the argument at its place. A call with more or
    /// fewer arguments than parameters is an error.
    pub open spec fn bound(self, args: Seq<Evaluated>) -> Result<Scope, Failure> {
        if self.args.elements().len() != args.len() {
            Err(Failure::InvalidArgument("Wrong number of arguments"@))
        } else {
            bind_from(self.args.elements(), args, self.scope.fork(), 0)
        }
    }
}

impl UserFunction {
    /// The closure with the given parameter list, body forms and captured
    /// environment.
    pub fn new(args: Cons, body: Cons, _environ: LexicalVarStorage) -> (r: Self)
        ensures
            r@ == (Lambda { args: args@, body: body@, scope: Box::new(_environ@) }),
    {
        Self { args, body, _environ }
    }

    /// The list of the parameters.
    pub fn params(&self) -> (r: &Cons)
        ensures
            r@ == self@.args,
    {
        &self.args
    }

    /// The list of the forms of the body.
    pub fn body(&self) -> (r: &Cons)
        ensures
            r@ == self@.body,
    {
        &self.body
    }

    /// The environment that the closure was made in.
    pub fn environ(&self) -> (r: &LexicalVarStorage)
        ensures
            r@ == *self@.scope,
    {
        &self._environ
    }

    /// The environment in which a call with the evaluated arguments `args`
    /// runs the body.
    pub fn bind(&self, args: &Vec<EvalReturnType>) -> (r: Result<LexicalVarStorage, EvaluatorError>)
        ensures
            outcome(r) == self@.bound(results(args@)),
    {
        let params = self.args.to_vec();
        if params.len() != args.len() {
            return Err(EvaluatorError::InvalidArgument("Wrong number of arguments".to_owned()));
        }
        let ghost names = views(params@);
        let ghost given = results(args@);
        let ghost start = self@.scope.fork();
        let mut scope = self._environ.fork();
        let mut i: usize = 0;
        while i < params.len()
            invariant
                i <= params@.len() == args@.len(),
                names == views(params@),
                names == self@.args.elements(),
                given == results(args@),
                start == self@.scope.fork(),
                bind_from(names, given, start, 0) == bind_from(names, given, scope@, i as int),
            decreases params@.len() - i,
        {
            assert(names[i as int] == params@[i as int]@);
            assert(given[i as int] == args@[i as int]@);
            match &params[i] {
                Cons::Value(ConsValue::Symbol(name)) => {
                    match &args[i] {
                        EvalReturnType::CONS(value) => {
                            scope.put(name.as_str(), value.clone());
                        },
                        EvalReturnType::USER(func) => {
                            scope.put_func(name.as_str(), func.clone());
                        },
                        _ => {
                            return Err(
                                EvaluatorError::InvalidArgument("Invalid argument".to_owned()),
                            );
                        },
                    }
                },
                _ => {
                    return Err(
                        EvaluatorError::BadFunctionDefinition("Args must be symbols.".to_owned()),
                    );
                },
            }
            i += 1;
        }
        Ok(scope)
    }

    /// The closure as data: the list `(lambda args body)`.
    pub fn to_cons(&self) -> (r: Cons)
        ensures
            r@ == self@.to_sexp(),
    {
        let mut items: Vec<Cons> = Vec::new();
        items.push(Cons::Value(ConsValue::Symbol("lambda".to_owned())));
        items.push(self.args.clone());
        items.push(self.body.clone());
        proof {
            assert(crate::types::views(items@) =~= seq![
                Sexp::symbol("lambda"@),
                self@.args,
                self@.body,
            ]);
        }
        Cons::from_iter(items)
    }
}

impl Clone for UserFunction {
    fn clone(&self) -> (r: Self)
        ensures
            r@ == self@,
    {
        Self {
            args: self.args.clone(),
            body: self.body.clone(),
            _environ: self._environ.clone(),
        }
    }
}

/// The integers `values` as values.
pub open spec fn integers(values: Seq<i64>) -> Seq<Sexp> {
    Seq::new(values.len(), |i: int| Sexp::Atom(Atom::Int(values[i])))
}

/// Whether `relation` holds of no pair of neighbours from the pair at
/// `from` on.
pub open spec fn unbroken(relation: Relation, values: Seq<i64>, from: int) -> bool {
    forall|i: int| from <= i < values.len() - 1 ==> !relation.holds(values[i], #[trigger] values[i + 1])
}

proof fn lemma_integer_chain_from(
    relation: Relation,
    complaint: Seq<char>,
    values: Seq<i64>,
    from: int,
)
    requires
        0 <= from,
    ensures
        chain_from(relation, complaint, integers(values), from) == (Comparison {
            relation,
            pairs: Seq::empty(),
            otherwise: Ok(unbroken(relation, values, from)),
        }),
    decreases values.len() - from,
{
    if from + 1 < values.len() {
        lemma_integer_chain_from(relation, complaint, values, from + 1);
        if relation.holds(values[from], values[from + 1]) {
            assert(!unbroken(relation, values, from));
        } else {
            assert(unbroken(relation, values, from) == unbroken(relation, values, from + 1)) by {
                if unbroken(relation, values, from + 1) {
                    assert forall|i: int| from <= i < values.len() - 1 implies !relation.holds(
                        values[i],
                        #[trigger] values[i + 1],
                    ) by {
                        if i == from {
                        }
                    }
                }
            }
        }
    }
}

/// A comparison of integers is decided without the host: it holds exactly
/// where the relation that breaks the chain holds of no pair of
/// neighbours. With fewer than two arguments it holds.
pub proof fn lemma_integer_chain(f: BuiltinFunction, values: Seq<i64>)
    requires
        f.breaking() is Some,
    ensures
        f.applied(integers(values)) == Ok::<Applied, Failure>(
            Applied::Value(Sexp::boolean(unbroken(f.breaking().unwrap(), values, 0))),
        ),
{
    lemma_integer_chain_from(f.breaking().unwrap(), f.complaint(), values, 0);
}

/// No name denotes both an eager primitive and a special form.
pub proof fn lemma_tables_are_disjoint(name: Seq<char>)
    ensures
        !(builtin_function(name) is Some && builtin_macro(name) is Some),
{
    reveal_strlit("+");
    reveal_strlit("-");
    reveal_strlit("*");
    reveal_strlit("/");
    reveal_strlit("floordiv");
    reveal_strlit("%");
    reveal_strlit("^");
    reveal_strlit("=");
    reveal_strlit("!=");
    reveal_strlit("<");
    reveal_strlit(">");
    reveal_strlit("<=");
    reveal_strlit(">=");
    reveal_strlit("not");
    reveal_strlit("print");
    reveal_strlit("println");
    reveal_strlit("input");
    reveal_strlit("list");
    reveal_strlit("cons");
    reveal_strlit("car");
    reveal_strlit("cdr");
    reveal_strlit("is-list");
    reveal_strlit("is-symbol");
    reveal_strlit("is-string");
    reveal_strlit("is-boolean");
    reveal_strlit("is-int");
    reveal_strlit("is-float");
    reveal_strlit("is-quoted");
    reveal_strlit("is-comment");
    reveal_strlit("is-function");
    reveal_strlit("is-macro");
    reveal_strlit("is-nil");
    reveal_strlit("is-defined");
    reveal_strlit("is-bound");
    reveal_strlit("quote");
    reveal_strlit("quasiquote");
    reveal_strlit("unquote");
    reveal_strlit("unquote-splicing");
    reveal_strlit("apply");
    reveal_strlit("load");
    reveal_strlit("exit");
    reveal_strlit("help");
    reveal_strlit("match");
    reveal_strlit("define");
    reveal_strlit("set");
    reveal_strlit("let");
    reveal_strlit("if");
    reveal_strlit("lambda");
    reveal_strlit("cond");
    reveal_strlit("and");
    reveal_strlit("or");
    reveal_strlit("eval");
    reveal_strlit("parse");
    if name == "match"@ {
        assert("+"@.len() != name.len());
        assert("-"@.len() != name.len());
        assert("*"@.len() != name.len());
        assert("/"@.len() != name.len());
        assert("floordiv"@.len() != name.len());
        assert("%"@.len() != name.len());
        assert("^"@.len() != name.len());
        assert("="@.len() != name.len());
        assert("!="@.len() != name.len());
        assert("<"@.len() != name.len());
        assert(">"@.len() != name.len());
        assert("<="@.len() != name.len());
        assert(">="@.len() != name.len());
        assert("not"@.len() != name.len());
        assert("print"@[0] != name[0]);
        assert("println"@.len() != name.len());
        assert("input"@[0] != name[0]);
        assert("list"@.len() != name.len());
        assert("cons"@.len() != name.len());
        assert("car"@.len() != name.len());
        assert("cdr"@.len() != name.len());
        assert("is-list"@.len() != name.len());
        assert("is-symbol"@.len() != name.len());
        assert("is-string"@.len() != name.len());
        assert("is-boolean"@.len() != name.len());
        assert("is-int"@.len() != name.len());
        assert("is-float"@.len() != name.len());
        assert("is-quoted"@.len() != name.len());
        assert("is-comment"@.len() != name.len());
        assert("is-function"@.len() != name.len());
        assert("is-macro"@.len() != name.len());
        assert("is-nil"@.len() != name.len());
        assert("is-defined"@.len() != name.len());
        assert("is-bound"@.len() != name.len());
        assert("quote"@[0] != name[0]);
        assert("quasiquote"@.len() != name.len());
        assert("unquote"@.len() != name.len());
        assert("unquote-splicing"@.len() != name.len());
        assert("apply"@[0] != name[0]);
        assert("load"@.len() != name.len());
        assert("exit"@.len() != name.len());
        assert("help"@.len() != name.len());
        assert(builtin_function(name) is None);
    }
    if name == "define"@ {
        assert("+"@.len() != name.len());
        assert("-"@.len() != name.len());
        assert("*"@.len() != name.len());
        assert("/"@.len() != name.len());
        assert("floordiv"@.len() != name.len());
        assert("%"@.len() != name.len());
        assert("^"@.len() != name.len());
        assert("="@.len() != name.len());
        assert("!="@.len() != name.len());
        assert("<"@.len() != name.len());
        assert(">"@.len() != name.len());
        assert("<="@.len() != name.len());
        assert(">="@.len() != name.len());
        assert("not"@.len() != name.len());
        assert("print"@.len() != name.len());
        assert("println"@.len() != name.len());
        assert("input"@.len() != name.len());
        assert("list"@.len() != name.len());
        assert("cons"@.len() != name.len());
        assert("car"@.len() != name.len());
        assert("cdr"@.len() != name.len());
        assert("is-list"@.len() != name.len());
        assert("is-symbol"@.len() != name.len());
        assert("is-string"@.len() != name.len());
        assert("is-boolean"@.len() != name.len());
        assert("is-int"@[0] != name[0]);
        assert("is-float"@.len() != name.len());
        assert("is-quoted"@.len() != name.len());
        assert("is-comment"@.len() != name.len());
        assert("is-function"@.len() != name.len());
        assert("is-macro"@.len() != name.len());
        assert("is-nil"@[0] != name[0]);
        assert("is-defined"@.len() != name.len());
        assert("is-bound"@.len() != name.len());
        assert("quote"@.len() != name.len());
        assert("quasiquote"@.len() != name.len());
        assert("unquote"@.len() != name.len());
        assert("unquote-splicing"@.len() != name.len());
        assert("apply"@.len() != name.len());
        assert("load"@.len() != name.len());
        assert("exit"@.len() != name.len());
        assert("help"@.len() != name.len());
        assert(builtin_function(name) is None);
    }
    if name == "set"@ {
        assert("+"@.len() != name.len());
        assert("-"@.len() != name.len());
        assert("*"@.len() != name.len());
        assert("/"@.len() != name.len());
        assert("floordiv"@.len() != name.len());
        assert("%"@.len() != name.len());
        assert("^"@.len() != name.len());
        assert("="@.len() != name.len());
        assert("!="@.len() != name.len());
        assert("<"@.len() != name.len());
        assert(">"@.len() != name.len());
        assert("<="@.len() != name.len());
        assert(">="@.len() != name.len());
        assert("not"@[0] != name[0]);
        assert("print"@.len() != name.len());
        assert("println"@.len() != name.len());
        assert("input"@.len() != name.len());
        assert("list"@.len() != name.len());
        assert("cons"@.len() != name.len());
        assert("car"@[0] != name[0]);
        assert("cdr"@[0] != name[0]);
        assert("is-list"@.len() != name.len());
        assert("is-symbol"@.len() != name.len());
        assert("is-string"@.len() != name.len());
        assert("is-boolean"@.len() != name.len());
        assert("is-int"@.len() != name.len());
        assert("is-float"@.len() != name.len());
        assert("is-quoted"@.len() != name.len());
        assert("is-comment"@.len() != name.len());
        assert("is-function"@.len() != name.len());
        assert("is-macro"@.len() != name.len());
        assert("is-nil"@.len() != name.len());
        assert("is-defined"@.len() != name.len());
        assert("is-bound"@.len() != name.len());
        assert("quote"@.len() != name.len());
        assert("quasiquote"@.len() != name.len());
        assert("unquote"@.len() != name.len());
        assert("unquote-splicing"@.len() != name.len());
        assert("apply"@.len() != name.len());
        assert("load"@.len() != name.len());
        assert("exit"@.len() != name.len());
        assert("help"@.len() != name.len());
        assert(builtin_function(name) is None);
    }
    if name == "let"@ {
        assert("+"@.len() != name.len());
        assert("-"@.len() != name.len());
        assert("*"@.len() != name.len());
        assert("/"@.len() != name.len());
        assert("floordiv"@.len() != name.len());
        assert("%"@.len() != name.len());
        assert("^"@.len() != name.len());
        assert("="@.len() != name.len());
        assert("!="@.len() != name.len());
        assert("<"@.len() != name.len());
        assert(">"@.len() != name.len());
        assert("<="@.len() != name.len());
        assert(">="@.len() != name.len());
        assert("not"@[0] != name[0]);
        assert("print"@.len() != name.len());
        assert("println"@.len() != name.len());
        assert("input"@.len() != name.len());
        assert("list"@.len() != name.len());
        assert("cons"@.len() != name.len());
        assert("car"@[0] != name[0]);
        assert("cdr"@[0] != name[0]);
        assert("is-list"@.len() != name.len());
        assert("is-symbol"@.len() != name.len());
        assert("is-string"@.len() != name.len());
        assert("is-boolean"@.len() != name.len());
        assert("is-int"@.len() != name.len());
        assert("is-float"@.len() != name.len());
        assert("is-quoted"@.len() != name.len());
        assert("is-comment"@.len() != name.len());
        assert("is-function"@.len() != name.len());
        assert("is-macro"@.len() != name.len());
        assert("is-nil"@.len() != name.len());
        assert("is-defined"@.len() != name.len());
        assert("is-bound"@.len() != name.len());
        assert("quote"@.len() != name.len());
        assert("quasiquote"@.len() != name.len());
        assert("unquote"@.len() != name.len());
        assert("unquote-splicing"@.len() != name.len());
        assert("apply"@.len() != name.len());
        assert("load"@.len() != name.len());
        assert("exit"@.len() != name.len());
        assert("help"@.len() != name.len());
        assert(builtin_function(name) is None);
    }
    if name == "if"@ {
        assert("+"@.len() != name.len());
        assert("-"@.len() != name.len());
        assert("*"@.len() != name.len());
        assert("/"@.len() != name.len());
        assert("floordiv"@.len() != name.len());
        assert("%"@.len() != name.len());
        assert("^"@.len() != name.len());
        assert("="@.len() != name.len());
        assert("!="@[0] != name[0]);
        assert("<"@.len() != name.len());
        assert(">"@.len() != name.len());
        assert("<="@[0] != name[0]);
        assert(">="@[0] != name[0]);
        assert("not"@.len() != name.len());
        assert("print"@.len() != name.len());
        assert("println"@.len() != name.len());
        assert("input"@.len() != name.len());
        assert("list"@.len() != name.len());
        assert("cons"@.len() != name.len());
        assert("car"@.len() != name.len());
        assert("cdr"@.len() != name.len());
        assert("is-list"@.len() != name.len());
        assert("is-symbol"@.len() != name.len());
        assert("is-string"@.len() != name.len());
        assert("is-boolean"@.len() != name.len());
        assert("is-int"@.len() != name.len());
        assert("is-float"@.len() != name.len());
        assert("is-quoted"@.len() != name.len());
        assert("is-comment"@.len() != name.len());
        assert("is-function"@.len() != name.len());
        assert("is-macro"@.len() != name.len());
        assert("is-nil"@.len() != name.len());
        assert("is-defined"@.len() != name.len());
        assert("is-bound"@.len() != name.len());
        assert("quote"@.len() != name.len());
        assert("quasiquote"@.len() != name.len());
        assert("unquote"@.len() != name.len());
        assert("unquote-splicing"@.len() != name.len());
        assert("apply"@.len() != name.len());
        assert("load"@.len() != name.len());
        assert("exit"@.len() != name.len());
        assert("help"@.len() != name.len());
        assert(builtin_function(name) is None);
    }
    if name == "lambda"@ {
        assert("+"@.len() != name.len());
        assert("-"@.len() != name.len());
        assert("*"@.len() != name.len());
        assert("/"@.len() != name.len());
        assert("floordiv"@.len() != name.len());
        assert("%"@.len() != name.len());
        assert("^"@.len() != name.len());
        assert("="@.len() != name.len());
        assert("!="@.len() != name.len());
        assert("<"@.len() != name.len());
        assert(">"@.len() != name.len());
        assert("<="@.len() != name.len());
        assert(">="@.len() != name.len());
        assert("not"@.len() != name.len());
        assert("print"@.len() != name.len());
        assert("println"@.len() != name.len());
        assert("input"@.len() != name.len());
        assert("list"@.len() != name.len());
        assert("cons"@.len() != name.len());
        assert("car"@.len() != name.len());
        assert("cdr"@.len() != name.len());
        assert("is-list"@.len() != name.len());
        assert("is-symbol"@.len() != name.len());
        assert("is-string"@.len() != name.len());
        assert("is-boolean"@.len() != name.len());
        assert("is-int"@[0] != name[0]);
        assert("is-float"@.len() != name.len());
        assert("is-quoted"@.len() != name.len());
        assert("is-comment"@.len() != name.len());
        assert("is-function"@.len() != name.len());
        assert("is-macro"@.len() != name.len());
        assert("is-nil"@[0] != name[0]);
        assert("is-defined"@.len() != name.len());
        assert("is-bound"@.len() != name.len());
        assert("quote"@.len() != name.len());
        assert("quasiquote"@.len() != name.len());
        assert("unquote"@.len() != name.len());
        assert("unquote-splicing"@.len() != name.len());
        assert("apply"@.len() != name.len());
        assert("load"@.len() != name.len());
        assert("exit"@.len() != name.len());
        assert("help"@.len() != name.len());
        assert(builtin_function(name) is None);
    }
    if name == "cond"@ {
        assert("+"@.len() != name.len());
        assert("-"@.len() != name.len());
        assert("*"@.len() != name.len());
        assert("/"@.len() != name.len());
        assert("floordiv"@.len() != name.len());
        assert("%"@.len() != name.len());
        assert("^"@.len() != name.len());
        assert("="@.len() != name.len());
        assert("!="@.len() != name.len());
        assert("<"@.len() != name.len());
        assert(">"@.len() != name.len());
        assert("<="@.len() != name.len());
        assert(">="@.len() != name.len());
        assert("not"@.len() != name.len());
        assert("print"@.len() != name.len());
        assert("println"@.len() != name.len());
        assert("input"@.len() != name.len());
        assert("list"@[0] != name[0]);
        assert("cons"@[3] != name[3]);
        assert("car"@.len() != name.len());
        assert("cdr"@.len() != name.len());
        assert("is-list"@.len() != name.len());
        assert("is-symbol"@.len() != name.len());
        assert("is-string"@.len() != name.len());
        assert("is-boolean"@.len() != name.len());
        assert("is-int"@.len() != name.len());
        assert("is-float"@.len() != name.len());
        assert("is-quoted"@.len() != name.len());
        assert("is-comment"@.len() != name.len());
        assert("is-function"@.len() != name.len());
        assert("is-macro"@.len() != name.len());
        assert("is-nil"@.len() != name.len());
        assert("is-defined"@.len() != name.len());
        assert("is-bound"@.len() != name.len());
        assert("quote"@.len() != name.len());
        assert("quasiquote"@.len() != name.len());
        assert("unquote"@.len() != name.len());
        assert("unquote-splicing"@.len() != name.len());
        assert("apply"@.len() != name.len());
        assert("load"@[0] != name[0]);
        assert("exit"@[0] != name[0]);
        assert("help"@[0] != name[0]);
        assert(builtin_function(name) is None);
    }
    if name == "and"@ {
        assert("+"@.len() != name.len());
        assert("-"@.len() != name.len());
        assert("*"@.len() != name.len());
        assert("/"@.len() != name.len());
        assert("floordiv"@.len() != name.len());
        assert("%"@.len() != name.len());
        assert("^"@.len() != name.len());
        assert("="@.len() != name.len());
        assert("!="@.len() != name.len());
        assert("<"@.len() != name.len());
        assert(">"@.len() != name.len());
        assert("<="@.len() != name.len());
        assert(">="@.len() != name.len());
        assert("not"@[0] != name[0]);
        assert("print"@.len() != name.len());
        assert("println"@.len() != name.len());
        assert("input"@.len() != name.len());
        assert("list"@.len() != name.len());
        assert("cons"@.len() != name.len());
        assert("car"@[0] != name[0]);
        assert("cdr"@[0] != name[0]);
        assert("is-list"@.len() != name.len());
        assert("is-symbol"@.len() != name.len());
        assert("is-string"@.len() != name.len());
        assert("is-boolean"@.len() != name.len());
        assert("is-int"@.len() != name.len());
        assert("is-float"@.len() != name.len());
        assert("is-quoted"@.len() != name.len());
        assert("is-comment"@.len() != name.len());
        assert("is-function"@.len() != name.len());
        assert("is-macro"@.len() != name.len());
        assert("is-nil"@.len() != name.len());
        assert("is-defined"@.len() != name.len());
        assert("is-bound"@.len() != name.len());
        assert("quote"@.len() != name.len());
        assert("quasiquote"@.len() != name.len());
        assert("unquote"@.len() != name.len());
        assert("unquote-splicing"@.len() != name.len());
        assert("apply"@.len() != name.len());
        assert("load"@.len() != name.len());
        assert("exit"@.len() != name.len());
        assert("help"@.len() != name.len());
        assert(builtin_function(name) is None);
    }
    if name == "or"@ {
        assert("+"@.len() != name.len());
        assert("-"@.len() != name.len());
        assert("*"@.len() != name.len());
        assert("/"@.len() != name.len());
        assert("floordiv"@.len() != name.len());
        assert("%"@.len() != name.len());
        assert("^"@.len() != name.len());
        assert("="@.len() != name.len());
        assert("!="@[0] != name[0]);
        assert("<"@.len() != name.len());
        assert(">"@.len() != name.len());
        assert("<="@[0] != name[0]);
        assert(">="@[0] != name[0]);
        assert("not"@.len() != name.len());
        assert("print"@.len() != name.len());
        assert("println"@.len() != name.len());
        assert("input"@.len() != name.len());
        assert("list"@.len() != name.len());
        assert("cons"@.len() != name.len());
        assert("car"@.len() != name.len());
        assert("cdr"@.len() != name.len());
        assert("is-list"@.len() != name.len());
        assert("is-symbol"@.len() != name.len());
        assert("is-string"@.len() != name.len());
        assert("is-boolean"@.len() != name.len());
        assert("is-int"@.len() != name.len());
        assert("is-float"@.len() != name.len());
        assert("is-quoted"@.len() != name.len());
        assert("is-comment"@.len() != name.len());
        assert("is-function"@.len() != name.len());
        assert("is-macro"@.len() != name.len());
        assert("is-nil"@.len() != name.len());
        assert("is-defined"@.len() != name.len());
        assert("is-bound"@.len() != name.len());
        assert("quote"@.len() != name.len());
        assert("quasiquote"@.len() != name.len());
        assert("unquote"@.len() != name.len());
        assert("unquote-splicing"@.len() != name.len());
        assert("apply"@.len() != name.len());
        assert("load"@.len() != name.len());
        assert("exit"@.len() != name.len());
        assert("help"@.len() != name.len());
        assert(builtin_function(name) is None);
    }
    if name == "eval"@ {
        assert("+"@.len() != name.len());
        assert("-"@.len() != name.len());
        assert("*"@.len() != name.len());
        assert("/"@.len() != name.len());
        assert("floordiv"@.len() != name.len());
        assert("%"@.len() != name.len());
        assert("^"@.len() != name.len());
        assert("="@.len() != name.len());
        assert("!="@.len() != name.len());
        assert("<"@.len() != name.len());
        assert(">"@.len() != name.len());
        assert("<="@.len() != name.len());
        assert(">="@.len() != name.len());
        assert("not"@.len() != name.len());
        assert("print"@.len() != name.len());
        assert("println"@.len() != name.len());
        assert("input"@.len() != name.len());
        assert("list"@[0] != name[0]);
        assert("cons"@[0] != name[0]);
        assert("car"@.len() != name.len());
        assert("cdr"@.len() != name.len());
        assert("is-list"@.len() != name.len());
        assert("is-symbol"@.len() != name.len());
        assert("is-string"@.len() != name.len());
        assert("is-boolean"@.len() != name.len());
        assert("is-int"@.len() != name.len());
        assert("is-float"@.len() != name.len());
        assert("is-quoted"@.len() != name.len());
        assert("is-comment"@.len() != name.len());
        assert("is-function"@.len() != name.len());
        assert("is-macro"@.len() != name.len());
        assert("is-nil"@.len() != name.len());
        assert("is-defined"@.len() != name.len());
        assert("is-bound"@.len() != name.len());
        assert("quote"@.len() != name.len());
        assert("quasiquote"@.len() != name.len());
        assert("unquote"@.len() != name.len());
        assert("unquote-splicing"@.len() != name.len());
        assert("apply"@.len() != name.len());
        assert("load"@[0] != name[0]);
        assert("exit"@[1] != name[1]);
        assert("help"@[0] != name[0]);
        assert(builtin_function(name) is None);
    }
    if name == "parse"@ {
        assert("+"@.len() != name.len());
        assert("-"@.len() != name.len());
        assert("*"@.len() != name.len());
        assert("/"@.len() != name.len());
        assert("floordiv"@.len() != name.len());
        assert("%"@.len() != name.len());
        assert("^"@.len() != name.len());
        assert("="@.len() != name.len());
        assert("!="@.len() != name.len());
        assert("<"@.len() != name.len());
        assert(">"@.len() != name.len());
        assert("<="@.len() != name.len());
        assert(">="@.len() != name.len());
        assert("not"@.len() != name.len());
        assert("print"@[1] != name[1]);
        assert("println"@.len() != name.len());
        assert("input"@[0] != name[0]);
        assert("list"@.len() != name.len());
        assert("cons"@.len() != name.len());
        assert("car"@.len() != name.len());
        assert("cdr"@.len() != name.len());
        assert("is-list"@.len() != name.len());
        assert("is-symbol"@.len() != name.len());
        assert("is-string"@.len() != name.len());
        assert("is-boolean"@.len() != name.len());
        assert("is-int"@.len() != name.len());
        assert("is-float"@.len() != name.len());
        assert("is-quoted"@.len() != name.len());
        assert("is-comment"@.len() != name.len());
        assert("is-function"@.len() != name.len());
        assert("is-macro"@.len() != name.len());
        assert("is-nil"@.len() != name.len());
        assert("is-defined"@.len() != name.len());
        assert("is-bound"@.len() != name.len());
        assert("quote"@[0] != name[0]);
        assert("quasiquote"@.len() != name.len());
        assert("unquote"@.len() != name.len());
        assert("unquote-splicing"@.len() != name.len());
        assert("apply"@[0] != name[0]);
        assert("load"@.len() != name.len());
        assert("exit"@.len() != name.len());
        assert("help"@.len() != name.len());
        assert(builtin_function(name) is None);
    }
}

} // verus!
