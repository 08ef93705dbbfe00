use boxr::errors::EvaluatorError;
use boxr::evaluator::{Action, Machine, Reply};
use boxr::types::numeric::{CompareJob, Finish, FloatJob, FloatOp, Number, Relation};
use boxr::types::scope::LexicalVarStorage;
use boxr::types::{Cons, ConsValue};
use std::sync::Arc;

fn as_double(n: Number) -> f64 {
    match n {
        Number::Int(i) => i as f64,
        Number::Float(bits) => f64::from_bits(bits),
    }
}

fn compute(job: &FloatJob) -> Number {
    let mut acc = f64::from_bits(job.seed);
    for step in &job.steps {
        let x = as_double(step.operand);
        acc = match step.op {
            FloatOp::Add => acc + x,
            FloatOp::Sub => acc - x,
            FloatOp::Mul => acc * x,
            FloatOp::Div => acc / x,
            FloatOp::Rem => acc % x,
            FloatOp::Pow => acc.powf(x),
        };
    }
    match job.finish {
        Finish::Narrow => {
            if acc.fract() == 0.0 {
                Number::Int(acc as i64)
            } else {
                Number::Float(acc.to_bits())
            }
        }
        Finish::Truncate => Number::Int(acc as i64),
        Finish::Keep => Number::Float(acc.to_bits()),
    }
}

fn compare(job: &CompareJob) -> bool {
    job.pairs.iter().any(|(l, r)| {
        let (l, r) = (as_double(*l), as_double(*r));
        match job.relation {
            Relation::Less => l < r,
            Relation::LessOrEqual => l <= r,
            Relation::Greater => l > r,
            Relation::GreaterOrEqual => l >= r,
        }
    })
}

fn lisp_eval(expr: &Cons, stg: &mut LexicalVarStorage) -> Result<Cons, EvaluatorError> {
    let mut machine = Machine::load(expr.clone());
    let mut reply = Reply::Nothing;
    loop {
        let (next, action) = machine.step(stg, reply);
        machine = next;
        reply = match action {
            Action::Continue => Reply::Nothing,
            Action::Done(result) => return result,
            Action::Compute(job) => Reply::Number(compute(&job)),
            Action::Compare(job) => Reply::Truth(compare(&job)),
            Action::Print(_, _) => Reply::Nothing,
        };
    }
}

fn float(x: f64) -> ConsValue {
    ConsValue::Float(x.to_bits())
}

fn sym(name: &str) -> Cons {
    Cons::Value(ConsValue::Symbol(name.to_string()))
}

fn num(i: i64) -> Cons {
    Cons::Value(ConsValue::Int(i))
}

#[test]
fn test_eval_int() {
    let mut stg = LexicalVarStorage::new();
    let expr = Cons::Value(ConsValue::Int(123));
    let result = lisp_eval(&expr, &mut stg);
    assert!(result.is_ok());
    let result = result.unwrap();
    assert_eq!(result, expr);
}

#[test]
fn test_eval_str() {
    let mut stg = LexicalVarStorage::new();
    let expr = Cons::Value(ConsValue::String("foo".to_string()));
    let result = lisp_eval(&expr, &mut stg);
    assert!(result.is_ok());
    let result = result.unwrap();
    assert_eq!(result, expr);
}

#[test]
fn test_eval_float() {
    let mut stg = LexicalVarStorage::new();
    let expr = Cons::Value(float(123.456));
    let result = lisp_eval(&expr, &mut stg);
    assert!(result.is_ok());
    let result = result.unwrap();
    assert_eq!(result, expr);
}

#[test]
fn test_eval_bool() {
    let mut stg = LexicalVarStorage::new();
    let expr = Cons::Value(ConsValue::Boolean(true));
    let result = lisp_eval(&expr, &mut stg);
    assert!(result.is_ok());
    let result = result.unwrap();
    assert_eq!(result, expr);
}

#[test]
fn test_single_quote() {
    let mut stg = LexicalVarStorage::new();
    let expr = Cons::Quoted(Arc::new(Cons::Value(
        ConsValue::Int(123),
    )));
    let result = lisp_eval(&expr, &mut stg);
    assert!(result.is_ok());
    let result = result.unwrap();
    assert_eq!(
        result,
        Cons::Value(ConsValue::Int(123))
    );
}

#[test]
fn test_multi_quote() {
    let mut stg = LexicalVarStorage::new();
    let expr = Cons::Quoted(Arc::new(Cons::Quoted(Arc::new(
        Cons::Value(ConsValue::Int(123)),
    ))));
    let result = lisp_eval(&expr, &mut stg);
    assert!(result.is_ok());
    let result = result.unwrap();
    assert_eq!(
        result,
        Cons::Quoted(Arc::new(Cons::Value(
            ConsValue::Int(123)
        )))
    );
}

#[test]
fn test_single_quote_list() {
    let mut stg = LexicalVarStorage::new();
    let expr = Cons::Quoted(Arc::new(Cons::from_iter(vec![
        Cons::Value(ConsValue::Int(123)),
        Cons::Value(ConsValue::Int(456)),
        Cons::Value(ConsValue::Int(789)),
    ])));
    let result = lisp_eval(&expr, &mut stg);
    assert!(result.is_ok());
    let result = result.unwrap();
    assert_eq!(
        result,
        Cons::from_iter(vec![
            Cons::Value(ConsValue::Int(123)),
            Cons::Value(ConsValue::Int(456)),
            Cons::Value(ConsValue::Int(789)),
        ])
    );
}

#[test]
fn test_multi_quote_list() {
    let mut stg = LexicalVarStorage::new();
    let expr = Cons::Quoted(Arc::new(Cons::Quoted(Arc::new(
        Cons::from_iter(vec![
            Cons::Value(ConsValue::Int(123)),
            Cons::Value(ConsValue::Int(456)),
            Cons::Value(ConsValue::Int(789)),
        ]),
    ))));
    let result = lisp_eval(&expr, &mut stg);
    assert!(result.is_ok());
    let result = result.unwrap();
    assert_eq!(
        result,
        Cons::Quoted(Arc::new(Cons::from_iter(vec![
            Cons::Value(ConsValue::Int(123)),
            Cons::Value(ConsValue::Int(456)),
            Cons::Value(ConsValue::Int(789)),
        ])))
    );
}

#[test]
fn test_func_add() {
    let mut stg = LexicalVarStorage::new();
    let expr = Cons::from_iter(vec![
        Cons::Value(ConsValue::Symbol("+".to_string())),
        Cons::Value(ConsValue::Int(123)),
        Cons::Value(ConsValue::Int(456)),
    ]);
    let result = lisp_eval(&expr, &mut stg);
    assert!(result.is_ok());
    let result = result.unwrap();
    assert_eq!(result, Cons::Value(ConsValue::Int(579)));
}

#[test]
fn test_func_add_no_arg() {
    let mut stg = LexicalVarStorage::new();
    let expr = Cons::from_iter(vec![Cons::Value(ConsValue::Symbol("+".to_string()))]);
    let result = lisp_eval(&expr, &mut stg);
    assert!(result.is_ok());
    let result = result.unwrap();
    assert_eq!(result, Cons::Value(ConsValue::Int(0)));
}

#[test]
fn test_func_add_one_arg() {
    let mut stg = LexicalVarStorage::new();
    let expr = Cons::from_iter(vec![
        Cons::Value(ConsValue::Symbol("+".to_string())),
        Cons::Value(ConsValue::Int(123)),
    ]);
    let result = lisp_eval(&expr, &mut stg);
    assert!(result.is_ok());
    let result = result.unwrap();
    assert_eq!(result, Cons::Value(ConsValue::Int(123)));
}

#[test]
fn test_func_sub() {
    let mut stg = LexicalVarStorage::new();
    let expr = Cons::from_iter(vec![
        Cons::Value(ConsValue::Symbol("-".to_string())),
        Cons::Value(ConsValue::Int(123)),
        Cons::Value(ConsValue::Int(456)),
    ]);
    let result = lisp_eval(&expr, &mut stg);
    assert!(result.is_ok());
    let result = result.unwrap();
    assert_eq!(result, Cons::Value(ConsValue::Int(-333)));
}

#[test]
fn test_func_sub_no_arg() {
    let mut stg = LexicalVarStorage::new();
    let expr = Cons::from_iter(vec![Cons::Value(ConsValue::Symbol("-".to_string()))]);
    let result = lisp_eval(&expr, &mut stg);
    assert!(result.is_ok());
    let result = result.unwrap();
    assert_eq!(result, Cons::Value(ConsValue::Int(0)));
}

#[test]
fn test_func_sub_one_arg() {
    let mut stg = LexicalVarStorage::new();
    let expr = Cons::from_iter(vec![
        Cons::Value(ConsValue::Symbol("-".to_string())),
        Cons::Value(ConsValue::Int(123)),
    ]);
    let result = lisp_eval(&expr, &mut stg);
    assert!(result.is_ok());
    let result = result.unwrap();
    assert_eq!(result, Cons::Value(ConsValue::Int(-123)));
}

#[test]
fn test_func_mult() {
    let mut stg = LexicalVarStorage::new();
    let expr = Cons::from_iter(vec![
        Cons::Value(ConsValue::Symbol("*".to_string())),
        Cons::Value(ConsValue::Int(123)),
        Cons::Value(ConsValue::Int(456)),
    ]);
    let result = lisp_eval(&expr, &mut stg);
    assert!(result.is_ok());
    let result = result.unwrap();
    assert_eq!(result, Cons::Value(ConsValue::Int(56088)));
}

#[test]
fn test_func_mult_no_arg() {
    let mut stg = LexicalVarStorage::new();
    let expr = Cons::from_iter(vec![Cons::Value(ConsValue::Symbol("*".to_string()))]);
    let result = lisp_eval(&expr, &mut stg);
    assert!(result.is_ok());
    let result = result.unwrap();
    assert_eq!(result, Cons::Value(ConsValue::Int(1)));
}

#[test]
fn test_func_mult_one_arg() {
    let mut stg = LexicalVarStorage::new();
    let expr = Cons::from_iter(vec![
        Cons::Value(ConsValue::Symbol("*".to_string())),
        Cons::Value(ConsValue::Int(123)),
    ]);
    let result = lisp_eval(&expr, &mut stg);
    assert!(result.is_ok());
    let result = result.unwrap();
    assert_eq!(result, Cons::Value(ConsValue::Int(123)));
}

#[test]
fn test_func_div() {
    let mut stg = LexicalVarStorage::new();
    let expr = Cons::from_iter(vec![
        Cons::Value(ConsValue::Symbol("/".to_string())),
        Cons::Value(ConsValue::Int(123)),
        Cons::Value(ConsValue::Int(456)),
    ]);
    let result = lisp_eval(&expr, &mut stg);
    assert!(result.is_ok());
    let result = result.unwrap();
    assert_eq!(result, Cons::Value(float(0.26973684210526316)));
}

#[test]
fn test_func_div_no_arg() {
    let mut stg = LexicalVarStorage::new();
    let expr = Cons::from_iter(vec![Cons::Value(ConsValue::Symbol("/".to_string()))]);
    let result = lisp_eval(&expr, &mut stg);
    assert!(result.is_ok());
    let result = result.unwrap();
    assert_eq!(result, Cons::Value(ConsValue::Int(1)));
}

#[test]
fn test_func_div_one_arg() {
    let mut stg = LexicalVarStorage::new();
    let expr = Cons::from_iter(vec![
        Cons::Value(ConsValue::Symbol("/".to_string())),
        Cons::Value(ConsValue::Int(123)),
    ]);
    let result = lisp_eval(&expr, &mut stg);
    assert!(result.is_ok());
    let result = result.unwrap();
    assert_eq!(result, Cons::Value(float(0.008130081300813009)));
}

#[test]
fn test_func_floordiv() {
    let mut stg = LexicalVarStorage::new();
    let expr = Cons::from_iter(vec![
        Cons::Value(ConsValue::Symbol("floordiv".to_string())),
        Cons::Value(ConsValue::Int(123)),
        Cons::Value(ConsValue::Int(456)),
    ]);
    let result = lisp_eval(&expr, &mut stg);
    assert!(result.is_ok());
    let result = result.unwrap();
    assert_eq!(result, Cons::Value(ConsValue::Int(0)));
}

#[test]
fn test_func_mod() {
    let mut stg = LexicalVarStorage::new();
    let expr = Cons::from_iter(vec![
        Cons::Value(ConsValue::Symbol("%".to_string())),
        Cons::Value(ConsValue::Int(123)),
        Cons::Value(ConsValue::Int(456)),
    ]);
    let result = lisp_eval(&expr, &mut stg);
    assert!(result.is_ok());
    let result = result.unwrap();
    assert_eq!(result, Cons::Value(ConsValue::Int(123)));
}

#[test]
fn test_func_pow() {
    let mut stg = LexicalVarStorage::new();
    let expr = Cons::from_iter(vec![
        Cons::Value(ConsValue::Symbol("^".to_string())),
        Cons::Value(ConsValue::Int(2)),
        Cons::Value(ConsValue::Int(2)),
    ]);
    let result = lisp_eval(&expr, &mut stg);
    assert!(result.is_ok());
    let result = result.unwrap();
    assert_eq!(result, Cons::Value(ConsValue::Int(4)));
}

#[test]
fn test_func_pow_no_arg() {
    let mut stg = LexicalVarStorage::new();
    let expr = Cons::from_iter(vec![Cons::Value(ConsValue::Symbol("^".to_string()))]);
    let result = lisp_eval(&expr, &mut stg);
    assert!(result.is_ok());
    let result = result.unwrap();
    assert_eq!(result, Cons::Value(ConsValue::Int(1)));
}

#[test]
fn test_func_pow_one_arg() {
    let mut stg = LexicalVarStorage::new();
    let expr = Cons::from_iter(vec![
        Cons::Value(ConsValue::Symbol("^".to_string())),
        Cons::Value(ConsValue::Int(2)),
    ]);
    let result = lisp_eval(&expr, &mut stg);
    assert!(result.is_ok());
    let result = result.unwrap();
    assert_eq!(result, Cons::Value(ConsValue::Int(2)));
}

#[test]
fn test_func_eq() {
    let mut stg = LexicalVarStorage::new();
    let expr = Cons::from_iter(vec![
        Cons::Value(ConsValue::Symbol("=".to_string())),
        Cons::Value(ConsValue::Int(123)),
        Cons::Value(ConsValue::Int(456)),
    ]);
    let result = lisp_eval(&expr, &mut stg);
    assert!(result.is_ok());
    let result = result.unwrap();
    assert_eq!(result, Cons::Value(ConsValue::Boolean(false)));

    let expr = Cons::from_iter(vec![
        Cons::Value(ConsValue::Symbol("=".to_string())),
        Cons::Value(ConsValue::Int(123)),
        Cons::Value(ConsValue::Int(123)),
    ]);
    let result = lisp_eval(&expr, &mut stg);
    assert!(result.is_ok());
    let result = result.unwrap();
    assert_eq!(result, Cons::Value(ConsValue::Boolean(true)));
}

#[test]
fn test_func_eq_no_arg() {
    let mut stg = LexicalVarStorage::new();
    let expr = Cons::from_iter(vec![Cons::Value(ConsValue::Symbol("=".to_string()))]);
    let result = lisp_eval(&expr, &mut stg);
    assert!(result.is_ok());
    let result = result.unwrap();
    assert_eq!(result, Cons::Value(ConsValue::Boolean(true)));
}

#[test]
fn test_func_eq_one_arg() {
    let mut stg = LexicalVarStorage::new();
    let expr = Cons::from_iter(vec![
        Cons::Value(ConsValue::Symbol("=".to_string())),
        Cons::Value(ConsValue::Int(123)),
    ]);
    let result = lisp_eval(&expr, &mut stg);
    assert!(result.is_ok());
    let result = result.unwrap();
    assert_eq!(result, Cons::Value(ConsValue::Boolean(true)));
}

#[test]
fn test_func_neq() {
    let mut stg = LexicalVarStorage::new();
    let expr = Cons::from_iter(vec![
        Cons::Value(ConsValue::Symbol("!=".to_string())),
        Cons::Value(ConsValue::Int(123)),
        Cons::Value(ConsValue::Int(456)),
    ]);
    let result = lisp_eval(&expr, &mut stg);
    assert!(result.is_ok());
    let result = result.unwrap();
    assert_eq!(result, Cons::Value(ConsValue::Boolean(true)));

    let expr = Cons::from_iter(vec![
        Cons::Value(ConsValue::Symbol("!=".to_string())),
        Cons::Value(ConsValue::Int(123)),
        Cons::Value(ConsValue::Int(123)),
    ]);
    let result = lisp_eval(&expr, &mut stg);
    assert!(result.is_ok());
    let result = result.unwrap();
    assert_eq!(result, Cons::Value(ConsValue::Boolean(false)));
}

#[test]
fn test_func_neq_no_arg() {
    let mut stg = LexicalVarStorage::new();
    let expr = Cons::from_iter(vec![Cons::Value(ConsValue::Symbol("!=".to_string()))]);
    let result = lisp_eval(&expr, &mut stg);
    assert!(result.is_ok());
    let result = result.unwrap();
    assert_eq!(result, Cons::Value(ConsValue::Boolean(false)));
}

#[test]
fn test_func_neq_one_arg() {
    let mut stg = LexicalVarStorage::new();
    let expr = Cons::from_iter(vec![
        Cons::Value(ConsValue::Symbol("!=".to_string())),
        Cons::Value(ConsValue::Int(123)),
    ]);
    let result = lisp_eval(&expr, &mut stg);
    assert!(result.is_ok());
    let result = result.unwrap();
    assert_eq!(result, Cons::Value(ConsValue::Boolean(false)));
}

#[test]
fn test_func_lt() {
    let mut stg = LexicalVarStorage::new();
    let expr = Cons::from_iter(vec![
        Cons::Value(ConsValue::Symbol("<".to_string())),
        Cons::Value(ConsValue::Int(123)),
        Cons::Value(ConsValue::Int(456)),
    ]);
    let result = lisp_eval(&expr, &mut stg);
    assert!(result.is_ok());
    let result = result.unwrap();
    assert_eq!(result, Cons::Value(ConsValue::Boolean(true)));

    let expr = Cons::from_iter(vec![
        Cons::Value(ConsValue::Symbol("<".to_string())),
        Cons::Value(ConsValue::Int(123)),
        Cons::Value(ConsValue::Int(123)),
    ]);
    let result = lisp_eval(&expr, &mut stg);
    assert!(result.is_ok());
    let result = result.unwrap();
    assert_eq!(result, Cons::Value(ConsValue::Boolean(false)));

    let expr = Cons::from_iter(vec![
        Cons::Value(ConsValue::Symbol("<".to_string())),
        Cons::Value(ConsValue::Int(456)),
        Cons::Value(ConsValue::Int(123)),
    ]);
    let result = lisp_eval(&expr, &mut stg);
    assert!(result.is_ok());
    let result = result.unwrap();
    assert_eq!(result, Cons::Value(ConsValue::Boolean(false)));
}

#[test]
fn test_func_gt() {
    let mut stg = LexicalVarStorage::new();
    let expr = Cons::from_iter(vec![
        Cons::Value(ConsValue::Symbol(">".to_string())),
        Cons::Value(ConsValue::Int(123)),
        Cons::Value(ConsValue::Int(456)),
    ]);
    let result = lisp_eval(&expr, &mut stg);
    assert!(result.is_ok());
    let result = result.unwrap();
    assert_eq!(result, Cons::Value(ConsValue::Boolean(false)));

    let expr = Cons::from_iter(vec![
        Cons::Value(ConsValue::Symbol(">".to_string())),
        Cons::Value(ConsValue::Int(123)),
        Cons::Value(ConsValue::Int(123)),
    ]);
    let result = lisp_eval(&expr, &mut stg);
    assert!(result.is_ok());
    let result = result.unwrap();
    assert_eq!(result, Cons::Value(ConsValue::Boolean(false)));

    let expr = Cons::from_iter(vec![
        Cons::Value(ConsValue::Symbol(">".to_string())),
        Cons::Value(ConsValue::Int(456)),
        Cons::Value(ConsValue::Int(123)),
    ]);
    let result = lisp_eval(&expr, &mut stg);
    assert!(result.is_ok());
    let result = result.unwrap();
    assert_eq!(result, Cons::Value(ConsValue::Boolean(true)));
}

#[test]
fn test_func_lte() {
    let mut stg = LexicalVarStorage::new();
    let expr = Cons::from_iter(vec![
        Cons::Value(ConsValue::Symbol("<=".to_string())),
        Cons::Value(ConsValue::Int(123)),
        Cons::Value(ConsValue::Int(456)),
    ]);
    let result = lisp_eval(&expr, &mut stg);
    assert!(result.is_ok());
    let result = result.unwrap();
    assert_eq!(result, Cons::Value(ConsValue::Boolean(true)));

    let expr = Cons::from_iter(vec![
        Cons::Value(ConsValue::Symbol("<=".to_string())),
        Cons::Value(ConsValue::Int(123)),
        Cons::Value(ConsValue::Int(123)),
    ]);
    let result = lisp_eval(&expr, &mut stg);
    assert!(result.is_ok());
    let result = result.unwrap();
    assert_eq!(result, Cons::Value(ConsValue::Boolean(true)));

    let expr = Cons::from_iter(vec![
        Cons::Value(ConsValue::Symbol("<=".to_string())),
        Cons::Value(ConsValue::Int(456)),
        Cons::Value(ConsValue::Int(123)),
    ]);
    let result = lisp_eval(&expr, &mut stg);
    assert!(result.is_ok());
    let result = result.unwrap();
    assert_eq!(result, Cons::Value(ConsValue::Boolean(false)));
}

#[test]
fn test_func_gte() {
    let mut stg = LexicalVarStorage::new();
    let expr = Cons::from_iter(vec![
        Cons::Value(ConsValue::Symbol(">=".to_string())),
        Cons::Value(ConsValue::Int(123)),
        Cons::Value(ConsValue::Int(456)),
    ]);
    let result = lisp_eval(&expr, &mut stg);
    assert!(result.is_ok());
    let result = result.unwrap();
    assert_eq!(result, Cons::Value(ConsValue::Boolean(false)));

    let expr = Cons::from_iter(vec![
        Cons::Value(ConsValue::Symbol(">=".to_string())),
        Cons::Value(ConsValue::Int(123)),
        Cons::Value(ConsValue::Int(123)),
    ]);
    let result = lisp_eval(&expr, &mut stg);
    assert!(result.is_ok());
    let result = result.unwrap();
    assert_eq!(result, Cons::Value(ConsValue::Boolean(true)));

    let expr = Cons::from_iter(vec![
        Cons::Value(ConsValue::Symbol(">=".to_string())),
        Cons::Value(ConsValue::Int(456)),
        Cons::Value(ConsValue::Int(123)),
    ]);
    let result = lisp_eval(&expr, &mut stg);
    assert!(result.is_ok());
    let result = result.unwrap();
    assert_eq!(result, Cons::Value(ConsValue::Boolean(true)));
}

#[test]
fn test_set_define_var_atom() {
    let mut stg = LexicalVarStorage::new();
    let expr = Cons::from_iter(vec![
        Cons::Value(ConsValue::Symbol("define".to_string())),
        Cons::Value(ConsValue::Symbol("a".to_string())),
        Cons::Value(ConsValue::Int(123)),
    ]);
    let result = lisp_eval(&expr, &mut stg);
    assert!(result.is_ok());
    let result = result.unwrap();
    assert_eq!(result, Cons::Value(ConsValue::NIL));

    let expr = Cons::Value(ConsValue::Symbol("a".to_string()));
    let result = lisp_eval(&expr, &mut stg);
    assert!(result.is_ok());
    let result = result.unwrap();
    assert_eq!(result, Cons::Value(ConsValue::Int(123)));
}

#[test]
fn test_set_define_var_eval() {
    let mut stg = LexicalVarStorage::new();
    let expr = Cons::from_iter(vec![
        Cons::Value(ConsValue::Symbol("define".to_string())),
        Cons::Value(ConsValue::Symbol("a".to_string())),
        Cons::from_iter(vec![
            Cons::Value(ConsValue::Symbol("+".to_string())),
            Cons::Value(ConsValue::Int(123)),
            Cons::Value(ConsValue::Int(456)),
        ]),
    ]);
    let result = lisp_eval(&expr, &mut stg);
    assert!(result.is_ok());
    let result = result.unwrap();
    assert_eq!(result, Cons::Value(ConsValue::NIL));

    let expr = Cons::Value(ConsValue::Symbol("a".to_string()));
    let result = lisp_eval(&expr, &mut stg);
    assert!(result.is_ok());
    let result = result.unwrap();
    assert_eq!(result, Cons::Value(ConsValue::Int(579)));
}

#[test]
fn test_define_real_func() {
    let mut stg = LexicalVarStorage::new();
    let expr = Cons::from_iter(vec![
        Cons::Value(ConsValue::Symbol("define".to_string())),
        Cons::from_iter(vec![
            Cons::Value(ConsValue::Symbol("add".to_string())),
            Cons::Value(ConsValue::Symbol("a".to_string())),
            Cons::Value(ConsValue::Symbol("b".to_string())),
        ]),
        Cons::from_iter(vec![
            Cons::Value(ConsValue::Symbol("+".to_string())),
            Cons::Value(ConsValue::Symbol("a".to_string())),
            Cons::Value(ConsValue::Symbol("b".to_string())),
        ]),
    ]);
    let result = lisp_eval(&expr, &mut stg);
    assert!(result.is_ok());
    let result = result.unwrap();
    assert_eq!(result, Cons::Value(ConsValue::NIL));

    let expr = Cons::from_iter(vec![
        Cons::Value(ConsValue::Symbol("add".to_string())),
        Cons::Value(ConsValue::Int(123)),
        Cons::Value(ConsValue::Int(456)),
    ]);
    let result = lisp_eval(&expr, &mut stg);
    assert!(result.is_ok());
    let result = result.unwrap();
    assert_eq!(result, Cons::Value(ConsValue::Int(579)));
}

#[test]
fn test_define_empty_func() {
    let mut stg = LexicalVarStorage::new();
    let expr = Cons::from_iter(vec![
        Cons::Value(ConsValue::Symbol("define".to_string())),
        Cons::from_iter(vec![
            Cons::Value(ConsValue::Symbol("add".to_string())),
            Cons::Value(ConsValue::Symbol("a".to_string())),
            Cons::Value(ConsValue::Symbol("b".to_string())),
        ]),
    ]);
    let result = lisp_eval(&expr, &mut stg);
    assert!(result.is_ok());
    let result = result.unwrap();
    assert_eq!(result, Cons::Value(ConsValue::NIL));

    let expr = Cons::from_iter(vec![
        Cons::Value(ConsValue::Symbol("add".to_string())),
        Cons::Value(ConsValue::Int(123)),
        Cons::Value(ConsValue::Int(456)),
    ]);
    let result = lisp_eval(&expr, &mut stg);
    assert!(result.is_ok());
    let result = result.unwrap();
    assert_eq!(result, Cons::Value(ConsValue::NIL));
}

#[test]
fn test_define_multi_line_func() {
    let mut stg = LexicalVarStorage::new();
    let expr = Cons::from_iter(vec![
        Cons::Value(ConsValue::Symbol("define".to_string())),
        Cons::from_iter(vec![
            Cons::Value(ConsValue::Symbol("add-then-sub".to_string())),
            Cons::Value(ConsValue::Symbol("a".to_string())),
            Cons::Value(ConsValue::Symbol("b".to_string())),
        ]),
        Cons::from_iter(vec![
            Cons::Value(ConsValue::Symbol("+".to_string())),
            Cons::Value(ConsValue::Symbol("a".to_string())),
            Cons::Value(ConsValue::Symbol("b".to_string())),
        ]),
        Cons::from_iter(vec![
            Cons::Value(ConsValue::Symbol("-".to_string())),
            Cons::Value(ConsValue::Symbol("a".to_string())),
            Cons::Value(ConsValue::Symbol("b".to_string())),
        ]),
    ]);
    let result = lisp_eval(&expr, &mut stg);
    assert!(result.is_ok());
    let result = result.unwrap();
    assert_eq!(result, Cons::Value(ConsValue::NIL));

    let expr = Cons::from_iter(vec![
        Cons::Value(ConsValue::Symbol("add-then-sub".to_string())),
        Cons::Value(ConsValue::Int(123)),
        Cons::Value(ConsValue::Int(456)),
    ]);
    let result = lisp_eval(&expr, &mut stg);
    assert!(result.is_ok());
    let result = result.unwrap();
    assert_eq!(result, Cons::Value(ConsValue::Int(-333)));
}

fn list(items: Vec<Cons>) -> Cons {
    Cons::from_iter(items)
}

fn truth(b: bool) -> Cons {
    Cons::Value(ConsValue::Boolean(b))
}

fn eval_all(forms: Vec<Cons>, stg: &mut LexicalVarStorage) -> Result<Cons, EvaluatorError> {
    let mut last = Ok(Cons::Value(ConsValue::NIL));
    for form in forms {
        last = lisp_eval(&form, stg);
        if last.is_err() {
            return last;
        }
    }
    last
}

#[test]
fn atoms_evaluate_to_themselves() {
    let mut stg = LexicalVarStorage::new();
    stg.put("a", num(1));
    for value in [
        Cons::Value(ConsValue::NIL),
        num(0),
        num(-7),
        Cons::Value(float(2.5)),
        Cons::Value(float(f64::NAN)),
        Cons::Value(ConsValue::String("a".to_string())),
        truth(true),
        truth(false),
    ] {
        assert_eq!(lisp_eval(&value, &mut stg), Ok(value.clone()));
    }
}

#[test]
fn a_comment_evaluates_to_the_empty_list() {
    let mut stg = LexicalVarStorage::new();
    let expr = Cons::Value(ConsValue::Comment("note".to_string()));
    assert_eq!(lisp_eval(&expr, &mut stg), Ok(Cons::Value(ConsValue::NIL)));
}

#[test]
fn a_quote_loses_exactly_one_layer() {
    let mut stg = LexicalVarStorage::new();
    let call = list(vec![sym("+"), num(1), num(2)]);
    let once = Cons::Quoted(Arc::new(call.clone()));
    let twice = Cons::Quoted(Arc::new(once.clone()));
    assert_eq!(lisp_eval(&once, &mut stg), Ok(call));
    assert_eq!(lisp_eval(&twice, &mut stg), Ok(once));
    let unbound = Cons::Quoted(Arc::new(sym("nobody")));
    assert_eq!(lisp_eval(&unbound, &mut stg), Ok(sym("nobody")));
}

#[test]
fn an_unbound_symbol_is_undefined() {
    let mut stg = LexicalVarStorage::new();
    assert_eq!(
        lisp_eval(&sym("nobody"), &mut stg),
        Err(EvaluatorError::UndefinedSymbol("nobody".to_string()))
    );
    assert_eq!(
        lisp_eval(&list(vec![sym("nobody"), num(1)]), &mut stg),
        Err(EvaluatorError::UndefinedSymbol("nobody".to_string()))
    );
    assert_eq!(
        lisp_eval(&list(vec![sym("+"), num(1), sym("nobody")]), &mut stg),
        Err(EvaluatorError::UndefinedSymbol("nobody".to_string()))
    );
}

#[test]
fn a_head_that_is_no_symbol_cannot_be_called() {
    let mut stg = LexicalVarStorage::new();
    for head in [num(1), Cons::Value(ConsValue::String("+".to_string())), list(vec![sym("+")])] {
        assert_eq!(
            lisp_eval(&list(vec![head, num(1)]), &mut stg),
            Err(EvaluatorError::UncallableType("Head of a call form is not a symbol".to_string()))
        );
    }
}

#[test]
fn a_variable_is_no_function() {
    let mut stg = LexicalVarStorage::new();
    stg.put("a", num(1));
    assert_eq!(
        lisp_eval(&list(vec![sym("a"), num(1)]), &mut stg),
        Err(EvaluatorError::NotAFunction("Symbol is not bound to a function".to_string()))
    );
}

#[test]
fn a_builtin_handle_is_no_value() {
    let mut stg = LexicalVarStorage::new();
    assert_eq!(
        lisp_eval(&sym("+"), &mut stg),
        Err(EvaluatorError::ReturnedNonCons("Function returned non-cons value".to_string()))
    );
    assert_eq!(
        lisp_eval(&sym("define"), &mut stg),
        Err(EvaluatorError::ReturnedNonCons("Macro returned non-cons value".to_string()))
    );
    assert_eq!(
        lisp_eval(&list(vec![sym("+"), num(1), sym("car")]), &mut stg),
        Err(EvaluatorError::ReturnedNonCons("Function returned non-cons value".to_string()))
    );
    assert_eq!(
        lisp_eval(&list(vec![sym("define"), sym("a"), sym("+")]), &mut stg),
        Err(EvaluatorError::InvalidArgument("Invalid argument type for define".to_string()))
    );
}

#[test]
fn builtins_come_before_user_bindings() {
    let mut stg = LexicalVarStorage::new();
    stg.put("+", num(5));
    assert_eq!(lisp_eval(&list(vec![sym("+"), num(1), num(2)]), &mut stg), Ok(num(3)));
    let shadow = list(vec![
        sym("define"),
        list(vec![sym("*"), sym("a"), sym("b")]),
        num(0),
    ]);
    assert_eq!(lisp_eval(&shadow, &mut stg), Ok(Cons::Value(ConsValue::NIL)));
    assert_eq!(lisp_eval(&list(vec![sym("*"), num(2), num(3)]), &mut stg), Ok(num(6)));
}

#[test]
fn functions_come_before_variables() {
    let mut stg = LexicalVarStorage::new();
    let forms = vec![
        list(vec![sym("define"), sym("f"), num(1)]),
        list(vec![sym("define"), list(vec![sym("f"), sym("x")]), sym("x")]),
        list(vec![sym("f"), num(42)]),
    ];
    assert_eq!(eval_all(forms, &mut stg), Ok(num(42)));
    assert_eq!(stg.get("f"), Some(&num(1)));
}

#[test]
fn comparison_chains() {
    let mut stg = LexicalVarStorage::new();
    assert_eq!(lisp_eval(&list(vec![sym("<"), num(1), num(2), num(3)]), &mut stg), Ok(truth(true)));
    assert_eq!(lisp_eval(&list(vec![sym("<"), num(3), num(2), num(1)]), &mut stg), Ok(truth(false)));
    assert_eq!(lisp_eval(&list(vec![sym("<")]), &mut stg), Ok(truth(true)));
    assert_eq!(lisp_eval(&list(vec![sym(">"), num(1)]), &mut stg), Ok(truth(true)));
    assert_eq!(lisp_eval(&list(vec![sym(">="), num(3), num(3), num(2)]), &mut stg), Ok(truth(true)));
    assert_eq!(lisp_eval(&list(vec![sym("<="), num(3), num(3), num(2)]), &mut stg), Ok(truth(false)));
}

#[test]
fn mixed_comparisons_promote_the_integer() {
    let mut stg = LexicalVarStorage::new();
    let half = || Cons::Value(float(0.5));
    assert_eq!(lisp_eval(&list(vec![sym("<"), num(0), half(), num(1)]), &mut stg), Ok(truth(true)));
    assert_eq!(lisp_eval(&list(vec![sym("<"), num(1), half()]), &mut stg), Ok(truth(false)));
    assert_eq!(lisp_eval(&list(vec![sym(">"), num(1), half(), num(0)]), &mut stg), Ok(truth(true)));
    assert_eq!(
        lisp_eval(&list(vec![sym("<="), half(), half(), Cons::Value(float(0.25))]), &mut stg),
        Ok(truth(false))
    );
    assert_eq!(lisp_eval(&list(vec![sym(">="), half(), half()]), &mut stg), Ok(truth(true)));
    assert_eq!(
        lisp_eval(&list(vec![sym("<"), num(0), half(), num(0), sym("nobody")]), &mut stg),
        Err(EvaluatorError::UndefinedSymbol("nobody".to_string()))
    );
    assert_eq!(
        lisp_eval(
            &list(vec![sym("<"), num(0), half(), Cons::Value(ConsValue::String("x".to_string()))]),
            &mut stg
        ),
        Err(EvaluatorError::InvalidArgument("Invalid argument type for <".to_string()))
    );
    assert_eq!(
        lisp_eval(
            &list(vec![sym("<"), half(), num(0), Cons::Value(ConsValue::String("x".to_string()))]),
            &mut stg
        ),
        Ok(truth(false))
    );
}

#[test]
fn arithmetic_narrows_whole_results() {
    let mut stg = LexicalVarStorage::new();
    let d = |x: f64| Cons::Value(float(x));
    assert_eq!(lisp_eval(&list(vec![sym("+"), d(1.5), d(1.5)]), &mut stg), Ok(num(3)));
    assert_eq!(lisp_eval(&list(vec![sym("+"), d(1.5), num(2)]), &mut stg), Ok(d(3.5)));
    assert_eq!(lisp_eval(&list(vec![sym("*"), d(0.5), num(4)]), &mut stg), Ok(num(2)));
    assert_eq!(lisp_eval(&list(vec![sym("/"), num(6), num(3)]), &mut stg), Ok(num(2)));
    assert_eq!(lisp_eval(&list(vec![sym("/"), num(1)]), &mut stg), Ok(d(1.0)));
    assert_eq!(lisp_eval(&list(vec![sym("-"), d(2.5)]), &mut stg), Ok(d(-2.5)));
    assert_eq!(lisp_eval(&list(vec![sym("floordiv"), num(7), num(2)]), &mut stg), Ok(num(3)));
    assert_eq!(lisp_eval(&list(vec![sym("floordiv")]), &mut stg), Ok(num(1)));
    assert_eq!(lisp_eval(&list(vec![sym("%"), num(7), num(4)]), &mut stg), Ok(num(3)));
    assert_eq!(lisp_eval(&list(vec![sym("%")]), &mut stg), Ok(num(1)));
    assert_eq!(lisp_eval(&list(vec![sym("^"), num(2), num(10)]), &mut stg), Ok(num(1024)));
    assert_eq!(lisp_eval(&list(vec![sym("^"), num(2), d(0.5)]), &mut stg), Ok(d(2f64.powf(0.5))));
    assert_eq!(
        lisp_eval(&list(vec![sym("+"), list(vec![sym("*"), num(2), num(3)]), num(1)]), &mut stg),
        Ok(num(7))
    );
}

#[test]
fn arithmetic_refuses_what_is_no_number() {
    let mut stg = LexicalVarStorage::new();
    assert_eq!(
        lisp_eval(&list(vec![sym("+"), num(1), Cons::Value(ConsValue::String("x".to_string()))]), &mut stg),
        Err(EvaluatorError::InvalidArgument("Invalid argument type for +".to_string()))
    );
    assert_eq!(
        lisp_eval(&list(vec![sym("-"), truth(true)]), &mut stg),
        Err(EvaluatorError::InvalidArgument("Invalid argument type for -".to_string()))
    );
}

#[test]
fn the_first_error_ends_the_evaluation() {
    let mut stg = LexicalVarStorage::new();
    let expr = list(vec![
        sym("+"),
        sym("first"),
        list(vec![sym("define"), sym("later"), num(1)]),
        sym("second"),
    ]);
    assert_eq!(
        lisp_eval(&expr, &mut stg),
        Err(EvaluatorError::UndefinedSymbol("first".to_string()))
    );
    assert_eq!(stg.get("later"), None);
}

#[test]
fn define_persists_at_the_top_level() {
    let mut stg = LexicalVarStorage::new();
    assert_eq!(
        lisp_eval(&list(vec![sym("define"), sym("a"), num(1)]), &mut stg),
        Ok(Cons::Value(ConsValue::NIL))
    );
    assert_eq!(lisp_eval(&sym("a"), &mut stg), Ok(num(1)));
    assert_eq!(stg.get("a"), Some(&num(1)));
    assert_eq!(
        lisp_eval(&list(vec![sym("define"), sym("a"), list(vec![sym("+"), sym("a"), num(1)])]), &mut stg),
        Ok(Cons::Value(ConsValue::NIL))
    );
    assert_eq!(lisp_eval(&sym("a"), &mut stg), Ok(num(2)));
}

#[test]
fn arguments_are_evaluated_in_a_fork() {
    let mut stg = LexicalVarStorage::new();
    let expr = list(vec![
        sym("="),
        list(vec![sym("define"), sym("leak"), num(1)]),
        Cons::Value(ConsValue::NIL),
    ]);
    assert_eq!(lisp_eval(&expr, &mut stg), Ok(truth(true)));
    assert_eq!(stg.get("leak"), None);
    assert_eq!(
        lisp_eval(&sym("leak"), &mut stg),
        Err(EvaluatorError::UndefinedSymbol("leak".to_string()))
    );
}

#[test]
fn a_definition_in_a_body_stays_in_the_call() {
    let mut stg = LexicalVarStorage::new();
    let forms = vec![
        list(vec![
            sym("define"),
            list(vec![sym("f"), sym("x")]),
            list(vec![sym("define"), sym("y"), list(vec![sym("+"), sym("x"), num(1)])]),
            list(vec![sym("*"), sym("y"), num(2)]),
        ]),
        list(vec![sym("f"), num(4)]),
    ];
    assert_eq!(eval_all(forms, &mut stg), Ok(num(10)));
    assert_eq!(stg.get("y"), None);
    assert_eq!(stg.get("x"), None);
}

#[test]
fn a_closure_resolves_outer_parameters_from_its_captured_environment() {
    let mut stg = LexicalVarStorage::new();
    let forms = vec![
        list(vec![
            sym("define"),
            list(vec![sym("outer"), sym("x")]),
            list(vec![
                sym("define"),
                list(vec![sym("inner"), sym("y")]),
                list(vec![sym("+"), sym("x"), sym("y")]),
            ]),
            list(vec![sym("inner"), num(1)]),
        ]),
        list(vec![sym("define"), sym("x"), num(1000)]),
        list(vec![sym("outer"), num(5)]),
    ];
    assert_eq!(eval_all(forms, &mut stg), Ok(num(6)));
    assert!(stg.get_func("inner").is_none());
}

#[test]
fn a_closure_sees_the_bindings_of_its_definition_time() {
    let mut stg = LexicalVarStorage::new();
    let forms = vec![
        list(vec![sym("define"), sym("k"), num(1)]),
        list(vec![sym("define"), list(vec![sym("get")]), sym("k")]),
        list(vec![sym("define"), sym("k"), num(2)]),
        list(vec![sym("get")]),
    ];
    assert_eq!(eval_all(forms, &mut stg), Ok(num(1)));
    assert_eq!(lisp_eval(&sym("k"), &mut stg), Ok(num(2)));
}

#[test]
fn a_function_calls_a_function() {
    let mut stg = LexicalVarStorage::new();
    let forms = vec![
        list(vec![
            sym("define"),
            list(vec![sym("add"), sym("a"), sym("b")]),
            list(vec![sym("+"), sym("a"), sym("b")]),
        ]),
        list(vec![
            sym("define"),
            list(vec![sym("addadd"), sym("a"), sym("b")]),
            list(vec![sym("add"), sym("a"), list(vec![sym("add"), sym("a"), sym("b")])]),
        ]),
        list(vec![sym("addadd"), num(123), num(456)]),
    ];
    assert_eq!(eval_all(forms, &mut stg), Ok(num(702)));
}

#[test]
fn a_call_with_the_wrong_number_of_arguments_is_refused() {
    let mut stg = LexicalVarStorage::new();
    let define = list(vec![
        sym("define"),
        list(vec![sym("add"), sym("a"), sym("b")]),
        list(vec![sym("+"), sym("a"), sym("b")]),
    ]);
    assert_eq!(lisp_eval(&define, &mut stg), Ok(Cons::Value(ConsValue::NIL)));
    let expected = Err(EvaluatorError::InvalidArgument("Wrong number of arguments".to_string()));
    assert_eq!(lisp_eval(&list(vec![sym("add"), num(1)]), &mut stg), expected);
    assert_eq!(lisp_eval(&list(vec![sym("add")]), &mut stg), expected);
    assert_eq!(lisp_eval(&list(vec![sym("add"), num(1), num(2), num(3)]), &mut stg), expected);
    assert_eq!(lisp_eval(&list(vec![sym("add"), num(1), num(2)]), &mut stg), Ok(num(3)));
}

#[test]
fn a_lambda_is_a_value_and_can_be_bound() {
    let mut stg = LexicalVarStorage::new();
    let lambda = list(vec![sym("lambda"), list(vec![sym("x")]), list(vec![sym("*"), sym("x"), sym("x")])]);
    assert_eq!(
        lisp_eval(&lambda, &mut stg),
        Ok(list(vec![
            sym("lambda"),
            list(vec![sym("x")]),
            list(vec![list(vec![sym("*"), sym("x"), sym("x")])]),
        ]))
    );
    let forms = vec![
        list(vec![sym("define"), sym("square"), lambda]),
        list(vec![sym("square"), num(7)]),
    ];
    assert_eq!(eval_all(forms, &mut stg), Ok(num(49)));
    assert!(stg.get_func("square").is_some());
}

#[test]
fn a_closure_can_be_an_argument() {
    let mut stg = LexicalVarStorage::new();
    let forms = vec![
        list(vec![
            sym("define"),
            list(vec![sym("twice"), sym("f"), sym("x")]),
            list(vec![sym("f"), list(vec![sym("f"), sym("x")])]),
        ]),
        list(vec![
            sym("define"),
            list(vec![sym("inc"), sym("n")]),
            list(vec![sym("+"), sym("n"), num(1)]),
        ]),
        list(vec![sym("twice"), sym("inc"), num(5)]),
    ];
    assert_eq!(eval_all(forms, &mut stg), Ok(num(7)));
}

#[test]
fn a_body_gives_the_value_of_its_last_form() {
    let mut stg = LexicalVarStorage::new();
    let forms = vec![
        list(vec![
            sym("define"),
            list(vec![sym("f")]),
            num(1),
            Cons::Value(ConsValue::String("two".to_string())),
            num(3),
        ]),
        list(vec![sym("f")]),
    ];
    assert_eq!(eval_all(forms, &mut stg), Ok(num(3)));
}

#[test]
fn malformed_definitions_are_refused() {
    let mut stg = LexicalVarStorage::new();
    assert_eq!(
        lisp_eval(&list(vec![sym("define"), list(vec![num(1), sym("a")]), num(1)]), &mut stg),
        Err(EvaluatorError::BadFunctionDefinition("Function name must be a symbol.".to_string()))
    );
    assert_eq!(
        lisp_eval(&list(vec![sym("define")]), &mut stg),
        Err(EvaluatorError::BadFunctionDefinition(
            "Definition needs a symbol or a list headed by a symbol.".to_string()
        ))
    );
    assert_eq!(
        lisp_eval(&list(vec![sym("lambda"), list(vec![num(1)]), num(1)]), &mut stg),
        Err(EvaluatorError::BadFunctionDefinition("Args must be symbols.".to_string()))
    );
    assert_eq!(
        lisp_eval(&list(vec![sym("define"), sym("a")]), &mut stg),
        Err(EvaluatorError::InvalidArgument("Invalid argument type for define".to_string()))
    );
    assert_eq!(
        lisp_eval(&list(vec![sym("if"), truth(true), num(1), num(2)]), &mut stg),
        Err(EvaluatorError::UndefinedSymbol("Undefined symbol".to_string()))
    );
}

#[test]
fn stubs_give_the_empty_list() {
    let mut stg = LexicalVarStorage::new();
    assert_eq!(
        lisp_eval(&list(vec![sym("car"), Cons::Quoted(Arc::new(list(vec![num(1)])))]), &mut stg),
        Ok(Cons::Value(ConsValue::NIL))
    );
    assert_eq!(lisp_eval(&list(vec![sym("help")]), &mut stg), Ok(Cons::Value(ConsValue::NIL)));
}

#[test]
fn print_asks_the_host_and_gives_the_empty_list() {
    let mut stg = LexicalVarStorage::new();
    let expr = list(vec![sym("println"), num(1), list(vec![sym("+"), num(1), num(1)])]);
    let mut machine = Machine::load(expr);
    let mut reply = Reply::Nothing;
    let mut printed = Vec::new();
    let result = loop {
        let (next, action) = machine.step(&mut stg, reply);
        machine = next;
        reply = match action {
            Action::Continue => Reply::Nothing,
            Action::Done(result) => break result,
            Action::Compute(job) => Reply::Number(compute(&job)),
            Action::Compare(job) => Reply::Truth(compare(&job)),
            Action::Print(values, newline) => {
                printed.push((values, newline));
                Reply::Nothing
            }
        };
    };
    assert_eq!(result, Ok(Cons::Value(ConsValue::NIL)));
    assert_eq!(printed, vec![(vec![num(1), num(2)], true)]);
    assert!(machine.is_halted());
}

#[test]
fn a_halted_machine_stays_halted() {
    let mut stg = LexicalVarStorage::new();
    let machine = Machine::load(num(1));
    assert!(!machine.is_halted());
    let (machine, action) = machine.run(&mut stg, Reply::Nothing, 10);
    assert!(matches!(action, Action::Done(Ok(_))));
    assert!(machine.is_halted());
    let (machine, action) = machine.step(&mut stg, Reply::Nothing);
    match action {
        Action::Done(Err(e)) => {
            assert_eq!(e, EvaluatorError::ReturnedNonCons("Machine has halted".to_string()))
        }
        other => panic!("unexpected {:?}", other),
    }
    assert!(machine.is_halted());
}

#[test]
fn run_stops_at_its_limit_and_at_the_host() {
    let mut stg = LexicalVarStorage::new();
    let machine = Machine::load(Cons::Quoted(Arc::new(num(1))));
    let (machine, action) = machine.run(&mut stg, Reply::Nothing, 0);
    assert!(matches!(action, Action::Continue));
    let (machine, action) = machine.run(&mut stg, Reply::Nothing, 1);
    assert!(matches!(action, Action::Continue));
    assert!(!machine.is_halted());
    let (machine, action) = machine.run(&mut stg, Reply::Nothing, 1);
    match action {
        Action::Done(result) => assert_eq!(result, Ok(num(1))),
        other => panic!("unexpected {:?}", other),
    }
    assert!(machine.is_halted());

    let machine = Machine::load(list(vec![sym("+"), num(1), num(2)]));
    let (machine, action) = machine.run(&mut stg, Reply::Nothing, 1000);
    let job = match action {
        Action::Compute(job) => job,
        other => panic!("unexpected {:?}", other),
    };
    let (_, action) = machine.run(&mut stg, Reply::Number(compute(&job)), 1000);
    match action {
        Action::Done(result) => assert_eq!(result, Ok(num(3))),
        other => panic!("unexpected {:?}", other),
    }
}

#[test]
fn a_reply_that_answers_nothing_ends_the_evaluation() {
    let mut stg = LexicalVarStorage::new();
    let expected = EvaluatorError::ReturnedNonCons("Host reply does not answer the request".to_string());
    for reply in [Reply::Nothing, Reply::Truth(true)] {
        let machine = Machine::load(list(vec![sym("+"), num(1), num(2)]));
        let (machine, action) = machine.run(&mut stg, Reply::Nothing, 1000);
        assert!(matches!(action, Action::Compute(_)));
        let (machine, action) = machine.step(&mut stg, reply);
        match action {
            Action::Done(Err(e)) => assert_eq!(e, expected),
            other => panic!("unexpected {:?}", other),
        }
        assert!(machine.is_halted());
    }
    for reply in [Reply::Nothing, Reply::Number(Number::Int(1))] {
        let machine = Machine::load(list(vec![sym("<"), num(1), Cons::Value(float(2.0))]));
        let (machine, action) = machine.run(&mut stg, Reply::Nothing, 1000);
        assert!(matches!(action, Action::Compare(_)));
        let (_, action) = machine.step(&mut stg, reply);
        match action {
            Action::Done(Err(e)) => assert_eq!(e, expected),
            other => panic!("unexpected {:?}", other),
        }
    }
}

#[test]
fn lookup_asks_the_tables_in_order() {
    let mut stg = LexicalVarStorage::new();
    stg.put("a", num(1));
    stg.put("car", num(2));
    assert!(matches!(boxr::evaluator::lookup("a", &stg), Some(boxr::evaluator::EvalReturnType::CONS(_))));
    assert!(matches!(boxr::evaluator::lookup("car", &stg), Some(boxr::evaluator::EvalReturnType::FUNC(_))));
    assert!(matches!(boxr::evaluator::lookup("lambda", &stg), Some(boxr::evaluator::EvalReturnType::MACRO(_))));
    assert!(boxr::evaluator::lookup("b", &stg).is_none());
}
