use hyoka::environment::Environment;
use hyoka::evaluator::{EvalError, MAX_DEPTH};
use hyoka::expression::Expression;
use hyoka::numeric::Operator;
use hyoka::parser::parse;
use std::rc::Rc;

fn number(token: &str) -> Option<u64> {
    token.parse::<f64>().ok().map(f64::to_bits)
}

fn arith(op: Operator, a: u64, b: u64) -> u64 {
    let (a, b) = (f64::from_bits(a), f64::from_bits(b));
    let r = match op {
        Operator::Add => a + b,
        Operator::Subtract => a - b,
        Operator::Multiply => a * b,
        Operator::Divide => a / b,
    };
    r.to_bits()
}

fn run(text: &str, env: &mut Environment) -> Result<Option<Expression>, EvalError> {
    parse(text, &number).expect("the text parses").evaluate(env, &arith)
}

fn num(value: f64) -> Expression {
    Expression::Number(value.to_bits())
}

fn sym(name: &str) -> Expression {
    Expression::Symbol(name.to_string())
}

fn list(items: Vec<Expression>) -> Expression {
    Expression::List(Rc::new(items))
}

fn value_of(outcome: Result<Option<Expression>, EvalError>) -> f64 {
    match outcome {
        Ok(Some(Expression::Number(bits))) => f64::from_bits(bits),
        other => panic!("no number: {:?}", other),
    }
}

#[test]
fn a_number_evaluates_to_itself() {
    let mut env = Environment::new_empty();
    assert_eq!(num(5.0).evaluate(&mut env, &arith), Ok(Some(num(5.0))));
    assert_eq!(num(-0.0).evaluate(&mut env, &arith), Ok(Some(num(-0.0))));
    env.set("x".to_string(), num(1.0));
    assert_eq!(num(2.5).evaluate(&mut env, &arith), Ok(Some(num(2.5))));
    assert_eq!(num(2.5).evaluate_within(&mut env, &arith, 0), Ok(Some(num(2.5))));
    assert_eq!(env.len(), 1);
}

#[test]
fn folds_over_no_operands_give_the_seed() {
    let mut env = Environment::new_empty();
    assert_eq!(run("(+ )", &mut env), Ok(Some(num(0.0))));
    assert_eq!(run("(- )", &mut env), Ok(Some(num(0.0))));
    assert_eq!(run("(* )", &mut env), Ok(Some(num(1.0))));
    assert_eq!(run("(/ )", &mut env), Ok(Some(num(1.0))));
    assert_eq!(Operator::Add.seed(), 0.0f64.to_bits());
    assert_eq!(Operator::Subtract.seed(), 0.0f64.to_bits());
    assert_eq!(Operator::Multiply.seed(), 1.0f64.to_bits());
    assert_eq!(Operator::Divide.seed(), 1.0f64.to_bits());
}

#[test]
fn folds_run_from_the_left() {
    let mut env = Environment::new_empty();
    assert_eq!(run("(+ 1 2 3)", &mut env), Ok(Some(num(6.0))));
    assert_eq!(run("(- 1 2 3)", &mut env), Ok(Some(num(-6.0))));
    assert_eq!(run("(* 2 3 4)", &mut env), Ok(Some(num(24.0))));
    assert_eq!(run("(/ 2 4)", &mut env), Ok(Some(num(0.125))));
}

#[test]
fn a_single_operand_is_folded_into_the_seed() {
    let mut env = Environment::new_empty();
    assert_eq!(run("(- 3)", &mut env), Ok(Some(num(-3.0))));
    assert_eq!(run("(/ 3)", &mut env), Ok(Some(num(1.0 / 3.0))));
    assert_eq!(run("(+ 3)", &mut env), Ok(Some(num(3.0))));
    assert_eq!(run("(* 3)", &mut env), Ok(Some(num(3.0))));
}

#[test]
fn the_fold_hands_the_accumulator_first() {
    let trace = |op: Operator, a: u64, b: u64| -> u64 {
        assert_eq!(op, Operator::Subtract);
        a * 10 + b
    };
    let form = list(vec![
        sym("-"),
        Expression::Number(1),
        Expression::Number(2),
        Expression::Number(3),
    ]);
    let mut env = Environment::new_empty();
    assert_eq!(form.evaluate(&mut env, &trace), Ok(Some(Expression::Number(123))));
}

#[test]
fn operators_are_told_apart_by_name() {
    assert_eq!(Operator::named("+"), Some(Operator::Add));
    assert_eq!(Operator::named("-"), Some(Operator::Subtract));
    assert_eq!(Operator::named("*"), Some(Operator::Multiply));
    assert_eq!(Operator::named("/"), Some(Operator::Divide));
    assert_eq!(Operator::named(""), None);
    assert_eq!(Operator::named("++"), None);
    assert_eq!(Operator::named("+ "), None);
    assert_eq!(Operator::named("x"), None);
    assert_eq!(Operator::named("÷"), None);
}

#[test]
fn nested_arithmetic() {
    let mut env = Environment::new_empty();
    assert_eq!(run("(+ 1 (* 2 3) (- 10 4))", &mut env), Ok(Some(num(-7.0))));
    assert_eq!(run("(* (+ 1 2) (+ 3 4))", &mut env), Ok(Some(num(21.0))));
}

#[test]
fn division_by_zero_follows_ieee() {
    let mut env = Environment::new_empty();
    assert_eq!(run("(/ 0)", &mut env), Ok(Some(num(f64::INFINITY))));
    assert_eq!(run("(/ -1 0)", &mut env), Ok(Some(num(f64::NEG_INFINITY))));
    assert_eq!(run("(/ 0 0)", &mut env), Ok(Some(num(f64::INFINITY))));
    assert!(value_of(run("(* 0 (/ 0))", &mut env)).is_nan());
}

#[test]
fn an_operand_that_is_no_number_is_fatal() {
    let mut env = Environment::new_empty();
    assert_eq!(run("(+ 1 unbound)", &mut env), Err(EvalError::OperandNotANumber));
    assert_eq!(run("(+ 1 (lambda (a) (a)))", &mut env), Err(EvalError::OperandNotANumber));
    assert_eq!(run("(* (define x 2) 3)", &mut env), Err(EvalError::OperandNotANumber));
    assert_eq!(env.get("x"), Some(&num(2.0)));
    assert_eq!(run("(+ 1 () 2)", &mut env), Err(EvalError::EmptyListEvaluation));
}

#[test]
fn define_binds_and_last_write_wins() {
    let mut env = Environment::new_empty();
    assert_eq!(run("(define x 5)", &mut env), Ok(None));
    assert_eq!(sym("x").evaluate(&mut env, &arith), Ok(Some(num(5.0))));
    assert_eq!(run("(define x 7)", &mut env), Ok(None));
    assert_eq!(sym("x").evaluate(&mut env, &arith), Ok(Some(num(7.0))));
    assert_eq!(env.len(), 1);
}

#[test]
fn define_evaluates_its_expression() {
    let mut env = Environment::new_empty();
    assert_eq!(run("(define x (+ 1 2))", &mut env), Ok(None));
    assert_eq!(env.get("x"), Some(&num(3.0)));
    assert_eq!(run("(define y (* x x))", &mut env), Ok(None));
    assert_eq!(env.get("y"), Some(&num(9.0)));
}

#[test]
fn define_without_a_value_binds_nothing() {
    let mut env = Environment::new_empty();
    assert_eq!(run("(define x (define y 1))", &mut env), Ok(None));
    assert_eq!(env.get("x"), None);
    assert_eq!(env.get("y"), Some(&num(1.0)));
    assert_eq!(run("(define z (+ 1 nothing))", &mut env), Err(EvalError::OperandNotANumber));
    assert_eq!(env.get("z"), None);
}

#[test]
fn malformed_define_is_a_local_failure() {
    let mut env = Environment::new_empty();
    assert_eq!(run("(define)", &mut env), Ok(None));
    assert_eq!(run("(define x)", &mut env), Ok(None));
    assert_eq!(run("(define x 1 2)", &mut env), Ok(None));
    assert_eq!(run("(define 1 2)", &mut env), Ok(None));
    assert_eq!(run("(define (x) 2)", &mut env), Ok(None));
    assert_eq!(env.len(), 0);
}

#[test]
fn lambda_makes_a_procedure() {
    let mut env = Environment::new_empty();
    let made = run("(lambda (a b) (+ a b))", &mut env);
    assert_eq!(
        made,
        Ok(Some(Expression::Procedure(
            Rc::new(vec![sym("a"), sym("b")]),
            Rc::new(vec![sym("+"), sym("a"), sym("b")]),
        )))
    );
    assert_eq!(env.len(), 0);
    assert_eq!(
        run("(lambda () ())", &mut env),
        Ok(Some(Expression::Procedure(Rc::new(vec![]), Rc::new(vec![]))))
    );
}

#[test]
fn malformed_lambda_is_a_local_failure() {
    let mut env = Environment::new_empty();
    assert_eq!(run("(lambda)", &mut env), Ok(None));
    assert_eq!(run("(lambda (a))", &mut env), Ok(None));
    assert_eq!(run("(lambda (a) (a) (a))", &mut env), Ok(None));
    assert_eq!(run("(lambda a (a))", &mut env), Ok(None));
    assert_eq!(run("(lambda (a) a)", &mut env), Ok(None));
    assert_eq!(run("(lambda (a 1) (a))", &mut env), Ok(None));
    assert_eq!(run("(lambda ((a)) (a))", &mut env), Ok(None));
}

#[test]
fn a_defined_procedure_can_be_called() {
    let mut env = Environment::new_empty();
    assert_eq!(run("(define square-ish (lambda (a b) (+ a b)))", &mut env), Ok(None));
    assert_eq!(run("(square-ish 3 4)", &mut env), Ok(Some(num(7.0))));
    assert_eq!(run("(square-ish (* 2 3) (square-ish 1 1))", &mut env), Ok(Some(num(8.0))));
}

#[test]
fn a_symbol_bound_to_a_procedure_yields_it() {
    let mut env = Environment::new_empty();
    assert_eq!(run("(define f (lambda (a) (* a a)))", &mut env), Ok(None));
    let procedure = Expression::Procedure(
        Rc::new(vec![sym("a")]),
        Rc::new(vec![sym("*"), sym("a"), sym("a")]),
    );
    assert_eq!(sym("f").evaluate(&mut env, &arith), Ok(Some(procedure.clone())));
    assert_eq!(run("(define g f)", &mut env), Ok(None));
    assert_eq!(env.get("g"), Some(&procedure));
    assert_eq!(run("(g 3)", &mut env), Ok(Some(num(9.0))));
}

#[test]
fn wrong_argument_count_yields_no_value() {
    let mut env = Environment::new_empty();
    assert_eq!(run("(define add (lambda (a b) (+ a b)))", &mut env), Ok(None));
    assert_eq!(run("(add 1)", &mut env), Ok(None));
    assert_eq!(run("(add 1 2 3)", &mut env), Ok(None));
    assert_eq!(run("(add)", &mut env), Ok(None));
    assert_eq!(run("(add (define seen 1))", &mut env), Ok(None));
    assert_eq!(env.get("seen"), None);
}

#[test]
fn calling_what_is_no_procedure_yields_no_value() {
    let mut env = Environment::new_empty();
    assert_eq!(run("(nothing 1 2)", &mut env), Ok(None));
    assert_eq!(run("(define x 5)", &mut env), Ok(None));
    assert_eq!(run("(x 1)", &mut env), Ok(None));
    assert_eq!(run("(x)", &mut env), Ok(None));
}

#[test]
fn an_argument_without_a_value_leaves_the_call_without_one() {
    let mut env = Environment::new_empty();
    assert_eq!(run("(define id (lambda (a) (+ a)))", &mut env), Ok(None));
    assert_eq!(run("(id (define x 1))", &mut env), Ok(None));
    assert_eq!(env.get("x"), Some(&num(1.0)));
    assert_eq!(run("(id (+ 1 nothing))", &mut env), Err(EvalError::OperandNotANumber));
}

#[test]
fn a_call_sees_its_parameters_only() {
    let mut env = Environment::new_empty();
    assert_eq!(run("(define y 5)", &mut env), Ok(None));
    assert_eq!(run("(define f (lambda (a) (+ a y)))", &mut env), Ok(None));
    assert_eq!(run("(f 1)", &mut env), Err(EvalError::OperandNotANumber));
    assert_eq!(run("(define g (lambda (a) (define inner a)))", &mut env), Ok(None));
    assert_eq!(run("(g 3)", &mut env), Ok(None));
    assert_eq!(env.get("inner"), None);
    assert_eq!(run("(define h (lambda (a) (f a)))", &mut env), Ok(None));
    assert_eq!(run("(h 1)", &mut env), Ok(None));
}

#[test]
fn a_later_parameter_of_the_same_name_wins() {
    let mut env = Environment::new_empty();
    assert_eq!(run("(define twice (lambda (a a) (+ a)))", &mut env), Ok(None));
    assert_eq!(run("(twice 1 2)", &mut env), Ok(Some(num(2.0))));
}

#[test]
fn built_in_names_go_before_bindings() {
    let mut env = Environment::new_empty();
    assert_eq!(run("(define + (lambda (a b) (* a b)))", &mut env), Ok(None));
    assert_eq!(run("(+ 2 3)", &mut env), Ok(Some(num(5.0))));
    assert_eq!(run("(define define (lambda (a) (+ a)))", &mut env), Ok(None));
    assert_eq!(run("(define 1)", &mut env), Ok(None));
}

#[test]
fn the_empty_list_is_fatal() {
    let mut env = Environment::new_empty();
    assert_eq!(run("()", &mut env), Err(EvalError::EmptyListEvaluation));
    assert_eq!(list(vec![]).evaluate_within(&mut env, &arith, 0), Err(EvalError::EmptyListEvaluation));
    assert_eq!(run("(define x ())", &mut env), Err(EvalError::EmptyListEvaluation));
    assert_eq!(env.len(), 0);
}

#[test]
fn a_list_that_begins_with_no_symbol_is_no_procedure() {
    let mut env = Environment::new_empty();
    assert_eq!(run("(1 2 3)", &mut env), Err(EvalError::NotAProcedure));
    assert_eq!(run("((lambda (a) (+ a)) 1)", &mut env), Err(EvalError::NotAProcedure));
    assert_eq!(run("((+ 1 2))", &mut env), Err(EvalError::NotAProcedure));
}

#[test]
fn an_unbound_symbol_evaluates_to_itself() {
    let mut env = Environment::new_empty();
    assert_eq!(sym("foo").evaluate(&mut env, &arith), Ok(Some(sym("foo"))));
    assert_eq!(run("foo", &mut env), Ok(Some(sym("foo"))));
    assert_eq!(sym("foo").evaluate_within(&mut env, &arith, 0), Ok(Some(sym("foo"))));
    assert_eq!(env.len(), 0);
}

#[test]
fn aliases_are_followed() {
    let mut env = Environment::new_empty();
    assert_eq!(run("(define a b)", &mut env), Ok(None));
    assert_eq!(env.get("a"), Some(&sym("b")));
    assert_eq!(run("a", &mut env), Ok(Some(sym("b"))));
    assert_eq!(run("(define b 3)", &mut env), Ok(None));
    assert_eq!(run("a", &mut env), Ok(Some(num(3.0))));
    assert_eq!(run("(+ a a)", &mut env), Ok(Some(num(6.0))));
}

#[test]
fn a_symbol_bound_to_a_list_evaluates_the_list() {
    let mut env = Environment::new_empty();
    env.set("sum".to_string(), list(vec![sym("+"), num(1.0), sym("n")]));
    env.set("n".to_string(), num(2.0));
    assert_eq!(run("sum", &mut env), Ok(Some(num(3.0))));
    env.set("n".to_string(), num(5.0));
    assert_eq!(run("sum", &mut env), Ok(Some(num(6.0))));
    assert_eq!(sym("sum").evaluate_within(&mut env, &arith, 0), Err(EvalError::RecursionLimit));
    assert_eq!(sym("sum").evaluate_within(&mut env, &arith, 1), Err(EvalError::RecursionLimit));
    assert_eq!(sym("sum").evaluate_within(&mut env, &arith, 2), Ok(Some(num(6.0))));
}

#[test]
fn a_name_bound_to_itself_is_a_cycle() {
    let mut env = Environment::new_empty();
    assert_eq!(run("(define x x)", &mut env), Ok(None));
    assert_eq!(env.get("x"), Some(&sym("x")));
    assert_eq!(run("x", &mut env), Err(EvalError::CyclicBinding));
    assert_eq!(run("(+ 1 x)", &mut env), Err(EvalError::CyclicBinding));
    assert_eq!(run("(define y x)", &mut env), Err(EvalError::CyclicBinding));
    assert_eq!(env.get("y"), None);
}

#[test]
fn a_cycle_of_symbols_is_reported() {
    let mut env = Environment::new_empty();
    assert_eq!(run("(define a b)", &mut env), Ok(None));
    assert_eq!(run("(define b c)", &mut env), Ok(None));
    assert_eq!(run("(define c a)", &mut env), Ok(None));
    assert_eq!(env.get("c"), Some(&sym("c")));
    assert_eq!(run("a", &mut env), Err(EvalError::CyclicBinding));
    assert_eq!(run("b", &mut env), Err(EvalError::CyclicBinding));
    env.set("c".to_string(), sym("a"));
    assert_eq!(run("a", &mut env), Err(EvalError::CyclicBinding));
    assert_eq!(run("c", &mut env), Err(EvalError::CyclicBinding));
    env.set("d".to_string(), sym("a"));
    assert_eq!(run("d", &mut env), Err(EvalError::CyclicBinding));
}

#[test]
fn a_long_chain_without_a_cycle_resolves() {
    let mut env = Environment::new_empty();
    for i in 0..50 {
        env.set(format!("n{}", i), sym(&format!("n{}", i + 1)));
    }
    assert_eq!(run("n0", &mut env), Ok(Some(sym("n50"))));
    env.set("n50".to_string(), num(1.0));
    assert_eq!(run("n0", &mut env), Ok(Some(num(1.0))));
    assert_eq!(sym("n0").evaluate_within(&mut env, &arith, 0), Ok(Some(num(1.0))));
}

#[test]
fn a_list_bound_to_itself_runs_into_the_limit() {
    let mut env = Environment::new_empty();
    env.set("x".to_string(), list(vec![sym("+"), sym("x"), num(1.0)]));
    assert_eq!(run("x", &mut env), Err(EvalError::RecursionLimit));
}

#[test]
fn endless_self_application_runs_into_the_limit() {
    let mut env = Environment::new_empty();
    assert_eq!(run("(define w (lambda (f) (f f)))", &mut env), Ok(None));
    assert_eq!(run("(w w)", &mut env), Err(EvalError::RecursionLimit));
    assert_eq!(env.len(), 1);
}

#[test]
fn nesting_is_counted_against_the_depth() {
    let mut env = Environment::new_empty();
    let flat = parse("(+ 1 2)", &number).expect("the text parses");
    assert_eq!(flat.evaluate_within(&mut env, &arith, 0), Err(EvalError::RecursionLimit));
    assert_eq!(flat.evaluate_within(&mut env, &arith, 1), Ok(Some(num(3.0))));
    let nested = parse("(+ 1 (+ 2 (+ 3)))", &number).expect("the text parses");
    assert_eq!(nested.evaluate_within(&mut env, &arith, 2), Err(EvalError::RecursionLimit));
    assert_eq!(nested.evaluate_within(&mut env, &arith, 3), Ok(Some(num(6.0))));
    let none = parse("(+ )", &number).expect("the text parses");
    assert_eq!(none.evaluate_within(&mut env, &arith, 0), Ok(Some(num(0.0))));
}

#[test]
fn deep_nesting_within_the_limit_evaluates() {
    let depth = MAX_DEPTH - 1;
    let mut text = String::new();
    for _ in 0..depth {
        text.push_str("(+ 1 ");
    }
    text.push_str("(+ 1)");
    for _ in 0..depth {
        text.push(')');
    }
    let mut env = Environment::new_empty();
    assert_eq!(run(&text, &mut env), Ok(Some(num(MAX_DEPTH as f64))));
    let deeper = format!("(+ 1 {})", text);
    assert_eq!(run(&deeper, &mut env), Err(EvalError::RecursionLimit));
}

#[test]
fn a_bare_procedure_has_no_value() {
    let mut env = Environment::new_empty();
    let procedure = Expression::Procedure(Rc::new(vec![sym("a")]), Rc::new(vec![sym("a")]));
    assert_eq!(procedure.evaluate(&mut env, &arith), Ok(None));
    assert_eq!(procedure.evaluate_within(&mut env, &arith, 0), Ok(None));
}

#[test]
fn a_parameter_that_is_no_symbol_binds_nothing() {
    let mut env = Environment::new_empty();
    env.set(
        "odd".to_string(),
        Expression::Procedure(
            Rc::new(vec![num(1.0), sym("b")]),
            Rc::new(vec![sym("+"), sym("b")]),
        ),
    );
    assert_eq!(run("(odd 10 20)", &mut env), Ok(Some(num(20.0))));
}

#[test]
fn duplicate_shares_lists() {
    let items = Rc::new(vec![sym("+"), num(1.0)]);
    let original = Expression::List(items.clone());
    let copy = original.duplicate();
    assert_eq!(copy, original);
    match copy {
        Expression::List(shared) => assert!(Rc::ptr_eq(&shared, &items)),
        other => panic!("no list: {:?}", other),
    }
    assert_eq!(Rc::strong_count(&items), 2);
    assert_eq!(sym("x").duplicate(), sym("x"));
    assert_eq!(num(1.5).duplicate(), num(1.5));
}
