//! Evaluation of an expression against an environment.
//!
//! The meaning of evaluation is given by `eval` and the functions around it,
//! over the models of expressions and environments. The executable functions
//! compute exactly what those say, for every arithmetic closure whose result
//! depends on its arguments alone.

use crate::environment::{resolve, Bindings, Environment, Resolution, Resolved};
use crate::expression::{forms, optional_form, share, Expression, Form};
use crate::numeric::{
    arithmetic_of, arithmetic_ready, operator_of, seed_of, Arithmetic, Operator,
};
use crate::token::same_text;
use vstd::prelude::*;

verus! {

/// A failure that ends an evaluation.
#[derive(Debug, Clone, Copy, PartialEq, Eq, Structural)]
pub enum EvalError {
    /// A list without elements was evaluated.
    EmptyListEvaluation,
    /// The first element of an evaluated list is no symbol.
    NotAProcedure,
    /// An operand of an arithmetic built-in did not evaluate to a number.
    OperandNotANumber,
    /// A symbol is bound, directly or through other symbols, to itself.
    CyclicBinding,
    /// Evaluations were nested more deeply than the limit allows.
    RecursionLimit,
}

/// What an evaluation yields: a value, no value, or a failure.
pub type Outcome = Result<Option<Form>, EvalError>;

/// How deeply `evaluate` lets evaluations nest.
pub const MAX_DEPTH: usize = 256;

/// Whether every element is a symbol.
pub open spec fn all_symbols(items: Seq<Form>) -> bool {
    forall|i: int| 0 <= i < items.len() ==> (#[trigger] items[i]) is Symbol
}

/// The procedure that a `lambda` form makes: the form has exactly three
/// elements, the second a list of symbols and the third a list.
pub open spec fn lambda_value(items: Seq<Form>) -> Option<Form> {
    if items.len() == 3 {
        match (items[1], items[2]) {
            (Form::List(parameters), Form::List(body)) => if all_symbols(parameters) {
                Some(Form::Procedure(parameters, body))
            } else {
                None
            },
            _ => None,
        }
    } else {
        None
    }
}

/// The frame of a call: the first `count` parameters bound to their values,
/// a later parameter of the same name over an earlier one. A parameter
/// that is no symbol binds nothing.
pub open spec fn bind_parameters(parameters: Seq<Form>, values: Seq<Form>, count: nat) -> Bindings
    decreases count,
{
    if count == 0 {
        Map::empty()
    } else {
        let earlier = bind_parameters(parameters, values, (count - 1) as nat);
        match parameters[count - 1] {
            Form::Symbol(name) => earlier.insert(name, values[count - 1]),
            _ => earlier,
        }
    }
}

/// The outcome of evaluating `form` against `env`, and the environment
/// afterwards, when evaluations may nest `depth` deep below this one.
pub open spec fn eval(k: Arithmetic, form: Form, env: Bindings, depth: nat) -> (Outcome, Bindings)
    decreases depth, 3nat, 0nat,
{
    match form {
        Form::Number(_) => (Ok(Some(form)), env),
        Form::Procedure(_, _) => (Ok(None), env),
        Form::Symbol(name) => match resolve(env, name, env.len()) {
            Resolved::Unbound(last) => (Ok(Some(Form::Symbol(last))), env),
            Resolved::Cyclic => (Err(EvalError::CyclicBinding), env),
            Resolved::Bound(bound) => match bound {
                Form::List(_) => eval_nested(k, bound, env, depth),
                _ => (Ok(Some(bound)), env),
            },
        },
        Form::List(items) => if items.len() == 0 {
            (Err(EvalError::EmptyListEvaluation), env)
        } else {
            match items[0] {
                Form::Symbol(head) => match operator_of(head) {
                    Some(op) => {
                        let (folded, after) = fold_operands(k, op, items, 1, seed_of(op), env, depth);
                        match folded {
                            Ok(bits) => (Ok(Some(Form::Number(bits))), after),
                            Err(error) => (Err(error), after),
                        }
                    },
                    None => if head == "lambda"@ {
                        (Ok(lambda_value(items)), env)
                    } else if head == "define"@ {
                        eval_define(k, items, env, depth)
                    } else {
                        eval_call(k, head, items, env, depth)
                    },
                },
                _ => (Err(EvalError::NotAProcedure), env),
            }
        },
    }
}

/// An evaluation one level further down, which fails where the depth is used
/// up.
pub open spec fn eval_nested(k: Arithmetic, form: Form, env: Bindings, depth: nat) -> (
    Outcome,
    Bindings,
)
    decreases depth, 0nat, 0nat,
{
    if depth == 0 {
        (Err(EvalError::RecursionLimit), env)
    } else {
        eval(k, form, env, (depth - 1) as nat)
    }
}

/// The left fold of `op` over the operands `items[from..]`, starting from
/// `acc`. Each operand is evaluated in turn against the environment that the
/// one before it left, and has to yield a number.
pub open spec fn fold_operands(
    k: Arithmetic,
    op: Operator,
    items: Seq<Form>,
    from: nat,
    acc: u64,
    env: Bindings,
    depth: nat,
) -> (Result<u64, EvalError>, Bindings)
    decreases depth, 1nat, items.len() - from,
{
    if from >= items.len() {
        (Ok(acc), env)
    } else {
        let (outcome, after) = eval_nested(k, items[from as int], env, depth);
        match outcome {
            Ok(Some(Form::Number(operand))) => fold_operands(
                k,
                op,
                items,
                from + 1,
                k(op, acc, operand),
                after,
                depth,
            ),
            Ok(_) => (Err(EvalError::OperandNotANumber), after),
            Err(error) => (Err(error), after),
        }
    }
}

/// The values of the arguments `items[from..]`, after `values`. Each argument
/// is evaluated in turn against the caller's environment. An argument that
/// yields no value leaves the call without one.
pub open spec fn eval_arguments(
    k: Arithmetic,
    items: Seq<Form>,
    from: nat,
    values: Seq<Form>,
    env: Bindings,
    depth: nat,
) -> (Result<Option<Seq<Form>>, EvalError>, Bindings)
    decreases depth, 1nat, items.len() - from,
{
    if from >= items.len() {
        (Ok(Some(values)), env)
    } else {
        let (outcome, after) = eval_nested(k, items[from as int], env, depth);
        match outcome {
            Ok(Some(value)) => eval_arguments(k, items, from + 1, values.push(value), after, depth),
            Ok(None) => (Ok(None), after),
            Err(error) => (Err(error), after),
        }
    }
}

/// A `define` form: with exactly three elements, the second a symbol, the
/// third is evaluated and its value, if it has one, bound to that symbol's
/// name. The form itself yields no value.
pub open spec fn eval_define(k: Arithmetic, items: Seq<Form>, env: Bindings, depth: nat) -> (
    Outcome,
    Bindings,
)
    decreases depth, 2nat, 0nat,
{
    if items.len() == 3 {
        match items[1] {
            Form::Symbol(target) => {
                let (outcome, after) = eval_nested(k, items[2], env, depth);
                match outcome {
                    Ok(Some(value)) => (Ok(None), after.insert(target, value)),
                    Ok(None) => (Ok(None), after),
                    Err(error) => (Err(error), after),
                }
            },
            _ => (Ok(None), env),
        }
    } else {
        (Ok(None), env)
    }
}

/// A call of the procedure bound to `head`, with as many arguments as it has
/// parameters: the body is evaluated against a frame of its own, which holds
/// the parameters and nothing else. Any other binding of `head`, or none,
/// yields no value.
pub open spec fn eval_call(
    k: Arithmetic,
    head: Seq<char>,
    items: Seq<Form>,
    env: Bindings,
    depth: nat,
) -> (Outcome, Bindings)
    decreases depth, 2nat, 0nat,
{
    if env.contains_key(head) {
        match env[head] {
            Form::Procedure(parameters, body) => if parameters.len() == items.len() - 1 {
                let (arguments, after) = eval_arguments(k, items, 1, Seq::empty(), env, depth);
                match arguments {
                    Ok(Some(values)) => {
                        let frame = bind_parameters(parameters, values, parameters.len());
                        (eval_nested(k, Form::List(body), frame, depth).0, after)
                    },
                    Ok(None) => (Ok(None), after),
                    Err(error) => (Err(error), after),
                }
            } else {
                (Ok(None), env)
            },
            _ => (Ok(None), env),
        }
    } else {
        (Ok(None), env)
    }
}

/// The model of an executable outcome.
pub open spec fn outcome_form(outcome: Result<Option<Expression>, EvalError>) -> Outcome {
    match outcome {
        Ok(value) => Ok(optional_form(value)),
        Err(error) => Err(error),
    }
}

/// The model of evaluated arguments.
pub open spec fn arguments_form(arguments: Result<Option<Vec<Expression>>, EvalError>) -> Result<
    Option<Seq<Form>>,
    EvalError,
> {
    match arguments {
        Ok(Some(values)) => Ok(Some(forms(values))),
        Ok(None) => Ok(None),
        Err(error) => Err(error),
    }
}

/// Whether every element is a symbol.
fn only_symbols(items: &Vec<Expression>) -> (all: bool)
    ensures
        all == all_symbols(forms(*items)),
{
    let mut i: usize = 0;
    while i < items.len()
        invariant
            i <= items.len(),
            forall|j: int| 0 <= j < i ==> (#[trigger] forms(*items)[j]) is Symbol,
        decreases items.len() - i,
    {
        match &items[i] {
            Expression::Symbol(_) => {},
            _ => {
                assert(!(forms(*items)[i as int] is Symbol));
                return false;
            },
        }
        i += 1;
    }
    true
}

/// The procedure that a `lambda` form makes, if the form is well shaped.
fn make_procedure(items: &Vec<Expression>) -> (made: Option<Expression>)
    ensures
        optional_form(made) == lambda_value(forms(*items)),
{
    if items.len() != 3 {
        return None;
    }
    match (&items[1], &items[2]) {
        (Expression::List(parameters), Expression::List(body)) => {
            if only_symbols(parameters) {
                Some(Expression::Procedure(share(parameters), share(body)))
            } else {
                None
            }
        },
        _ => None,
    }
}

/// The frame of a call: each parameter bound to the value of its argument.
fn bind(parameters: &Vec<Expression>, values: &Vec<Expression>) -> (frame: Environment)
    requires
        parameters.len() == values.len(),
    ensures
        frame@ == bind_parameters(forms(*parameters), forms(*values), parameters.len() as nat),
{
    let mut frame = Environment::new_empty();
    let mut i: usize = 0;
    while i < parameters.len()
        invariant
            i <= parameters.len(),
            parameters.len() == values.len(),
            frame@ == bind_parameters(forms(*parameters), forms(*values), i as nat),
        decreases parameters.len() - i,
    {
        match &parameters[i] {
            Expression::Symbol(name) => {
                frame.set(name.clone(), values[i].duplicate());
            },
            _ => {},
        }
        i += 1;
    }
    frame
}

/// Evaluates `form` one level further down.
fn evaluate_nested<A: Fn(Operator, u64, u64) -> u64>(
    form: &Expression,
    env: &mut Environment,
    arith: &A,
    depth: usize,
) -> (outcome: Result<Option<Expression>, EvalError>)
    requires
        arithmetic_ready(arith),
    ensures
        outcome_form(outcome) == eval_nested(
            arithmetic_of(arith),
            form@,
            old(env)@,
            depth as nat,
        ).0,
        final(env)@ == eval_nested(
            arithmetic_of(arith),
            form@,
            old(env)@,
            depth as nat,
        ).1,
    decreases depth, 0nat,
{
    if depth == 0 {
        Err(EvalError::RecursionLimit)
    } else {
        form.evaluate_within(env, arith, depth - 1)
    }
}

/// Folds `op` over the operands of an arithmetic form, from left to right.
fn fold<A: Fn(Operator, u64, u64) -> u64>(
    op: Operator,
    items: &Vec<Expression>,
    env: &mut Environment,
    arith: &A,
    depth: usize,
) -> (folded: Result<u64, EvalError>)
    requires
        arithmetic_ready(arith),
        items.len() >= 1,
    ensures
        folded == fold_operands(
            arithmetic_of(arith),
            op,
            forms(*items),
            1,
            seed_of(op),
            old(env)@,
            depth as nat,
        ).0,
        final(env)@ == fold_operands(
            arithmetic_of(arith),
            op,
            forms(*items),
            1,
            seed_of(op),
            old(env)@,
            depth as nat,
        ).1,
    decreases depth, 1nat,
{
    let ghost k = arithmetic_of(arith);
    let ghost goal = fold_operands(k, op, forms(*items), 1, seed_of(op), env@, depth as nat);
    let mut acc: u64 = op.seed();
    let mut i: usize = 1;
    while i < items.len()
        invariant
            1 <= i <= items.len(),
            arithmetic_ready(arith),
            k == arithmetic_of(arith),
            fold_operands(k, op, forms(*items), i as nat, acc, env@, depth as nat) == goal,
            goal == fold_operands(k, op, forms(*items), 1, seed_of(op), old(env)@, depth as nat),
        decreases items.len() - i,
    {
        assert(forms(*items)[i as int] == items[i as int]@);
        match evaluate_nested(&items[i], env, arith, depth) {
            Ok(Some(Expression::Number(operand))) => {
                acc = arith(op, acc, operand);
            },
            Ok(_) => {
                return Err(EvalError::OperandNotANumber);
            },
            Err(error) => {
                return Err(error);
            },
        }
        i += 1;
    }
    Ok(acc)
}

/// Evaluates the arguments of a call, from left to right.
fn evaluate_arguments<A: Fn(Operator, u64, u64) -> u64>(
    items: &Vec<Expression>,
    env: &mut Environment,
    arith: &A,
    depth: usize,
) -> (arguments: Result<Option<Vec<Expression>>, EvalError>)
    requires
        arithmetic_ready(arith),
        items.len() >= 1,
    ensures
        arguments_form(arguments) == eval_arguments(
            arithmetic_of(arith),
            forms(*items),
            1,
            Seq::empty(),
            old(env)@,
            depth as nat,
        ).0,
        final(env)@ == eval_arguments(
            arithmetic_of(arith),
            forms(*items),
            1,
            Seq::empty(),
            old(env)@,
            depth as nat,
        ).1,
        arguments matches Ok(Some(values)) ==> values.len() == items.len() - 1,
    decreases depth, 1nat,
{
    let ghost k = arithmetic_of(arith);
    let ghost goal = eval_arguments(k, forms(*items), 1, Seq::empty(), env@, depth as nat);
    let mut values: Vec<Expression> = Vec::new();
    let mut i: usize = 1;
    assert(forms(values) =~= Seq::<Form>::empty());
    while i < items.len()
        invariant
            1 <= i <= items.len(),
            values.len() == i - 1,
            arithmetic_ready(arith),
            k == arithmetic_of(arith),
            eval_arguments(k, forms(*items), i as nat, forms(values), env@, depth as nat) == goal,
            goal == eval_arguments(k, forms(*items), 1, Seq::empty(), old(env)@, depth as nat),
        decreases items.len() - i,
    {
        assert(forms(*items)[i as int] == items[i as int]@);
        match evaluate_nested(&items[i], env, arith, depth) {
            Ok(Some(value)) => {
                let ghost before = forms(values);
                values.push(value);
                assert(forms(values) =~= before.push(value@));
            },
            Ok(None) => {
                return Ok(None);
            },
            Err(error) => {
                return Err(error);
            },
        }
        i += 1;
    }
    Ok(Some(values))
}

/// Evaluates a `define` form.
fn evaluate_define<A: Fn(Operator, u64, u64) -> u64>(
    items: &Vec<Expression>,
    env: &mut Environment,
    arith: &A,
    depth: usize,
) -> (outcome: Result<Option<Expression>, EvalError>)
    requires
        arithmetic_ready(arith),
    ensures
        outcome_form(outcome) == eval_define(
            arithmetic_of(arith),
            forms(*items),
            old(env)@,
            depth as nat,
        ).0,
        final(env)@ == eval_define(
            arithmetic_of(arith),
            forms(*items),
            old(env)@,
            depth as nat,
        ).1,
    decreases depth, 2nat,
{
    if items.len() != 3 {
        return Ok(None);
    }
    match &items[1] {
        Expression::Symbol(target) => {
            match evaluate_nested(&items[2], env, arith, depth) {
                Ok(Some(value)) => {
                    env.set(target.clone(), value);
                    Ok(None)
                },
                Ok(None) => Ok(None),
                Err(error) => Err(error),
            }
        },
        _ => Ok(None),
    }
}

/// Calls the procedure bound to `head` on the arguments `items[1..]`.
fn evaluate_call<A: Fn(Operator, u64, u64) -> u64>(
    head: &str,
    items: &Vec<Expression>,
    env: &mut Environment,
    arith: &A,
    depth: usize,
) -> (outcome: Result<Option<Expression>, EvalError>)
    requires
        arithmetic_ready(arith),
        items.len() >= 1,
    ensures
        outcome_form(outcome) == eval_call(
            arithmetic_of(arith),
            head@,
            forms(*items),
            old(env)@,
            depth as nat,
        ).0,
        final(env)@ == eval_call(
            arithmetic_of(arith),
            head@,
            forms(*items),
            old(env)@,
            depth as nat,
        ).1,
    decreases depth, 2nat,
{
    let (parameters, body) = match env.get(head) {
        Some(Expression::Procedure(parameters, body)) => (share(parameters), share(body)),
        _ => {
            return Ok(None);
        },
    };
    assert(env@[head@] == Form::Procedure(forms(*parameters), forms(*body)));
    if parameters.len() != items.len() - 1 {
        return Ok(None);
    }
    match evaluate_arguments(items, env, arith, depth) {
        Ok(Some(values)) => {
            let mut frame = bind(&parameters, &values);
            let form = Expression::List(body);
            evaluate_nested(&form, &mut frame, arith, depth)
        },
        Ok(None) => Ok(None),
        Err(error) => Err(error),
    }
}

impl Expression {
    /// Evaluates the expression against `env`, with evaluations nested at
    /// most `MAX_DEPTH` deep. `arith` does the arithmetic: it is handed the
    /// operator, the value folded so far and the next operand.
    pub fn evaluate<A: Fn(Operator, u64, u64) -> u64>(
        &self,
        env: &mut Environment,
        arith: &A,
    ) -> (outcome: Result<Option<Expression>, EvalError>)
        requires
            arithmetic_ready(arith),
        ensures
            outcome_form(outcome) == eval(
                arithmetic_of(arith),
                self@,
                old(env)@,
                MAX_DEPTH as nat,
            ).0,
            final(env)@ == eval(
                arithmetic_of(arith),
                self@,
                old(env)@,
                MAX_DEPTH as nat,
            ).1,
    {
        self.evaluate_within(env, arith, MAX_DEPTH)
    }

    /// Evaluates the expression against `env`, with evaluations nested at
    /// most `depth` deep below this one.
    pub fn evaluate_within<A: Fn(Operator, u64, u64) -> u64>(
        &self,
        env: &mut Environment,
        arith: &A,
        depth: usize,
    ) -> (outcome: Result<Option<Expression>, EvalError>)
        requires
            arithmetic_ready(arith),
        ensures
            outcome_form(outcome) == eval(
                arithmetic_of(arith),
                self@,
                old(env)@,
                depth as nat,
            ).0,
            final(env)@ == eval(
                arithmetic_of(arith),
                self@,
                old(env)@,
                depth as nat,
            ).1,
        decreases depth, 3nat,
    {
        match self {
            Expression::Number(bits) => Ok(Some(Expression::Number(*bits))),
            Expression::Procedure(_, _) => Ok(None),
            Expression::Symbol(name) => {
                let bound = match env.resolve(name.as_str()) {
                    Resolution::Unbound(last) => {
                        return Ok(Some(Expression::symbol(last)));
                    },
                    Resolution::Cyclic => {
                        return Err(EvalError::CyclicBinding);
                    },
                    Resolution::Bound(bound) => bound.duplicate(),
                };
                match bound {
                    Expression::List(_) => evaluate_nested(&bound, env, arith, depth),
                    _ => Ok(Some(bound)),
                }
            },
            Expression::List(items) => {
                if items.len() == 0 {
                    return Err(EvalError::EmptyListEvaluation);
                }
                match &items[0] {
                    Expression::Symbol(head) => match Operator::named(head.as_str()) {
                        Some(op) => match fold(op, items, env, arith, depth) {
                            Ok(bits) => Ok(Some(Expression::Number(bits))),
                            Err(error) => Err(error),
                        },
                        None => if same_text(head.as_str(), "lambda") {
                            Ok(make_procedure(items))
                        } else if same_text(head.as_str(), "define") {
                            evaluate_define(items, env, arith, depth)
                        } else {
                            evaluate_call(head.as_str(), items, env, arith, depth)
                        },
                    },
                    _ => Err(EvalError::NotAProcedure),
                }
            },
        }
    }
}

} // verus!
