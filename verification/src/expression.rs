//! The expression tree and its mathematical model.

use std::rc::Rc;
use vstd::prelude::*;

verus! {

/// The mathematical model of an expression: what contracts speak of.
pub ghost enum Form {
    /// A numeric literal, by the bit pattern of its IEEE-754 double.
    Number(u64),
    /// An identifier.
    Symbol(Seq<char>),
    /// A compound form.
    List(Seq<Form>),
    /// A callable value: its parameters and the elements of its body.
    Procedure(Seq<Form>, Seq<Form>),
}

/// A node of the expression tree. Lists and procedure payloads are shared,
/// never changed in place.
#[derive(Debug, Clone, PartialEq, Eq)]
pub enum Expression {
    /// A numeric literal, by the bit pattern of its IEEE-754 double.
    Number(u64),
    /// An identifier, resolved by lookup.
    Symbol(String),
    /// A compound form; its first element names the operation.
    List(Rc<Vec<Expression>>),
    /// A callable value: its parameters and the elements of its body.
    Procedure(Rc<Vec<Expression>>, Rc<Vec<Expression>>),
}

/// The models of the expressions of a vector, in order.
pub open spec fn forms(items: Vec<Expression>) -> Seq<Form>
    decreases items,
{
    Seq::new(
        items.len() as nat,
        |i: int|
            if 0 <= i < items.len() {
                items[i].view()
            } else {
                Form::Number(0)
            },
    )
}

impl View for Expression {
    type V = Form;

    open spec fn view(&self) -> Form
        decreases self,
    {
        match self {
            Expression::Number(bits) => Form::Number(*bits),
            Expression::Symbol(name) => Form::Symbol(name@),
            Expression::List(items) => Form::List(forms(**items)),
            Expression::Procedure(parameters, body) => Form::Procedure(
                forms(**parameters),
                forms(**body),
            ),
        }
    }
}

/// `Rc::clone` makes another pointer to the same allocation, so the new
/// handle holds the value that the old one holds.
#[verifier::external_body]
pub(crate) fn share(items: &Rc<Vec<Expression>>) -> (shared: Rc<Vec<Expression>>)
    ensures
        shared == *items,
{
    items.clone()
}

/// The model of an optional expression.
pub open spec fn optional_form(value: Option<Expression>) -> Option<Form> {
    match value {
        Some(expression) => Some(expression@),
        None => None,
    }
}

impl Expression {
    /// A second handle on the same expression. Lists and procedure payloads
    /// are shared, not copied.
    pub fn duplicate(&self) -> (copy: Expression)
        ensures
            copy == *self,
            copy@ == self@,
    {
        match self {
            Expression::Number(bits) => Expression::Number(*bits),
            Expression::Symbol(name) => Expression::Symbol(name.clone()),
            Expression::List(items) => Expression::List(share(items)),
            Expression::Procedure(parameters, body) => Expression::Procedure(
                share(parameters),
                share(body),
            ),
        }
    }

    /// A list expression over the given items.
    pub fn list(items: Vec<Expression>) -> (list: Expression)
        ensures
            list@ == Form::List(forms(items)),
    {
        Expression::List(Rc::new(items))
    }

    /// A symbol with the given name.
    pub fn symbol(name: &str) -> (symbol: Expression)
        ensures
            symbol@ == Form::Symbol(name@),
    {
        Expression::Symbol(name.to_owned())
    }
}

} // verus!
