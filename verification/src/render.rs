//! Writing an expression out as text that parses back to it.

use crate::expression::{forms, Expression, Form};
use crate::numeric::{writer_of, writer_ready, Writer};
use vstd::prelude::*;
use vstd::string::StringExecFns;

verus! {

/// The text of an expression. A number is written by `show`, a symbol is its
/// name, a list stands in parentheses with single spaces between its
/// elements, and a procedure is written as the `lambda` form that makes it.
pub open spec fn render(show: Writer, form: Form) -> Seq<char>
    decreases form, 0nat,
{
    match form {
        Form::Number(bits) => show(bits),
        Form::Symbol(name) => name,
        Form::List(items) => seq!['('] + render_from(show, items, 0) + seq![')'],
        Form::Procedure(parameters, body) => "(lambda ("@ + render_from(show, parameters, 0)
            + ") ("@ + render_from(show, body, 0) + "))"@,
    }
}

/// The texts of `items[from..]`, with single spaces between them.
pub open spec fn render_from(show: Writer, items: Seq<Form>, from: nat) -> Seq<char>
    decreases items, items.len() - from,
{
    if from >= items.len() {
        Seq::empty()
    } else if from + 1 == items.len() {
        render(show, items[from as int])
    } else {
        render(show, items[from as int]) + seq![' '] + render_from(show, items, from + 1)
    }
}

/// Appends the texts of the items, with single spaces between them.
fn render_items<W: Fn(u64) -> String>(items: &Vec<Expression>, show: &W, text: &mut String)
    requires
        writer_ready(show),
    ensures
        final(text)@ == old(text)@ + render_from(writer_of(show), forms(*items), 0),
    decreases items, 0nat,
{
    let ghost w = writer_of(show);
    let ghost all = forms(*items);
    let mut i: usize = 0;
    assert(text@ + render_from(w, all, 0) == old(text)@ + render_from(w, all, 0));
    while i < items.len()
        invariant
            i <= items.len(),
            writer_ready(show),
            w == writer_of(show),
            all == forms(*items),
            text@ + render_from(w, all, i as nat) == old(text)@ + render_from(w, all, 0),
        decreases items.len() - i,
    {
        proof {
            broadcast use vstd::std_specs::vec::axiom_vec_index_decreases;
            assert(decreases_to!(*items => items[i as int]));
            assert(all[i as int] == items[i as int]@);
        }
        let ghost before = text@;
        let piece = items[i].render(show);
        text.append(piece.as_str());
        if i + 1 < items.len() {
            text.push(' ');
            assert(text@ + render_from(w, all, (i + 1) as nat) =~= before + render_from(
                w,
                all,
                i as nat,
            ));
        } else {
            assert(text@ + render_from(w, all, (i + 1) as nat) =~= before + render_from(
                w,
                all,
                i as nat,
            ));
        }
        i += 1;
    }
    assert(text@ + render_from(w, all, i as nat) =~= text@);
}

impl Expression {
    /// The text of the expression. `show` writes a number out.
    pub fn render<W: Fn(u64) -> String>(&self, show: &W) -> (text: String)
        requires
            writer_ready(show),
        ensures
            text@ == render(writer_of(show), self@),
        decreases self, 1nat,
    {
        match self {
            Expression::Number(bits) => show(*bits),
            Expression::Symbol(name) => name.clone(),
            Expression::List(items) => {
                let mut text = String::new();
                text.push('(');
                render_items(items, show, &mut text);
                text.push(')');
                assert(text@ =~= render(writer_of(show), self@));
                text
            },
            Expression::Procedure(parameters, body) => {
                let mut text = String::from_str("(lambda (");
                render_items(parameters, show, &mut text);
                text.append(") (");
                render_items(body, show, &mut text);
                text.append("))");
                assert(text@ =~= render(writer_of(show), self@));
                text
            },
        }
    }
}

} // verus!
