//! What holds of evaluation on every input.

use crate::environment::{resolve, Bindings, Resolved};
use crate::evaluator::{eval, eval_define, eval_nested, EvalError};
use crate::expression::Form;
use crate::numeric::{operator_of, Arithmetic};
use vstd::prelude::*;

verus! {

/// The names of the special forms are not names of arithmetic built-ins, and
/// differ from each other.
pub proof fn lemma_special_names()
    ensures
        operator_of("lambda"@) is None,
        operator_of("define"@) is None,
        "lambda"@ != "define"@,
{
    reveal_strlit("lambda");
    reveal_strlit("define");
    assert("lambda"@.len() == 6);
    assert("define"@.len() == 6);
    assert("lambda"@[0] == 'l');
    assert("define"@[0] == 'd');
}

/// A number evaluates to itself and leaves the environment as it was,
/// whatever the environment and the depth allowed.
pub proof fn lemma_number_is_its_own_value(k: Arithmetic, bits: u64, env: Bindings, depth: nat)
    ensures
        eval(k, Form::Number(bits), env, depth).0 == Ok::<Option<Form>, EvalError>(
            Some(Form::Number(bits)),
        ),
        eval(k, Form::Number(bits), env, depth).1 == env,
{
}

/// Evaluating the empty list fails with `EmptyListEvaluation`; it never
/// passes for an evaluation without a value.
pub proof fn lemma_empty_list_fails(k: Arithmetic, env: Bindings, depth: nat)
    ensures
        eval(k, Form::List(Seq::empty()), env, depth).0 == Err::<Option<Form>, EvalError>(
            EvalError::EmptyListEvaluation,
        ),
        eval(k, Form::List(Seq::empty()), env, depth).1 == env,
{
}

/// A symbol without a binding evaluates to itself.
pub proof fn lemma_unbound_symbol_is_its_own_value(
    k: Arithmetic,
    name: Seq<char>,
    env: Bindings,
    depth: nat,
)
    requires
        !env.contains_key(name),
    ensures
        eval(k, Form::Symbol(name), env, depth).0 == Ok::<Option<Form>, EvalError>(
            Some(Form::Symbol(name)),
        ),
        eval(k, Form::Symbol(name), env, depth).1 == env,
{
}

/// A call with another number of arguments than the procedure has
/// parameters yields no value, fails with nothing, and leaves the
/// environment as it was. The name must not be that of a built-in or a
/// special form, which go before any binding.
pub proof fn lemma_wrong_argument_count_yields_nothing(
    k: Arithmetic,
    head: Seq<char>,
    items: Seq<Form>,
    env: Bindings,
    depth: nat,
)
    requires
        items.len() >= 1,
        items[0] == Form::Symbol(head),
        operator_of(head) is None,
        head != "lambda"@,
        head != "define"@,
        env.contains_key(head),
        env[head] matches Form::Procedure(parameters, _) && parameters.len() != items.len() - 1,
    ensures
        eval(k, Form::List(items), env, depth).0 == Ok::<Option<Form>, EvalError>(None),
        eval(k, Form::List(items), env, depth).1 == env,
{
}

/// A `define` of a name to a number binds the name, over any earlier
/// binding, and yields no value; the name then evaluates to that number.
pub proof fn lemma_define_then_lookup(
    k: Arithmetic,
    name: Seq<char>,
    bits: u64,
    env: Bindings,
    depth: nat,
    later: nat,
)
    requires
        depth >= 1,
    ensures
        ({
            let form = Form::List(
                seq![Form::Symbol("define"@), Form::Symbol(name), Form::Number(bits)],
            );
            let defined = env.insert(name, Form::Number(bits));
            &&& eval(k, form, env, depth).0 == Ok::<Option<Form>, EvalError>(None)
            &&& eval(k, form, env, depth).1 == defined
            &&& eval(k, Form::Symbol(name), defined, later).0 == Ok::<Option<Form>, EvalError>(
                Some(Form::Number(bits)),
            )
            &&& eval(k, Form::Symbol(name), defined, later).1 == defined
        }),
{
    lemma_special_names();
    let items = seq![Form::Symbol("define"@), Form::Symbol(name), Form::Number(bits)];
    assert(items.len() == 3);
    assert(items[0] == Form::Symbol("define"@));
    assert(items[1] == Form::Symbol(name));
    assert(items[2] == Form::Number(bits));
    let defined = env.insert(name, Form::Number(bits));
    assert(eval_nested(k, items[2], env, depth) == (
        Ok::<Option<Form>, EvalError>(Some(Form::Number(bits))),
        env,
    ));
    assert(eval_define(k, items, env, depth) == (Ok::<Option<Form>, EvalError>(None), defined));
    assert(eval(k, Form::List(items), env, depth) == eval_define(k, items, env, depth));
    assert(resolve(defined, name, defined.len()) == Resolved::Bound(Form::Number(bits)));
}

/// Along a cycle of aliases the chain never ends.
proof fn lemma_cycle_never_resolves(env: Bindings, names: Seq<Seq<char>>, at: int, fuel: nat)
    requires
        names.len() > 0,
        0 <= at < names.len(),
        forall|i: int|
            0 <= i < names.len() ==> env.contains_key(#[trigger] names[i]) && env[names[i]]
                == Form::Symbol(names[(i + 1) % (names.len() as int)]),
    ensures
        resolve(env, names[at], fuel) == Resolved::Cyclic,
    decreases fuel,
{
    if fuel > 0 {
        lemma_cycle_never_resolves(env, names, (at + 1) % (names.len() as int), (fuel - 1) as nat);
    }
}

/// A symbol on a cycle of aliases, each name bound to the symbol of the
/// next and the last to the first, does not evaluate: the cycle is reported
/// as `CyclicBinding`. A name bound to its own symbol is a cycle of one.
pub proof fn lemma_cyclic_binding_is_reported(
    k: Arithmetic,
    names: Seq<Seq<char>>,
    env: Bindings,
    depth: nat,
)
    requires
        names.len() > 0,
        forall|i: int|
            0 <= i < names.len() ==> env.contains_key(#[trigger] names[i]) && env[names[i]]
                == Form::Symbol(names[(i + 1) % (names.len() as int)]),
    ensures
        eval(k, Form::Symbol(names[0]), env, depth).0 == Err::<Option<Form>, EvalError>(
            EvalError::CyclicBinding,
        ),
        eval(k, Form::Symbol(names[0]), env, depth).1 == env,
{
    lemma_cycle_never_resolves(env, names, 0, env.len());
}

/// The name that the chain of aliases from `name` has reached after `steps`
/// steps. The chain stays where a name is not bound to a symbol.
pub open spec fn alias_after(env: Bindings, name: Seq<char>, steps: nat) -> Seq<char>
    decreases steps,
{
    if steps == 0 {
        name
    } else if env.contains_key(name) {
        match env[name] {
            Form::Symbol(next) => alias_after(env, next, (steps - 1) as nat),
            _ => name,
        }
    } else {
        name
    }
}

/// Where the chain does not end within `fuel` steps, every name on it up to
/// there is bound to a symbol.
proof fn lemma_unresolved_chain_is_bound(env: Bindings, name: Seq<char>, fuel: nat, steps: nat)
    requires
        resolve(env, name, fuel) == Resolved::Cyclic,
        steps <= fuel,
    ensures
        env.contains_key(alias_after(env, name, steps)),
    decreases fuel,
{
    if steps > 0 {
        let next = env[name]->Symbol_0;
        lemma_unresolved_chain_is_bound(env, next, (fuel - 1) as nat, (steps - 1) as nat);
    }
}

/// No chain is called a cycle that is none: where following the aliases from
/// `name` is given up, the chain has come to one name twice.
pub proof fn lemma_reported_cycle_revisits_a_name(env: Bindings, name: Seq<char>)
    requires
        env.dom().finite(),
        resolve(env, name, env.len()) == Resolved::Cyclic,
    ensures
        exists|i: nat, j: nat|
            i < j <= env.len() && alias_after(env, name, i) == alias_after(env, name, j),
{
    let count = env.len();
    let chain = Seq::new(count + 1, |i: int| alias_after(env, name, i as nat));
    assert forall|x: Seq<char>| chain.to_set().contains(x) implies env.dom().contains(x) by {
        let i = choose|i: int| 0 <= i < chain.len() && chain[i] == x;
        lemma_unresolved_chain_is_bound(env, name, count, i as nat);
    }
    vstd::set_lib::lemma_len_subset(chain.to_set(), env.dom());
    if chain.no_duplicates() {
        chain.unique_seq_to_set();
        assert(false);
    }
    let (i, j) = choose|i: int, j: int|
        0 <= i < chain.len() && 0 <= j < chain.len() && i != j && chain[i] == chain[j];
    if i < j {
        assert(alias_after(env, name, i as nat) == alias_after(env, name, j as nat));
    } else {
        assert(alias_after(env, name, j as nat) == alias_after(env, name, i as nat));
    }
}

} // verus!
