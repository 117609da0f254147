//! The table of named bindings that expressions are evaluated against.

use crate::expression::{Expression, Form};
use vstd::hash_map::StringHashMap;
use vstd::prelude::*;

verus! {

/// What an environment holds: a finite map from names to bound values.
pub type Bindings = Map<Seq<char>, Form>;

/// A mutable mapping from symbol names to bound expressions. One serves as the
/// global scope of a session; a fresh one is made for every procedure call.
pub struct Environment {
    bindings: StringHashMap<Expression>,
}

/// Where a chain of aliases ends. A name bound to a symbol is an alias of
/// that symbol's name.
pub ghost enum Resolved {
    /// The chain reached this name, which has no binding.
    Unbound(Seq<char>),
    /// The chain reached a name bound to this value, which is no symbol.
    Bound(Form),
    /// The chain did not end within the steps allowed.
    Cyclic,
}

/// Follows the aliases from `name` for at most `fuel` steps.
pub open spec fn resolve(env: Bindings, name: Seq<char>, fuel: nat) -> Resolved
    decreases fuel,
{
    if !env.contains_key(name) {
        Resolved::Unbound(name)
    } else {
        match env[name] {
            Form::Symbol(next) => if fuel == 0 {
                Resolved::Cyclic
            } else {
                resolve(env, next, (fuel - 1) as nat)
            },
            bound => Resolved::Bound(bound),
        }
    }
}

/// Where a chain of aliases ends, by references into the environment.
pub enum Resolution<'a> {
    /// The chain reached this name, which has no binding.
    Unbound(&'a str),
    /// The chain reached a name bound to this value, which is no symbol.
    Bound(&'a Expression),
    /// The chain runs in a cycle.
    Cyclic,
}

impl<'a> View for Resolution<'a> {
    type V = Resolved;

    open spec fn view(&self) -> Resolved {
        match self {
            Resolution::Unbound(name) => Resolved::Unbound(name@),
            Resolution::Bound(bound) => Resolved::Bound(bound@),
            Resolution::Cyclic => Resolved::Cyclic,
        }
    }
}

impl View for Environment {
    type V = Bindings;

    closed spec fn view(&self) -> Bindings {
        self.bindings@.map_values(|bound: Expression| bound@)
    }
}

impl Environment {
    #[verifier::type_invariant]
    spec fn bounded(&self) -> bool {
        self.bindings@.dom().finite()
    }

    /// A fresh environment without bindings.
    pub fn new_empty() -> (env: Environment)
        ensures
            env@ == Bindings::empty(),
    {
        let env = Environment { bindings: StringHashMap::new() };
        assert(env@ =~= Bindings::empty());
        env
    }

    /// The value bound to `name`, if there is one. The result is a reference
    /// into the environment, not a copy.
    pub fn get(&self, name: &str) -> (found: Option<&Expression>)
        ensures
            match found {
                Some(bound) => self@.contains_key(name@) && bound@ == self@[name@],
                None => !self@.contains_key(name@),
            },
    {
        self.bindings.get(name)
    }

    /// Binds `name` to `value`, over any earlier binding of that name.
    pub fn set(&mut self, name: String, value: Expression)
        ensures
            final(self)@ == old(self)@.insert(name@, value@),
    {
        proof {
            use_type_invariant(&*self);
        }
        let mut bindings = StringHashMap::new();
        core::mem::swap(&mut self.bindings, &mut bindings);
        bindings.insert(name, value);
        self.bindings = bindings;
        assert(self@ =~= old(self)@.insert(name@, value@));
    }

    /// Follows the aliases from `name` to their end. A chain that takes more
    /// steps than there are bindings runs in a cycle.
    pub fn resolve<'a>(&'a self, name: &'a str) -> (found: Resolution<'a>)
        ensures
            found@ == resolve(self@, name@, self@.len()),
    {
        let mut current: &'a str = name;
        let mut fuel: usize = self.len();
        loop
            invariant
                resolve(self@, current@, fuel as nat) == resolve(self@, name@, self@.len()),
            decreases fuel,
        {
            match self.get(current) {
                None => {
                    return Resolution::Unbound(current);
                },
                Some(bound) => match bound {
                    Expression::Symbol(next) => {
                        if fuel == 0 {
                            return Resolution::Cyclic;
                        }
                        current = next.as_str();
                        fuel = fuel - 1;
                    },
                    _ => {
                        return Resolution::Bound(bound);
                    },
                },
            }
        }
    }

    /// The number of bindings, which is finite.
    pub fn len(&self) -> (count: usize)
        ensures
            self@.dom().finite(),
            count == self@.len(),
    {
        broadcast use vstd::hash_map::group_hash_map_axioms;
        proof {
            use_type_invariant(self);
        }
        assert(self@.dom() =~= self.bindings@.dom());
        self.bindings.len()
    }
}

} // verus!
