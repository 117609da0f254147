//! The numeric operations that the caller supplies.
//!
//! A number is an IEEE-754 double held by its bit pattern. Reading a number
//! from a token, arithmetic on two numbers and writing a number out are done
//! by closures of the caller; this module says how contracts speak of them.

use vstd::prelude::*;

verus! {

/// The four arithmetic built-ins.
#[derive(Debug, Clone, Copy, PartialEq, Eq, Structural)]
pub enum Operator {
    Add,
    Subtract,
    Multiply,
    Divide,
}

/// The bit pattern of `0.0`, the value that sums and differences start from.
pub const ZERO_BITS: u64 = 0;

/// The bit pattern of `1.0`, the value that products and quotients start from.
pub const ONE_BITS: u64 = 0x3FF0_0000_0000_0000;

/// Arithmetic on bit patterns, as a mathematical function.
pub type Arithmetic = spec_fn(Operator, u64, u64) -> u64;

/// Reading a number from a token, as a mathematical function.
pub type Reader = spec_fn(Seq<char>) -> Option<u64>;

/// Writing a number out, as a mathematical function.
pub type Writer = spec_fn(u64) -> Seq<char>;

/// The function that an arithmetic closure computes.
pub open spec fn arithmetic_of<A: Fn(Operator, u64, u64) -> u64>(arith: &A) -> Arithmetic {
    |op: Operator, a: u64, b: u64| choose|r: u64| call_ensures(*arith, (op, a, b), r)
}

/// The closure accepts every pair of numbers, and what it returns depends on
/// its arguments alone.
pub open spec fn arithmetic_ready<A: Fn(Operator, u64, u64) -> u64>(arith: &A) -> bool {
    &&& forall|op: Operator, a: u64, b: u64| #[trigger] call_requires(*arith, (op, a, b))
    &&& forall|op: Operator, a: u64, b: u64, r: u64| #[trigger]
        call_ensures(*arith, (op, a, b), r) ==> r == arithmetic_of(arith)(op, a, b)
}

/// The closure may return `r` for a token with the characters `token`.
pub open spec fn may_read<N: Fn(&str) -> Option<u64>>(
    number: &N,
    token: Seq<char>,
    r: Option<u64>,
) -> bool {
    exists|s: &str| s@ == token && #[trigger] call_ensures(*number, (s,), r)
}

/// The function that a reading closure computes.
pub open spec fn reader_of<N: Fn(&str) -> Option<u64>>(number: &N) -> Reader {
    |token: Seq<char>| choose|r: Option<u64>| may_read(number, token, r)
}

/// The closure accepts every token, and what it returns depends on the
/// characters of the token alone.
pub open spec fn reader_ready<N: Fn(&str) -> Option<u64>>(number: &N) -> bool {
    &&& forall|s: &str| #[trigger] call_requires(*number, (s,))
    &&& forall|s: &str, r: Option<u64>| #[trigger]
        call_ensures(*number, (s,), r) ==> r == reader_of(number)(s@)
}

/// The closure may return the characters `text` for the number `bits`.
pub open spec fn may_write<W: Fn(u64) -> String>(show: &W, bits: u64, text: Seq<char>) -> bool {
    exists|s: String| s@ == text && #[trigger] call_ensures(*show, (bits,), s)
}

/// The function that a writing closure computes.
pub open spec fn writer_of<W: Fn(u64) -> String>(show: &W) -> Writer {
    |bits: u64| choose|text: Seq<char>| may_write(show, bits, text)
}

/// The closure accepts every number, and the characters that it returns
/// depend on the number alone.
pub open spec fn writer_ready<W: Fn(u64) -> String>(show: &W) -> bool {
    &&& forall|bits: u64| #[trigger] call_requires(*show, (bits,))
    &&& forall|bits: u64, s: String| #[trigger]
        call_ensures(*show, (bits,), s) ==> s@ == writer_of(show)(bits)
}

/// The value that a fold with `op` starts from.
pub open spec fn seed_of(op: Operator) -> u64 {
    match op {
        Operator::Add | Operator::Subtract => ZERO_BITS,
        Operator::Multiply | Operator::Divide => ONE_BITS,
    }
}

/// The arithmetic built-in that `name` names, if it names one.
pub open spec fn operator_of(name: Seq<char>) -> Option<Operator> {
    if name == seq!['+'] {
        Some(Operator::Add)
    } else if name == seq!['-'] {
        Some(Operator::Subtract)
    } else if name == seq!['*'] {
        Some(Operator::Multiply)
    } else if name == seq!['/'] {
        Some(Operator::Divide)
    } else {
        None
    }
}

impl Operator {
    /// The value that a fold with this operator starts from.
    pub fn seed(self) -> (bits: u64)
        ensures
            bits == seed_of(self),
    {
        match self {
            Operator::Add | Operator::Subtract => ZERO_BITS,
            Operator::Multiply | Operator::Divide => ONE_BITS,
        }
    }

    /// The arithmetic built-in that `name` names, if it names one.
    pub fn named(name: &str) -> (op: Option<Operator>)
        ensures
            op == operator_of(name@),
    {
        broadcast use vstd::string::group_string_axioms;
        let mut rest = name.chars();
        match rest.next() {
            None => None,
            Some(first) => {
                match rest.next() {
                    Some(_) => {
                        assert(name@.len() >= 2);
                        None
                    },
                    None => {
                        assert(name@ =~= seq![first]);
                        if first == '+' {
                            Some(Operator::Add)
                        } else if first == '-' {
                            Some(Operator::Subtract)
                        } else if first == '*' {
                            Some(Operator::Multiply)
                        } else if first == '/' {
                            Some(Operator::Divide)
                        } else {
                            assert(seq![first][0] == first);
                            None
                        }
                    },
                }
            },
        }
    }
}

/// A closure that accepts every pair of numbers and returns nothing but what
/// the function `k` gives is ready for use.
pub proof fn lemma_arithmetic_ready<A: Fn(Operator, u64, u64) -> u64>(arith: &A, k: Arithmetic)
    requires
        forall|op: Operator, a: u64, b: u64| #[trigger] call_requires(*arith, (op, a, b)),
        forall|op: Operator, a: u64, b: u64, r: u64| #[trigger]
            call_ensures(*arith, (op, a, b), r) ==> r == k(op, a, b),
    ensures
        arithmetic_ready(arith),
{
    assert forall|op: Operator, a: u64, b: u64, r: u64| #[trigger]
        call_ensures(*arith, (op, a, b), r) implies r == arithmetic_of(arith)(op, a, b) by {
        let chosen = choose|chosen: u64| call_ensures(*arith, (op, a, b), chosen);
        assert(call_ensures(*arith, (op, a, b), chosen));
    }
}

/// A closure that accepts every token and returns nothing but what the
/// function `read` gives for the token's characters is ready for use.
pub proof fn lemma_reader_ready<N: Fn(&str) -> Option<u64>>(number: &N, read: Reader)
    requires
        forall|s: &str| #[trigger] call_requires(*number, (s,)),
        forall|s: &str, r: Option<u64>| #[trigger]
            call_ensures(*number, (s,), r) ==> r == read(s@),
    ensures
        reader_ready(number),
{
    assert forall|s: &str, r: Option<u64>| #[trigger]
        call_ensures(*number, (s,), r) implies r == reader_of(number)(s@) by {
        assert(may_read(number, s@, r));
        let chosen = choose|chosen: Option<u64>| may_read(number, s@, chosen);
        assert(may_read(number, s@, chosen));
    }
}

/// A closure that accepts every number and returns nothing but the
/// characters that the function `write` gives is ready for use.
pub proof fn lemma_writer_ready<W: Fn(u64) -> String>(show: &W, write: Writer)
    requires
        forall|bits: u64| #[trigger] call_requires(*show, (bits,)),
        forall|bits: u64, s: String| #[trigger]
            call_ensures(*show, (bits,), s) ==> s@ == write(bits),
    ensures
        writer_ready(show),
{
    assert forall|bits: u64, s: String| #[trigger]
        call_ensures(*show, (bits,), s) implies s@ == writer_of(show)(bits) by {
        assert(may_write(show, bits, s@));
        let chosen = choose|chosen: Seq<char>| may_write(show, bits, chosen);
        assert(may_write(show, bits, chosen));
    }
}

} // verus!
