//! Splitting input text into tokens.

use vstd::prelude::*;
use vstd::std_specs::iter::IteratorSpec;

verus! {

/// `String::push` appends one character to the end of the string.
pub assume_specification[ String::push ](s: &mut String, c: char)
    ensures
        final(s)@ == old(s)@.push(c),
;

/// The ASCII whitespace characters: space, tab, line feed, form feed and
/// carriage return.
pub open spec fn is_space(c: char) -> bool {
    c == ' ' || c == '\t' || c == '\n' || c == '\x0C' || c == '\r'
}

/// An opening or closing parenthesis.
pub open spec fn is_paren(c: char) -> bool {
    c == '(' || c == ')'
}

/// `text` with a space put before and after every parenthesis.
pub open spec fn pad_parens(text: Seq<char>) -> Seq<char>
    decreases text.len(),
{
    if text.len() == 0 {
        Seq::empty()
    } else if is_paren(text[0]) {
        seq![' ', text[0], ' '] + pad_parens(text.drop_first())
    } else {
        seq![text[0]] + pad_parens(text.drop_first())
    }
}

/// The fragment collected so far, as a token if it is not empty.
pub open spec fn flush(pending: Seq<char>) -> Seq<Seq<char>> {
    if pending.len() == 0 {
        Seq::empty()
    } else {
        seq![pending]
    }
}

/// The non-empty fragments between ASCII whitespace in `pending + text`,
/// where `pending` is a fragment that has already begun.
pub open spec fn split_whitespace(text: Seq<char>, pending: Seq<char>) -> Seq<Seq<char>>
    decreases text.len(),
{
    if text.len() == 0 {
        flush(pending)
    } else if is_space(text[0]) {
        flush(pending) + split_whitespace(text.drop_first(), Seq::empty())
    } else {
        split_whitespace(text.drop_first(), pending.push(text[0]))
    }
}

/// The tokens of `text`: every parenthesis is padded with whitespace, then the
/// text is split on ASCII whitespace and empty fragments are dropped.
pub open spec fn tokens_of(text: Seq<char>) -> Seq<Seq<char>> {
    split_whitespace(pad_parens(text), Seq::empty())
}

/// The character sequences of a list of strings.
pub open spec fn texts(tokens: Seq<String>) -> Seq<Seq<char>> {
    Seq::new(tokens.len(), |i: int| tokens[i]@)
}

/// Whether two texts hold the same characters.
pub fn same_text(a: &str, b: &str) -> (same: bool)
    ensures
        same == (a@ == b@),
{
    broadcast use vstd::string::group_string_axioms;
    let mut left = a.chars();
    let mut right = b.chars();
    let ghost mut seen: int = 0;
    assert(a@.skip(0) =~= a@);
    assert(b@.skip(0) =~= b@);
    loop
        invariant
            0 <= seen <= a@.len(),
            seen <= b@.len(),
            left.remaining() == a@.skip(seen),
            right.remaining() == b@.skip(seen),
            a@.take(seen) =~= b@.take(seen),
        decreases a@.len() - seen,
    {
        match left.next() {
            None => {
                let other = right.next();
                assert(a@.take(seen) =~= a@);
                assert(other is None ==> b@.take(seen) =~= b@);
                return other.is_none();
            },
            Some(x) => {
                assert(x == a@[seen]);
                match right.next() {
                    None => {
                        return false;
                    },
                    Some(y) => {
                        assert(y == b@[seen]);
                        if x != y {
                            return false;
                        }
                        assert(a@.skip(seen).drop_first() =~= a@.skip(seen + 1));
                        assert(b@.skip(seen).drop_first() =~= b@.skip(seen + 1));
                        assert(a@.take(seen + 1) =~= a@.take(seen).push(x));
                        assert(b@.take(seen + 1) =~= b@.take(seen).push(y));
                    },
                }
            },
        }
        proof {
            seen = seen + 1;
        }
    }
}

fn char_is_space(c: char) -> (r: bool)
    ensures
        r == is_space(c),
{
    c == ' ' || c == '\t' || c == '\n' || c == '\x0C' || c == '\r'
}

/// Moves the fragment in `current`, if it is not empty, to the end of `tokens`.
fn flush_into(tokens: &mut Vec<String>, current: &mut String)
    ensures
        texts(final(tokens)@) == texts(old(tokens)@) + flush(old(current)@),
        final(current)@ == Seq::<char>::empty(),
{
    if !current.as_str().is_empty() {
        let mut done = String::new();
        core::mem::swap(current, &mut done);
        tokens.push(done);
        assert(texts(tokens@) =~= texts(old(tokens)@) + flush(old(current)@));
    } else {
        assert(texts(tokens@) =~= texts(old(tokens)@) + flush(old(current)@));
        assert(current@ =~= Seq::<char>::empty());
    }
}

/// Splits `text` into its tokens. Every text has a token sequence, possibly
/// an empty one.
pub fn tokenize(text: &str) -> (tokens: Vec<String>)
    ensures
        texts(tokens@) == tokens_of(text@),
{
    broadcast use vstd::string::group_string_axioms;
    let mut tokens: Vec<String> = Vec::new();
    let mut current = String::new();
    let mut rest = text.chars();
    let ghost mut seen: int = 0;
    assert(texts(tokens@) =~= Seq::<Seq<char>>::empty());
    assert(text@.skip(0) =~= text@);
    loop
        invariant
            0 <= seen <= text@.len(),
            rest.remaining() == text@.skip(seen),
            texts(tokens@) + split_whitespace(pad_parens(text@.skip(seen)), current@)
                == tokens_of(text@),
        ensures
            texts(tokens@) == tokens_of(text@),
        decreases text@.len() - seen,
    {
        let ghost before = text@.skip(seen);
        let ghost padded = pad_parens(before);
        match rest.next() {
            None => {
                assert(before.len() == 0);
                flush_into(&mut tokens, &mut current);
                break;
            },
            Some(c) => {
                assert(before.len() > 0 && c == before[0]);
                assert(before.drop_first() =~= text@.skip(seen + 1));
                let ghost after = pad_parens(text@.skip(seen + 1));
                if char_is_space(c) {
                    assert(padded =~= seq![c] + after);
                    assert(padded.drop_first() =~= after);
                    flush_into(&mut tokens, &mut current);
                } else if c == '(' || c == ')' {
                    assert(padded =~= seq![' ', c, ' '] + after);
                    let ghost p1 = padded.drop_first();
                    let ghost p2 = p1.drop_first();
                    assert(p1 =~= seq![c, ' '] + after);
                    assert(p2 =~= seq![' '] + after);
                    assert(p2.drop_first() =~= after);
                    assert(Seq::<char>::empty().push(c) =~= seq![c]);
                    assert(split_whitespace(p1, Seq::empty()) == split_whitespace(p2, seq![c]));
                    assert(split_whitespace(p2, seq![c]) == flush(seq![c]) + split_whitespace(
                        after,
                        Seq::empty(),
                    ));
                    flush_into(&mut tokens, &mut current);
                    let ghost flushed = tokens@;
                    let mut paren = String::new();
                    paren.push(c);
                    assert(paren@ =~= seq![c]);
                    tokens.push(paren);
                    assert(texts(tokens@) =~= texts(flushed) + seq![seq![c]]);
                } else {
                    assert(padded =~= seq![c] + after);
                    assert(padded.drop_first() =~= after);
                    current.push(c);
                }
                proof {
                    seen = seen + 1;
                }
            },
        }
    }
    tokens
}

} // verus!
