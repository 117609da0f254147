//! Parsing the text of a parsed expression gives the expression back.

use crate::expression::Form;
use crate::numeric::{Reader, Writer};
use crate::parser::{
    atom_form, close_token, lemma_items_advance, lemma_parse_advances, open_token, parse_at,
    parse_items, parse_text, ParseError,
};
use crate::render::{render, render_from};
use crate::token::{flush, is_paren, is_space, pad_parens, split_whitespace, tokens_of};
use vstd::prelude::*;

verus! {

/// No character is whitespace or a parenthesis.
pub open spec fn is_plain(text: Seq<char>) -> bool {
    forall|i: int| 0 <= i < text.len() ==> !is_space(#[trigger] text[i]) && !is_paren(text[i])
}

/// A token that is neither parenthesis: it is not empty and holds no
/// whitespace and no parenthesis.
pub open spec fn is_atom(token: Seq<char>) -> bool {
    token.len() > 0 && is_plain(token)
}

/// What the tokenizer gives: a parenthesis or an atom.
pub open spec fn is_lexical(token: Seq<char>) -> bool {
    token == open_token() || token == close_token() || is_atom(token)
}

/// Every number that `read` gives is written by `show` as one atom, which
/// `read` reads as that number again.
pub open spec fn numerals_round_trip(read: Reader, show: Writer) -> bool {
    forall|token: Seq<char>|
        (#[trigger] read(token)) matches Some(bits) ==> is_atom(show(bits)) && read(show(bits))
            == Some(bits)
}

/// An expression whose text names it: its numbers are written as atoms that
/// read back, its symbols are atoms that do not read as numbers, and it
/// holds no procedure.
pub open spec fn is_printable(read: Reader, show: Writer, form: Form) -> bool
    decreases form,
{
    match form {
        Form::Number(bits) => is_atom(show(bits)) && read(show(bits)) == Some(bits),
        Form::Symbol(name) => is_atom(name) && read(name) is None,
        Form::List(items) => forall|i: int|
            0 <= i < items.len() ==> is_printable(read, show, #[trigger] items[i]),
        Form::Procedure(_, _) => false,
    }
}

/// The tokens that spell an expression.
pub open spec fn flatten(show: Writer, form: Form) -> Seq<Seq<char>>
    decreases form, 0nat,
{
    match form {
        Form::Number(bits) => seq![show(bits)],
        Form::Symbol(name) => seq![name],
        Form::List(items) => seq![open_token()] + flatten_from(show, items, 0) + seq![
            close_token(),
        ],
        Form::Procedure(_, _) => Seq::empty(),
    }
}

/// The tokens that spell `items[from..]`.
pub open spec fn flatten_from(show: Writer, items: Seq<Form>, from: nat) -> Seq<Seq<char>>
    decreases items, items.len() - from,
{
    if from >= items.len() {
        Seq::empty()
    } else {
        flatten(show, items[from as int]) + flatten_from(show, items, from + 1)
    }
}

proof fn lemma_pad_concat(a: Seq<char>, b: Seq<char>)
    ensures
        pad_parens(a + b) == pad_parens(a) + pad_parens(b),
    decreases a.len(),
{
    if a.len() == 0 {
        assert(a + b =~= b);
        assert(pad_parens(a) + pad_parens(b) =~= pad_parens(b));
    } else {
        assert((a + b)[0] == a[0]);
        assert((a + b).drop_first() =~= a.drop_first() + b);
        lemma_pad_concat(a.drop_first(), b);
        if is_paren(a[0]) {
            assert(pad_parens(a + b) =~= pad_parens(a) + pad_parens(b));
        } else {
            assert(pad_parens(a + b) =~= pad_parens(a) + pad_parens(b));
        }
    }
}

proof fn lemma_pad_one(c: char)
    ensures
        pad_parens(seq![c]) == if is_paren(c) {
            seq![' ', c, ' ']
        } else {
            seq![c]
        },
{
    reveal_with_fuel(pad_parens, 2);
    assert(seq![c].drop_first() =~= Seq::<char>::empty());
    assert(pad_parens(seq![c]) =~= if is_paren(c) {
        seq![' ', c, ' ']
    } else {
        seq![c]
    });
}

proof fn lemma_pad_plain(text: Seq<char>)
    requires
        is_plain(text),
    ensures
        pad_parens(text) == text,
    decreases text.len(),
{
    if text.len() > 0 {
        assert(!is_paren(text[0]));
        lemma_pad_plain(text.drop_first());
        assert(pad_parens(text) =~= text);
    } else {
        assert(pad_parens(text) =~= text);
    }
}

proof fn lemma_split_plain(text: Seq<char>, rest: Seq<char>, pending: Seq<char>)
    requires
        is_plain(text),
    ensures
        split_whitespace(text + rest, pending) == split_whitespace(rest, pending + text),
    decreases text.len(),
{
    if text.len() == 0 {
        assert(text + rest =~= rest);
        assert(pending + text =~= pending);
    } else {
        assert((text + rest)[0] == text[0]);
        assert(!is_space(text[0]));
        assert((text + rest).drop_first() =~= text.drop_first() + rest);
        lemma_split_plain(text.drop_first(), rest, pending.push(text[0]));
        assert(pending.push(text[0]) + text.drop_first() =~= pending + text);
    }
}

proof fn lemma_split_space(c: char, rest: Seq<char>, pending: Seq<char>)
    requires
        is_space(c),
    ensures
        split_whitespace(seq![c] + rest, pending) == flush(pending) + split_whitespace(
            rest,
            Seq::empty(),
        ),
{
    assert((seq![c] + rest)[0] == c);
    assert((seq![c] + rest).drop_first() =~= rest);
}

proof fn lemma_split_paren(c: char, rest: Seq<char>, pending: Seq<char>)
    requires
        is_paren(c),
    ensures
        split_whitespace(seq![' ', c, ' '] + rest, pending) == flush(pending) + seq![seq![c]]
            + split_whitespace(rest, Seq::empty()),
{
    let all = seq![' ', c, ' '] + rest;
    let one = seq![c, ' '] + rest;
    let two = seq![' '] + rest;
    assert(all =~= seq![' '] + one);
    lemma_split_space(' ', one, pending);
    assert(one[0] == c);
    assert(one.drop_first() =~= two);
    assert(Seq::<char>::empty().push(c) =~= seq![c]);
    assert(split_whitespace(one, Seq::empty()) == split_whitespace(two, seq![c]));
    lemma_split_space(' ', rest, seq![c]);
    assert(flush(pending) + (flush(seq![c]) + split_whitespace(rest, Seq::empty())) =~= flush(
        pending,
    ) + seq![seq![c]] + split_whitespace(rest, Seq::empty()));
}

/// Every token is a parenthesis or an atom.
pub proof fn lemma_tokens_are_lexical(text: Seq<char>, pending: Seq<char>)
    requires
        is_plain(pending),
    ensures
        forall|i: int|
            0 <= i < split_whitespace(pad_parens(text), pending).len() ==> is_lexical(
                #[trigger] split_whitespace(pad_parens(text), pending)[i],
            ),
    decreases text.len(),
{
    let tokens = split_whitespace(pad_parens(text), pending);
    if text.len() == 0 {
        assert(tokens == flush(pending));
        assert forall|i: int| 0 <= i < tokens.len() implies is_lexical(#[trigger] tokens[i]) by {
            assert(tokens[i] == pending);
        }
    } else {
        let c = text[0];
        let rest = text.drop_first();
        let later = split_whitespace(pad_parens(rest), Seq::empty());
        let first = flush(pending);
        if is_paren(c) {
            lemma_split_paren(c, pad_parens(rest), pending);
            lemma_tokens_are_lexical(rest, Seq::empty());
            assert(tokens == first + seq![seq![c]] + later);
            assert(seq![c] =~= open_token() || seq![c] =~= close_token());
            assert forall|i: int| 0 <= i < tokens.len() implies is_lexical(#[trigger] tokens[i]) by {
                if i < first.len() {
                    assert(tokens[i] == pending);
                } else if i == first.len() {
                    assert(tokens[i] == seq![c]);
                } else {
                    assert(tokens[i] == later[i - first.len() - 1]);
                }
            }
        } else if is_space(c) {
            lemma_split_space(c, pad_parens(rest), pending);
            lemma_tokens_are_lexical(rest, Seq::empty());
            assert(pad_parens(text) =~= seq![c] + pad_parens(rest));
            assert(tokens == first + later);
            assert forall|i: int| 0 <= i < tokens.len() implies is_lexical(#[trigger] tokens[i]) by {
                if i < first.len() {
                    assert(tokens[i] == pending);
                } else {
                    assert(tokens[i] == later[i - first.len()]);
                }
            }
        } else {
            assert(pad_parens(text)[0] == c);
            assert(pad_parens(text).drop_first() =~= pad_parens(rest));
            lemma_tokens_are_lexical(rest, pending.push(c));
            assert(tokens == split_whitespace(pad_parens(rest), pending.push(c)));
        }
    }
}

proof fn lemma_flatten_begins(read: Reader, show: Writer, form: Form)
    requires
        is_printable(read, show, form),
    ensures
        flatten(show, form).len() >= 1,
        flatten(show, form)[0] != close_token(),
{
    match form {
        Form::Number(bits) => {
            assert(show(bits)[0] != ')');
        },
        Form::Symbol(name) => {
            assert(name[0] != ')');
        },
        Form::List(items) => {
            assert(open_token()[0] != close_token()[0]);
        },
        Form::Procedure(_, _) => {},
    }
}

/// The tokens of an expression's text spell the expression.
proof fn lemma_split_render(read: Reader, show: Writer, form: Form, rest: Seq<char>)
    requires
        is_printable(read, show, form),
        rest.len() == 0 || is_space(rest[0]),
    ensures
        split_whitespace(pad_parens(render(show, form)) + rest, Seq::empty()) == flatten(
            show,
            form,
        ) + split_whitespace(rest, Seq::empty()),
    decreases form, 0nat,
{
    let nothing = Seq::<char>::empty();
    match form {
        Form::List(items) => {
            let inner = render_from(show, items, 0);
            let closing = seq![' ', ')', ' '] + rest;
            lemma_pad_concat(seq!['('] + inner, seq![')']);
            lemma_pad_concat(seq!['('], inner);
            lemma_pad_one('(');
            lemma_pad_one(')');
            assert(pad_parens(render(show, form)) + rest =~= seq![' ', '(', ' '] + (pad_parens(
                inner,
            ) + closing));
            lemma_split_paren('(', pad_parens(inner) + closing, nothing);
            lemma_split_render_from(read, show, items, 0, closing);
            lemma_split_paren(')', rest, nothing);
            assert(flatten(show, form) + split_whitespace(rest, nothing) =~= seq![open_token()] + (
            flatten_from(show, items, 0) + (seq![close_token()] + split_whitespace(rest, nothing))));
        },
        Form::Procedure(_, _) => {},
        _ => {
            let text = render(show, form);
            assert(is_atom(text));
            lemma_pad_plain(text);
            lemma_split_plain(text, rest, nothing);
            assert(nothing + text =~= text);
            if rest.len() > 0 {
                assert(rest =~= seq![rest[0]] + rest.drop_first());
                lemma_split_space(rest[0], rest.drop_first(), text);
                lemma_split_space(rest[0], rest.drop_first(), nothing);
            }
        },
    }
}

proof fn lemma_split_render_from(
    read: Reader,
    show: Writer,
    items: Seq<Form>,
    from: nat,
    rest: Seq<char>,
)
    requires
        forall|i: int| 0 <= i < items.len() ==> is_printable(read, show, #[trigger] items[i]),
        rest.len() == 0 || is_space(rest[0]),
    ensures
        split_whitespace(pad_parens(render_from(show, items, from)) + rest, Seq::empty())
            == flatten_from(show, items, from) + split_whitespace(rest, Seq::empty()),
    decreases items, items.len() - from,
{
    let nothing = Seq::<char>::empty();
    if from >= items.len() {
        assert(pad_parens(nothing) + rest =~= rest);
    } else if from + 1 == items.len() {
        lemma_split_render(read, show, items[from as int], rest);
        assert(flatten_from(show, items, from + 1) =~= Seq::<Seq<char>>::empty());
        assert(flatten_from(show, items, from) =~= flatten(show, items[from as int]));
    } else {
        let first = render(show, items[from as int]);
        let others = render_from(show, items, from + 1);
        let after = seq![' '] + (pad_parens(others) + rest);
        lemma_pad_concat(first + seq![' '], others);
        lemma_pad_concat(first, seq![' ']);
        lemma_pad_one(' ');
        assert(pad_parens(render_from(show, items, from)) + rest =~= pad_parens(first) + after);
        lemma_split_render(read, show, items[from as int], after);
        lemma_split_space(' ', pad_parens(others) + rest, nothing);
        lemma_split_render_from(read, show, items, from + 1, rest);
        assert(flatten_from(show, items, from) + split_whitespace(rest, nothing) =~= flatten(
            show,
            items[from as int],
        ) + (flatten_from(show, items, from + 1) + split_whitespace(rest, nothing)));
    }
}

/// The tokens that spell an expression parse to it.
proof fn lemma_parse_flatten(
    read: Reader,
    show: Writer,
    form: Form,
    tokens: Seq<Seq<char>>,
    pos: nat,
)
    requires
        is_printable(read, show, form),
        pos + flatten(show, form).len() <= tokens.len(),
        tokens.subrange(pos as int, (pos + flatten(show, form).len()) as int) == flatten(
            show,
            form,
        ),
    ensures
        parse_at(read, tokens, pos).0 == Ok::<Form, ParseError>(form),
        parse_at(read, tokens, pos).1 == pos + flatten(show, form).len(),
    decreases form, 0nat,
{
    let spelled = flatten(show, form);
    lemma_flatten_begins(read, show, form);
    assert(tokens[pos as int] == spelled[0]);
    match form {
        Form::List(items) => {
            let inner = flatten_from(show, items, 0) + seq![close_token()];
            assert(spelled =~= seq![open_token()] + inner);
            assert(tokens.subrange(pos + 1 as int, pos + 1 + inner.len() as int) =~= inner) by {
                assert forall|i: int| 0 <= i < inner.len() implies tokens[pos + 1 + i]
                    == inner[i] by {
                    assert(tokens[pos + 1 + i] == spelled[1 + i]);
                }
            }
            assert(items.take(0) =~= Seq::<Form>::empty());
            lemma_parse_flatten_from(read, show, items, 0, tokens, pos + 1);
        },
        Form::Procedure(_, _) => {},
        _ => {
            let token = tokens[pos as int];
            assert(is_atom(token));
            assert(token[0] != '(' && token[0] != ')');
            assert(open_token()[0] == '(' && close_token()[0] == ')');
        },
    }
}

proof fn lemma_parse_flatten_from(
    read: Reader,
    show: Writer,
    items: Seq<Form>,
    from: nat,
    tokens: Seq<Seq<char>>,
    pos: nat,
)
    requires
        forall|i: int| 0 <= i < items.len() ==> is_printable(read, show, #[trigger] items[i]),
        from <= items.len(),
        pos + flatten_from(show, items, from).len() + 1 <= tokens.len(),
        tokens.subrange(pos as int, (pos + flatten_from(show, items, from).len() + 1) as int)
            == flatten_from(show, items, from) + seq![close_token()],
    ensures
        parse_items(read, tokens, pos, items.take(from as int)).0 == Ok::<Seq<Form>, ParseError>(
            items,
        ),
        parse_items(read, tokens, pos, items.take(from as int)).1 == pos + flatten_from(
            show,
            items,
            from,
        ).len() + 1,
    decreases items, items.len() - from,
{
    let spelled = flatten_from(show, items, from) + seq![close_token()];
    assert(tokens[pos as int] == spelled[0]);
    if from >= items.len() {
        assert(items.take(from as int) =~= items);
    } else {
        let item = items[from as int];
        let first = flatten(show, item);
        let others = flatten_from(show, items, from + 1) + seq![close_token()];
        lemma_flatten_begins(read, show, item);
        assert(spelled =~= first + others);
        assert(spelled[0] == first[0]);
        assert(tokens.subrange(pos as int, (pos + first.len()) as int) =~= first) by {
            assert forall|i: int| 0 <= i < first.len() implies tokens[pos + i] == first[i] by {
                assert(tokens[pos + i] == spelled[i]);
            }
        }
        lemma_parse_flatten(read, show, item, tokens, pos);
        let next = pos + first.len();
        assert(tokens.subrange(next as int, (next + others.len()) as int) =~= others) by {
            assert forall|i: int| 0 <= i < others.len() implies tokens[next + i] == others[i] by {
                assert(tokens[next + i] == spelled[first.len() + i]);
            }
        }
        assert(items.take(from as int).push(item) =~= items.take((from + 1) as int));
        lemma_parse_flatten_from(read, show, items, from + 1, tokens, next as nat);
    }
}

/// What parses from lexical tokens is printable.
proof fn lemma_parsed_is_printable(read: Reader, show: Writer, tokens: Seq<Seq<char>>, pos: nat)
    requires
        numerals_round_trip(read, show),
        forall|i: int| 0 <= i < tokens.len() ==> is_lexical(#[trigger] tokens[i]),
        pos <= tokens.len(),
    ensures
        parse_at(read, tokens, pos).0 matches Ok(form) ==> is_printable(read, show, form),
    decreases tokens.len() - pos, 0nat,
{
    if pos < tokens.len() {
        let token = tokens[pos as int];
        if token == open_token() {
            lemma_parsed_items_are_printable(read, show, tokens, pos + 1, Seq::empty());
        } else if token != close_token() {
            assert(is_lexical(token));
            assert(is_atom(token));
            assert(atom_form(read, token) == parse_at(read, tokens, pos).0->Ok_0);
        }
    }
}

proof fn lemma_parsed_items_are_printable(
    read: Reader,
    show: Writer,
    tokens: Seq<Seq<char>>,
    pos: nat,
    items: Seq<Form>,
)
    requires
        numerals_round_trip(read, show),
        forall|i: int| 0 <= i < tokens.len() ==> is_lexical(#[trigger] tokens[i]),
        forall|i: int| 0 <= i < items.len() ==> is_printable(read, show, #[trigger] items[i]),
        pos <= tokens.len(),
    ensures
        parse_items(read, tokens, pos, items).0 matches Ok(all) ==> forall|i: int|
            0 <= i < all.len() ==> is_printable(read, show, #[trigger] all[i]),
    decreases tokens.len() - pos, 1nat,
{
    if pos < tokens.len() && tokens[pos as int] != close_token() {
        lemma_parse_advances(read, tokens, pos);
        lemma_parsed_is_printable(read, show, tokens, pos);
        let (item, next) = parse_at(read, tokens, pos);
        if item is Ok {
            lemma_parsed_items_are_printable(read, show, tokens, next, items.push(item->Ok_0));
        }
    }
}

/// Printing and parsing are inverse on what parses: where `text` parses to
/// an expression, the text of that expression parses to it again. The
/// numbers must survive being written and read, which holds of every number
/// that was read from a token if `numerals_round_trip` does.
pub proof fn lemma_round_trip(read: Reader, show: Writer, text: Seq<char>)
    requires
        numerals_round_trip(read, show),
        parse_text(read, text) is Ok,
    ensures
        parse_text(read, render(show, parse_text(read, text)->Ok_0)) == parse_text(read, text),
{
    let nothing = Seq::<char>::empty();
    let form = parse_text(read, text)->Ok_0;
    lemma_tokens_are_lexical(text, nothing);
    lemma_parsed_is_printable(read, show, tokens_of(text), 0);
    lemma_split_render(read, show, form, nothing);
    let printed = render(show, form);
    assert(pad_parens(printed) + nothing =~= pad_parens(printed));
    assert(flatten(show, form) + split_whitespace(nothing, nothing) =~= flatten(show, form));
    let tokens = tokens_of(printed);
    assert(tokens == flatten(show, form));
    assert(tokens.subrange(0, tokens.len() as int) =~= tokens);
    lemma_parse_flatten(read, show, form, tokens, 0);
}

} // verus!
