//! Building an expression tree from tokens, by recursive descent.

use crate::expression::{forms, Expression, Form};
use crate::numeric::{reader_of, reader_ready, Reader};
use crate::token::{same_text, texts, tokenize, tokens_of};
use vstd::prelude::*;

verus! {

/// Why a token sequence is no expression.
#[derive(Debug, Clone, Copy, PartialEq, Eq, Structural)]
pub enum ParseError {
    /// The tokens ended where an expression, or the end of a list, was due.
    UnexpectedEof,
    /// A closing parenthesis stands where an expression was due.
    UnexpectedCloseParen,
}

/// The token that opens a list.
pub open spec fn open_token() -> Seq<char> {
    seq!['(']
}

/// The token that closes a list.
pub open spec fn close_token() -> Seq<char> {
    seq![')']
}

/// The expression that an atom stands for: a number where the token reads as
/// one, else a symbol of that name.
pub open spec fn atom_form(read: Reader, token: Seq<char>) -> Form {
    match read(token) {
        Some(bits) => Form::Number(bits),
        None => Form::Symbol(token),
    }
}

/// The expression that begins at `tokens[pos]`, and the position after the
/// tokens that were consumed. A failure consumes the tokens up to and
/// including the one that it failed on.
pub open spec fn parse_at(read: Reader, tokens: Seq<Seq<char>>, pos: nat) -> (
    Result<Form, ParseError>,
    nat,
)
    decreases tokens.len() - pos, 0nat,
{
    if pos >= tokens.len() {
        (Err(ParseError::UnexpectedEof), pos)
    } else if tokens[pos as int] == open_token() {
        let (items, next) = parse_items(read, tokens, pos + 1, Seq::empty());
        match items {
            Ok(items) => (Ok(Form::List(items)), next),
            Err(error) => (Err(error), next),
        }
    } else if tokens[pos as int] == close_token() {
        (Err(ParseError::UnexpectedCloseParen), pos + 1)
    } else {
        (Ok(atom_form(read, tokens[pos as int])), pos + 1)
    }
}

/// The elements of a list whose earlier elements are `items`, up to the
/// closing parenthesis, which is consumed too.
pub open spec fn parse_items(read: Reader, tokens: Seq<Seq<char>>, pos: nat, items: Seq<Form>) -> (
    Result<Seq<Form>, ParseError>,
    nat,
)
    decreases tokens.len() - pos, 1nat,
{
    if pos >= tokens.len() {
        (Err(ParseError::UnexpectedEof), pos)
    } else if tokens[pos as int] == close_token() {
        (Ok(items), pos + 1)
    } else {
        let (item, next) = parse_at(read, tokens, pos);
        match item {
            Ok(item) => if pos < next <= tokens.len() {
                parse_items(read, tokens, next, items.push(item))
            } else {
                (Err(ParseError::UnexpectedEof), next)
            },
            Err(error) => (Err(error), next),
        }
    }
}

/// The first expression of `text`, read from its tokens. Tokens after it are
/// not looked at.
pub open spec fn parse_text(read: Reader, text: Seq<char>) -> Result<Form, ParseError> {
    parse_at(read, tokens_of(text), 0).0
}

/// Parsing consumes at least one token and never more than there are.
pub proof fn lemma_parse_advances(read: Reader, tokens: Seq<Seq<char>>, pos: nat)
    requires
        pos <= tokens.len(),
    ensures
        pos <= parse_at(read, tokens, pos).1 <= tokens.len(),
        parse_at(read, tokens, pos).0 is Ok ==> pos < parse_at(read, tokens, pos).1,
    decreases tokens.len() - pos, 0nat,
{
    if pos < tokens.len() && tokens[pos as int] == open_token() {
        lemma_items_advance(read, tokens, pos + 1, Seq::empty());
    }
}

/// Parsing the rest of a list never consumes more tokens than there are.
pub proof fn lemma_items_advance(
    read: Reader,
    tokens: Seq<Seq<char>>,
    pos: nat,
    items: Seq<Form>,
)
    requires
        pos <= tokens.len(),
    ensures
        pos <= parse_items(read, tokens, pos, items).1 <= tokens.len(),
        parse_items(read, tokens, pos, items).0 is Ok ==> pos < parse_items(
            read,
            tokens,
            pos,
            items,
        ).1,
    decreases tokens.len() - pos, 1nat,
{
    if pos < tokens.len() && tokens[pos as int] != close_token() {
        lemma_parse_advances(read, tokens, pos);
        let (item, next) = parse_at(read, tokens, pos);
        if item is Ok {
            lemma_items_advance(read, tokens, next, items.push(item->Ok_0));
        }
    }
}

/// The model of a parse result.
pub open spec fn parsed_form(parsed: Result<Expression, ParseError>) -> Result<Form, ParseError> {
    match parsed {
        Ok(expression) => Ok(expression@),
        Err(error) => Err(error),
    }
}

fn is_open(token: &str) -> (open: bool)
    ensures
        open == (token@ == open_token()),
{
    proof {
        reveal_strlit("(");
        assert("("@ =~= open_token());
    }
    same_text(token, "(")
}

fn is_close(token: &str) -> (close: bool)
    ensures
        close == (token@ == close_token()),
{
    proof {
        reveal_strlit(")");
        assert(")"@ =~= close_token());
    }
    same_text(token, ")")
}

/// Parses the expression that begins at `tokens[pos]`.
fn parse_from<N: Fn(&str) -> Option<u64>>(tokens: &Vec<String>, pos: usize, number: &N) -> (parsed:
    (Result<Expression, ParseError>, usize))
    requires
        reader_ready(number),
        pos <= tokens.len(),
    ensures
        parsed_form(parsed.0) == parse_at(reader_of(number), texts(tokens@), pos as nat).0,
        parsed.1 == parse_at(reader_of(number), texts(tokens@), pos as nat).1,
        pos <= parsed.1 <= tokens.len(),
    decreases tokens.len() - pos,
{
    let ghost read = reader_of(number);
    let ghost all = texts(tokens@);
    proof {
        lemma_parse_advances(read, all, pos as nat);
    }
    if pos >= tokens.len() {
        return (Err(ParseError::UnexpectedEof), pos);
    }
    let token = tokens[pos].as_str();
    assert(all[pos as int] == token@);
    if is_open(token) {
        let mut items: Vec<Expression> = Vec::new();
        let mut at: usize = pos + 1;
        assert(forms(items) =~= Seq::<Form>::empty());
        loop
            invariant
                reader_ready(number),
                read == reader_of(number),
                all == texts(tokens@),
                pos < at <= tokens.len(),
                all[pos as int] == open_token(),
                parse_items(read, all, at as nat, forms(items)) == parse_items(
                    read,
                    all,
                    (pos + 1) as nat,
                    Seq::empty(),
                ),
            decreases tokens.len() - at,
        {
            if at >= tokens.len() {
                return (Err(ParseError::UnexpectedEof), at);
            }
            assert(all[at as int] == tokens[at as int]@);
            if is_close(tokens[at].as_str()) {
                return (Ok(Expression::list(items)), at + 1);
            }
            proof {
                lemma_parse_advances(read, all, at as nat);
            }
            let (item, next) = parse_from(tokens, at, number);
            match item {
                Ok(item) => {
                    let ghost before = forms(items);
                    items.push(item);
                    assert(forms(items) =~= before.push(item@));
                    at = next;
                },
                Err(error) => {
                    return (Err(error), next);
                },
            }
        }
    } else if is_close(token) {
        (Err(ParseError::UnexpectedCloseParen), pos + 1)
    } else {
        (Ok(Expression::atom(token, number(token))), pos + 1)
    }
}

impl Expression {
    /// The expression that the atom `token` stands for, given what reading it
    /// as a number gave: that number, or else a symbol named by the token.
    pub fn atom(token: &str, reading: Option<u64>) -> (atom: Expression)
        ensures
            atom@ == match reading {
                Some(bits) => Form::Number(bits),
                None => Form::Symbol(token@),
            },
    {
        match reading {
            Some(bits) => Expression::Number(bits),
            None => Expression::symbol(token),
        }
    }

    /// Parses one expression from the front of `tokens` and removes the
    /// tokens that it consumed. `number` reads a token as a number, or tells
    /// that it is none.
    pub fn parse<N: Fn(&str) -> Option<u64>>(tokens: &mut Vec<String>, number: &N) -> (parsed:
        Result<Expression, ParseError>)
        requires
            reader_ready(number),
        ensures
            parsed_form(parsed) == parse_at(reader_of(number), texts(old(tokens)@), 0).0,
            texts(final(tokens)@) == texts(old(tokens)@).skip(
                parse_at(reader_of(number), texts(old(tokens)@), 0).1 as int,
            ),
    {
        let (parsed, next) = parse_from(tokens, 0, number);
        let rest = tokens.split_off(next);
        *tokens = rest;
        assert(texts(tokens@) =~= texts(old(tokens)@).skip(next as int));
        parsed
    }
}

/// Parses the first expression of `text`. Tokens after it are not looked at.
pub fn parse<N: Fn(&str) -> Option<u64>>(text: &str, number: &N) -> (parsed: Result<
    Expression,
    ParseError,
>)
    requires
        reader_ready(number),
    ensures
        parsed_form(parsed) == parse_text(reader_of(number), text@),
{
    let tokens = tokenize(text);
    parse_from(&tokens, 0, number).0
}

} // verus!
