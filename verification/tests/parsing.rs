use hyoka::expression::Expression;
use hyoka::parser::{parse, ParseError};
use hyoka::token::tokenize;
use std::rc::Rc;

fn number(token: &str) -> Option<u64> {
    token.parse::<f64>().ok().map(f64::to_bits)
}

fn num(value: f64) -> Expression {
    Expression::Number(value.to_bits())
}

fn sym(name: &str) -> Expression {
    Expression::Symbol(name.to_string())
}

fn list(items: Vec<Expression>) -> Expression {
    Expression::List(Rc::new(items))
}

fn strings(tokens: &[&str]) -> Vec<String> {
    tokens.iter().map(|t| t.to_string()).collect()
}

#[test]
fn atoms_are_numbers_or_symbols() {
    assert_eq!(parse("42", &number), Ok(num(42.0)));
    assert_eq!(parse("-1.5e3", &number), Ok(num(-1500.0)));
    assert_eq!(parse(".5", &number), Ok(num(0.5)));
    assert_eq!(parse("x", &number), Ok(sym("x")));
    assert_eq!(parse("+", &number), Ok(sym("+")));
    assert_eq!(parse("1x", &number), Ok(sym("1x")));
    assert_eq!(parse("square-ish", &number), Ok(sym("square-ish")));
}

#[test]
fn atom_follows_the_reading() {
    assert_eq!(Expression::atom("7", Some(7.0f64.to_bits())), num(7.0));
    assert_eq!(Expression::atom("seven", None), sym("seven"));
    assert_eq!(Expression::atom("seven", Some(7.0f64.to_bits())), num(7.0));
    assert_eq!(Expression::atom("7", None), sym("7"));
}

#[test]
fn the_reader_decides_what_a_number_is() {
    let only_one = |token: &str| if token == "one" { Some(1.0f64.to_bits()) } else { None };
    assert_eq!(parse("(one 1)", &only_one), Ok(list(vec![num(1.0), sym("1")])));
}

#[test]
fn lists_nest() {
    assert_eq!(parse("()", &number), Ok(list(vec![])));
    assert_eq!(
        parse("(+ 1 (* 2 x))", &number),
        Ok(list(vec![
            sym("+"),
            num(1.0),
            list(vec![sym("*"), num(2.0), sym("x")]),
        ]))
    );
    assert_eq!(parse("((()))", &number), Ok(list(vec![list(vec![list(vec![])])])));
}

#[test]
fn end_of_input_is_an_error() {
    assert_eq!(parse("", &number), Err(ParseError::UnexpectedEof));
    assert_eq!(parse("   ", &number), Err(ParseError::UnexpectedEof));
    assert_eq!(parse("(", &number), Err(ParseError::UnexpectedEof));
    assert_eq!(parse("(+ 1 2", &number), Err(ParseError::UnexpectedEof));
    assert_eq!(parse("(+ (1 2)", &number), Err(ParseError::UnexpectedEof));
}

#[test]
fn stray_close_paren_is_an_error() {
    assert_eq!(parse(")", &number), Err(ParseError::UnexpectedCloseParen));
    assert_eq!(parse(") 1", &number), Err(ParseError::UnexpectedCloseParen));
}

#[test]
fn only_the_first_expression_is_parsed() {
    assert_eq!(parse("1 2 3", &number), Ok(num(1.0)));
    assert_eq!(parse("(a) )", &number), Ok(list(vec![sym("a")])));
    assert_eq!(parse("x (", &number), Ok(sym("x")));
}

#[test]
fn parse_consumes_tokens_from_the_front() {
    let mut tokens = tokenize("(+ 1 2) (next) tail");
    assert_eq!(
        Expression::parse(&mut tokens, &number),
        Ok(list(vec![sym("+"), num(1.0), num(2.0)]))
    );
    assert_eq!(tokens, strings(&["(", "next", ")", "tail"]));
    assert_eq!(Expression::parse(&mut tokens, &number), Ok(list(vec![sym("next")])));
    assert_eq!(tokens, strings(&["tail"]));
    assert_eq!(Expression::parse(&mut tokens, &number), Ok(sym("tail")));
    assert_eq!(tokens, Vec::<String>::new());
    assert_eq!(Expression::parse(&mut tokens, &number), Err(ParseError::UnexpectedEof));
    assert_eq!(tokens, Vec::<String>::new());
}

#[test]
fn a_failed_parse_consumes_up_to_the_failure() {
    let mut tokens = tokenize(") a b");
    assert_eq!(Expression::parse(&mut tokens, &number), Err(ParseError::UnexpectedCloseParen));
    assert_eq!(tokens, strings(&["a", "b"]));
    let mut open = tokenize("(a (b");
    assert_eq!(Expression::parse(&mut open, &number), Err(ParseError::UnexpectedEof));
    assert_eq!(open, Vec::<String>::new());
}
