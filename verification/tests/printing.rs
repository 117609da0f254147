use hyoka::expression::Expression;
use hyoka::parser::parse;
use std::rc::Rc;

fn number(token: &str) -> Option<u64> {
    token.parse::<f64>().ok().map(f64::to_bits)
}

fn show(bits: u64) -> String {
    format!("{}", f64::from_bits(bits))
}

fn num(value: f64) -> Expression {
    Expression::Number(value.to_bits())
}

fn sym(name: &str) -> Expression {
    Expression::Symbol(name.to_string())
}

fn list(items: Vec<Expression>) -> Expression {
    Expression::List(Rc::new(items))
}

#[test]
fn atoms_are_written_plainly() {
    assert_eq!(num(6.0).render(&show), "6");
    assert_eq!(num(-1.5).render(&show), "-1.5");
    assert_eq!(num(f64::INFINITY).render(&show), "inf");
    assert_eq!(sym("square-ish").render(&show), "square-ish");
    assert_eq!(sym("+").render(&show), "+");
}

#[test]
fn lists_are_written_in_parentheses() {
    assert_eq!(list(vec![]).render(&show), "()");
    assert_eq!(list(vec![sym("x")]).render(&show), "(x)");
    assert_eq!(list(vec![sym("+"), num(1.0), num(2.0)]).render(&show), "(+ 1 2)");
    assert_eq!(
        list(vec![sym("+"), list(vec![]), list(vec![sym("*"), num(2.0), sym("x")])])
            .render(&show),
        "(+ () (* 2 x))"
    );
}

#[test]
fn procedures_are_written_as_lambda_forms() {
    let procedure = Expression::Procedure(
        Rc::new(vec![sym("a"), sym("b")]),
        Rc::new(vec![sym("+"), sym("a"), sym("b")]),
    );
    assert_eq!(procedure.render(&show), "(lambda (a b) (+ a b))");
    let empty = Expression::Procedure(Rc::new(vec![]), Rc::new(vec![]));
    assert_eq!(empty.render(&show), "(lambda () ())");
}

#[test]
fn the_writer_is_asked_for_every_number() {
    let hex = |bits: u64| format!("#{:x}", bits);
    assert_eq!(
        list(vec![Expression::Number(255), sym("n"), Expression::Number(16)]).render(&hex),
        "(#ff n #10)"
    );
}

#[test]
fn printed_text_parses_back() {
    let texts = [
        "x",
        "42",
        "-0",
        "1e300",
        "0.1",
        "inf",
        "nan",
        "()",
        "(+ 1 2 3)",
        "(define square-ish (lambda (a b) (+ a b)))",
        "  ( a(b (c)  )\t( ) 1.50 )\n",
        "((((deep))))",
        "(λ 日本 -.5e-3)",
    ];
    for text in texts {
        let parsed = parse(text, &number).expect("the text parses");
        let printed = parsed.render(&show);
        assert_eq!(parse(&printed, &number), Ok(parsed.clone()), "{}", text);
        assert_eq!(parse(&printed, &number).expect("the text parses").render(&show), printed);
    }
}

#[test]
fn printing_normalises_spacing() {
    let parsed = parse("  ( a(b (c)  )\t( ) 1.50 )\n", &number).expect("the text parses");
    assert_eq!(parsed.render(&show), "(a (b (c)) () 1.5)");
}

#[test]
fn a_made_procedure_parses_back_as_its_lambda_form() {
    let procedure = Expression::Procedure(
        Rc::new(vec![sym("a")]),
        Rc::new(vec![sym("*"), sym("a"), sym("a")]),
    );
    assert_eq!(
        parse(&procedure.render(&show), &number),
        Ok(list(vec![
            sym("lambda"),
            list(vec![sym("a")]),
            list(vec![sym("*"), sym("a"), sym("a")]),
        ]))
    );
}

#[test]
fn list_and_symbol_builders() {
    assert_eq!(Expression::list(vec![sym("a"), num(1.0)]), list(vec![sym("a"), num(1.0)]));
    assert_eq!(Expression::list(vec![]), list(vec![]));
    assert_eq!(Expression::symbol("name"), sym("name"));
    assert_eq!(Expression::symbol(""), sym(""));
}
