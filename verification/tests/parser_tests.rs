//! Tests of the recursive-descent parsers, one per grammar rule.

use minilisp::lexer::{Literal, Position, Symbol};
use minilisp::parser::ast::{Compound, Expression, List};

#[test]
fn parse_name() {
    let input = vec![Symbol::Name(Position::at(1, 0), String::from("test"))];
    let mut pos: usize = 0;

    let expected = Ok(Expression::Name(Position::at(1, 0), String::from("test")));

    assert_eq!(expected, Expression::parse(&input, &mut pos));
}

#[test]
fn parse_primitive() {
    let input = vec![Symbol::Primitive(Position::at(1, 0), Literal::Number(123))];
    let mut pos: usize = 0;

    let expected = Ok(Expression::Primitive(
        Position::at(1, 0),
        Literal::Number(123),
    ));

    assert_eq!(expected, Expression::parse(&input, &mut pos));
}

#[test]
fn parse_expression_none() {
    let input: Vec<Symbol> = vec![];
    let mut pos: usize = 0;

    assert!(matches!(Expression::parse(&input, &mut pos), Err(_)));
}

#[test]
fn parse_quote() {
    let input = vec![
        Symbol::Quote(Position::at(1, 0)),
        Symbol::Name(Position::at(1, 1), String::from("test")),
    ];
    let mut pos: usize = 0;

    let expected = Ok(Expression::QuoteExpression(Box::new(Expression::Name(
        Position::at(1, 1),
        String::from("test"),
    ))));

    assert_eq!(expected, Expression::parse(&input, &mut pos));
}

#[test]
fn parse_compound_none() {
    let input: Vec<Symbol> = vec![];
    let mut pos: usize = 0;

    assert_eq!(Ok(Compound::Nil), Compound::parse(&input, &mut pos));
}

#[test]
fn parse_compound() {
    let input = vec![Symbol::Name(Position::at(1, 0), String::from("test"))];
    let mut pos: usize = 0;

    let expected = Ok(Compound::Cell(
        Expression::Name(Position::at(1, 0), String::from("test")),
        Box::new(Compound::Nil),
    ));

    assert_eq!(expected, Compound::parse(&input, &mut pos));
}

#[test]
fn parse_list() {
    let input = vec![
        Symbol::LParen(Position::at(1, 0)),
        Symbol::Name(Position::at(1, 1), String::from("test")),
        Symbol::RParen(Position::at(1, 5)),
    ];
    let mut pos: usize = 0;

    let expected = Ok(Expression::List(List {
        left: Position::at(1, 0),
        content: Box::new(Compound::Cell(
            Expression::Name(Position::at(1, 1), String::from("test")),
            Box::new(Compound::Nil),
        )),
        right: Position::at(1, 5),
    }));

    assert_eq!(expected, Expression::parse(&input, &mut pos));
}

#[test]
fn parse_rejects_leading_rparen() {
    let input = vec![Symbol::RParen(Position::at(1, 0))];

    assert!(matches!(minilisp::parser::parse(&input), Err(_)));
}

#[test]
fn parse_rejects_unclosed_list() {
    let input = vec![
        Symbol::LParen(Position::at(1, 0)),
        Symbol::Name(Position::at(1, 1), String::from("test")),
    ];

    assert!(matches!(minilisp::parser::parse(&input), Err(_)));
}
