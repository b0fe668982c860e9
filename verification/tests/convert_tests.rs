//! Tests of the converter from syntax trees to runtime values.

use minilisp::convert::{convert_compound, convert_expression, convert_primitive};
use minilisp::datastructure::{Cons, Item};
use minilisp::lexer::{Literal, Position, Symbol};
use minilisp::parser::ast::{Compound, Expression, List};

#[test]
fn convert_number() {
    assert_eq!(Item::Number(5), convert_primitive(Literal::Number(5)));
}

#[test]
fn convert_boolean() {
    assert_eq!(
        Item::Boolean(true),
        convert_primitive(Literal::Boolean(true))
    );
}

#[test]
fn convert_string() {
    assert_eq!(
        Item::String(String::from("test")),
        convert_primitive(Literal::String(String::from("test")))
    );
}

#[test]
fn convert_name() {
    assert_eq!(
        Item::Name(String::from("test")),
        convert_expression(Expression::Name(
            Position::at(1, 0),
            String::from("test")
        ))
    );
}

#[test]
fn convert_literal() {
    assert_eq!(
        Item::Number(123),
        convert_expression(Expression::Primitive(
            Position::at(1, 0),
            Literal::Number(123)
        ))
    );
}

#[test]
fn convert_empty_list() {
    let input = vec![
        Symbol::LParen(Position::at(1, 0)),
        Symbol::RParen(Position::at(1, 1)),
    ];
    let mut pos: usize = 0;
    let list = List::parse(&input, &mut pos);
    let res = convert_expression(Expression::List(list.unwrap()));
    assert_eq!(Item::Nil, res);
}

#[test]
fn convert_quote_expression() {
    assert_eq!(
        Item::Cons(Cons::new(
            Item::Name(String::from("quote")),
            Item::Cons(Cons::new(Item::Name(String::from("test")), Item::Nil))
        )),
        convert_expression(Expression::QuoteExpression(Box::new(
            Expression::Name(Position::at(1, 1), String::from("test"))
        )))
    );
}

#[test]
fn convert_empty_compound() {
    assert_eq!(Item::Nil, convert_compound(Compound::Nil));
}

#[test]
fn convert_compound_some() {
    assert_eq!(
        Item::Cons(Cons::new(
            Item::Name(String::from("test")),
            Item::Cons(Cons::new(Item::Number(123), Item::Nil))
        )),
        convert_compound(Compound::Cell(
            Expression::Name(Position::at(1, 0), String::from("test")),
            Box::new(Compound::Cell(
                Expression::Primitive(Position::at(2, 0), Literal::Number(123)),
                Box::new(Compound::Nil)
            ))
        ))
    );
}
