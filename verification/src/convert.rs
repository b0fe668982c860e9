//! The converter: turns a parsed syntax tree into the runtime values the
//! machine evaluates, expanding the quote shorthand on the way.

use vstd::prelude::*;
use vstd::string::StringExecFns;

use crate::datastructure::{spec_cons_new, Cons, Item, ItemModel};
use crate::lexer::{Literal, LiteralModel};
use crate::parser::ast::{Compound, CompoundModel, Expression, ExpressionModel, AST};

verus! {

broadcast use {crate::models::group_models, crate::parser::ast::group_ast_models};

/// What a literal denotes. The reserved literal carries no value yet and
/// cannot be converted.
pub open spec fn sp_convert_primitive(l: LiteralModel) -> ItemModel {
    match l {
        LiteralModel::Number(n) => ItemModel::Number(n),
        LiteralModel::Boolean(b) => ItemModel::Boolean(b),
        LiteralModel::String(s) => ItemModel::String(s),
        LiteralModel::Nil => ItemModel::Nil,
    }
}

/// What an expression denotes: a quotation becomes the two-element list
/// `(quote content)`, a list becomes its converted run, and names and
/// literals carry over.
pub open spec fn sp_convert_expression(e: ExpressionModel) -> ItemModel
    decreases e,
{
    match e {
        ExpressionModel::QuoteExpression(inner) => ItemModel::Cons(
            spec_cons_new(
                ItemModel::Name("quote"@),
                ItemModel::Cons(
                    spec_cons_new(sp_convert_expression(*inner), ItemModel::Nil),
                ),
            ),
        ),
        ExpressionModel::List(l) => sp_convert_compound(*l.content),
        ExpressionModel::Name(_, n) => ItemModel::Name(n),
        ExpressionModel::Primitive(_, l) => sp_convert_primitive(l),
    }
}

/// What a run of expressions denotes: the proper list of its converted
/// elements, and the empty value for the empty run.
pub open spec fn sp_convert_compound(c: CompoundModel) -> ItemModel
    decreases c,
{
    match c {
        CompoundModel::Cell(e, rest) => ItemModel::Cons(
            spec_cons_new(sp_convert_expression(e), sp_convert_compound(*rest)),
        ),
        CompoundModel::Nil => ItemModel::Nil,
    }
}

/// No reserved literal occurs in the expression.
pub open spec fn expression_convertible(e: ExpressionModel) -> bool
    decreases e,
{
    match e {
        ExpressionModel::QuoteExpression(inner) => expression_convertible(*inner),
        ExpressionModel::List(l) => compound_convertible(*l.content),
        ExpressionModel::Name(_, _) => true,
        ExpressionModel::Primitive(_, l) => !(l is Nil),
    }
}

/// No reserved literal occurs in the run.
pub open spec fn compound_convertible(c: CompoundModel) -> bool
    decreases c,
{
    match c {
        CompoundModel::Cell(e, rest) => expression_convertible(e) && compound_convertible(*rest),
        CompoundModel::Nil => true,
    }
}

/// Converts one literal.
pub fn convert_primitive(primitive: Literal) -> (r: Item)
    requires
        !(primitive@ is Nil),
    ensures
        r@ == sp_convert_primitive(primitive@),
{
    match primitive {
        Literal::Number(n) => Item::Number(n),
        Literal::Boolean(b) => Item::Boolean(b),
        Literal::String(s) => Item::String(s),
        Literal::Nil => Item::Nil,
    }
}

/// Converts one expression, as `sp_convert_expression` describes.
pub fn convert_expression(expression: Expression) -> (r: Item)
    requires
        expression_convertible(expression@),
    ensures
        r@ == sp_convert_expression(expression@),
    decreases expression,
{
    match expression {
        Expression::QuoteExpression(e) => {
            let quote = Item::Name(String::from_str("quote"));
            let content = convert_expression(*e);
            let wrap = Item::Cons(Cons::new(content, Item::Nil));
            Item::Cons(Cons::new(quote, wrap))
        }
        Expression::List(l) => convert_compound(*l.content),
        Expression::Name(_, n) => Item::Name(n),
        Expression::Primitive(_, l) => convert_primitive(l),
    }
}

/// Converts one run of expressions, as `sp_convert_compound` describes.
pub fn convert_compound(compound: Compound) -> (r: Item)
    requires
        compound_convertible(compound@),
    ensures
        r@ == sp_convert_compound(compound@),
    decreases compound,
{
    match compound {
        Compound::Cell(e, c) => {
            let car = convert_expression(e);
            let cdr = convert_compound(*c);
            Item::Cons(Cons::new(car, cdr))
        }
        Compound::Nil => Item::Nil,
    }
}

/// Converts a whole syntax tree into the top-level forms to evaluate:
/// the converted run, taken apart into one item per form.
pub fn convert(ast: AST) -> (r: Vec<Item>)
    requires
        compound_convertible(ast@),
    ensures
        match sp_convert_compound(ast@) {
            ItemModel::Cons(c) => crate::datastructure::items_view(r@) == c.data,
            other => crate::datastructure::items_view(r@) == seq![other],
        },
{
    proof {
        broadcast use crate::models::group_models;
    }
    let AST { root } = ast;
    let expression_val = convert_compound(*root);
    match expression_val {
        Item::Cons(result) => result.into_vec(),
        other => {
            let mut one: Vec<Item> = Vec::new();
            one.push(other);
            proof {
                assert(crate::datastructure::items_view(one@) =~= seq![other@]);
            }
            one
        }
    }
}

} // verus!
