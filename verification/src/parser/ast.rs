//! The syntax tree and its recursive-descent parsers, one per rule of
//! the grammar: a compound is a run of expressions; an expression is a
//! quotation, a list, a name or a literal; a list is a parenthesised
//! compound.

use vstd::prelude::*;

use crate::lexer::{
    spec_symbol_position, symbols_view, Literal, LiteralModel, Position, Symbol, SymbolModel,
};
use crate::parser::error::ParserError;

verus! {

/// A parsed source text: the run of top-level expressions.
pub struct AST {
    pub(crate) root: Box<Compound>,
}

/// A run of expressions.
#[derive(Debug, PartialEq)]
pub enum Compound {
    Cell(Expression, Box<Compound>),
    Nil,
}

/// One expression of the grammar.
#[derive(Debug, PartialEq)]
pub enum Expression {
    QuoteExpression(Box<Expression>),
    List(List),
    Name(Position, String),
    Primitive(Position, Literal),
}

/// A parenthesised run of expressions, keeping both bracket positions.
#[derive(Debug, PartialEq)]
pub struct List {
    pub left: Position,
    pub content: Box<Compound>,
    pub right: Position,
}

/// Ghost mirror of `Compound`.
pub enum CompoundModel {
    Cell(ExpressionModel, Box<CompoundModel>),
    Nil,
}

/// Ghost mirror of `Expression`.
pub enum ExpressionModel {
    QuoteExpression(Box<ExpressionModel>),
    List(ListModel),
    Name(Position, Seq<char>),
    Primitive(Position, LiteralModel),
}

/// Ghost mirror of `List`.
pub struct ListModel {
    pub left: Position,
    pub content: Box<CompoundModel>,
    pub right: Position,
}

impl View for Compound {
    type V = CompoundModel;

    open spec fn view(&self) -> CompoundModel
        decreases self,
    {
        match self {
            Compound::Cell(e, rest) => CompoundModel::Cell(e@, Box::new((**rest)@)),
            Compound::Nil => CompoundModel::Nil,
        }
    }
}

impl View for Expression {
    type V = ExpressionModel;

    open spec fn view(&self) -> ExpressionModel
        decreases self,
    {
        match self {
            Expression::QuoteExpression(inner) => ExpressionModel::QuoteExpression(
                Box::new((**inner)@),
            ),
            Expression::List(l) => ExpressionModel::List(l@),
            Expression::Name(p, n) => ExpressionModel::Name(*p, n@),
            Expression::Primitive(p, l) => ExpressionModel::Primitive(*p, l@),
        }
    }
}

impl View for List {
    type V = ListModel;

    open spec fn view(&self) -> ListModel
        decreases self,
    {
        ListModel { left: self.left, content: Box::new((*self.content)@), right: self.right }
    }
}

impl View for AST {
    type V = CompoundModel;

    open(crate) spec fn view(&self) -> CompoundModel {
        (*self.root)@
    }
}

/// The defining equation of `Compound`'s view, kept ambient because the
/// tree views are mutually recursive.
pub broadcast proof fn lemma_compound_view(c: Compound)
    ensures
        #[trigger] c@ == (match c {
            Compound::Cell(e, rest) => CompoundModel::Cell(e@, Box::new((*rest)@)),
            Compound::Nil => CompoundModel::Nil,
        }),
{
}

/// The defining equation of `Expression`'s view.
pub broadcast proof fn lemma_expression_view(e: Expression)
    ensures
        #[trigger] e@ == (match e {
            Expression::QuoteExpression(inner) => ExpressionModel::QuoteExpression(
                Box::new((*inner)@),
            ),
            Expression::List(l) => ExpressionModel::List(l@),
            Expression::Name(p, n) => ExpressionModel::Name(p, n@),
            Expression::Primitive(p, l) => ExpressionModel::Primitive(p, l@),
        }),
{
}

/// The defining equation of `List`'s view.
pub broadcast proof fn lemma_list_view(l: List)
    ensures
        #[trigger] l@ == (ListModel {
            left: l.left,
            content: Box::new((*l.content)@),
            right: l.right,
        }),
{
}

/// The defining equations of the tree views.
pub broadcast group group_ast_models {
    lemma_compound_view,
    lemma_expression_view,
    lemma_list_view,
}

/// The compound rule: expressions until the text or the enclosing list
/// ends, with where each one ended.
pub open spec fn sp_parse_compound(syms: Seq<SymbolModel>, i: int) -> Option<(CompoundModel, int)>
    decreases syms.len() - i, 2int,
    via sp_parse_compound_dec
{
    if i < 0 || i >= syms.len() {
        Some((CompoundModel::Nil, i))
    } else if syms[i] is RParen {
        Some((CompoundModel::Nil, i))
    } else {
        match sp_parse_expression(syms, i) {
            Some(pair) => if i < pair.1 <= syms.len() {
                match sp_parse_compound(syms, pair.1) {
                    Some(p2) => Some((CompoundModel::Cell(pair.0, Box::new(p2.0)), p2.1)),
                    None => None,
                }
            } else {
                None
            },
            None => None,
        }
    }
}

/// The expression rule: a quotation, a list, a name or a literal; a
/// closing parenthesis or the end of the text is malformed here.
pub open spec fn sp_parse_expression(syms: Seq<SymbolModel>, i: int) -> Option<
    (ExpressionModel, int),
>
    decreases syms.len() - i, 1int,
{
    if i < 0 || i >= syms.len() {
        None
    } else {
        match syms[i] {
            SymbolModel::Quote(_) => match sp_parse_expression(syms, i + 1) {
                Some(pair) => Some(
                    (ExpressionModel::QuoteExpression(Box::new(pair.0)), pair.1),
                ),
                None => None,
            },
            SymbolModel::LParen(_) => match sp_parse_list(syms, i) {
                Some(pair) => Some((ExpressionModel::List(pair.0), pair.1)),
                None => None,
            },
            SymbolModel::Name(p, n) => Some((ExpressionModel::Name(p, n), i + 1)),
            SymbolModel::Primitive(p, l) => Some((ExpressionModel::Primitive(p, l), i + 1)),
            SymbolModel::RParen(_) => None,
        }
    }
}

/// The list rule: an opening parenthesis, a compound, and the matching
/// closing parenthesis.
pub open spec fn sp_parse_list(syms: Seq<SymbolModel>, i: int) -> Option<(ListModel, int)>
    decreases syms.len() - i, 0int,
{
    if i < 0 || i >= syms.len() {
        None
    } else {
        match syms[i] {
            SymbolModel::LParen(lp) => if i + 1 >= syms.len() {
                None
            } else {
                match sp_parse_compound(syms, i + 1) {
                    Some(p) => if 0 <= p.1 < syms.len() && syms[p.1] is RParen {
                        Some(
                            (
                                ListModel {
                                    left: lp,
                                    content: Box::new(p.0),
                                    right: spec_symbol_position(syms[p.1]),
                                },
                                p.1 + 1,
                            ),
                        )
                    } else {
                        None
                    },
                    None => None,
                }
            },
            _ => None,
        }
    }
}

#[via_fn]
proof fn sp_parse_compound_dec(syms: Seq<SymbolModel>, i: int) {
}

/// A successful parse always moves forward and stays inside the tokens.
pub proof fn lemma_parse_bounds(syms: Seq<SymbolModel>, i: int, rank: int)
    requires
        0 <= i <= syms.len(),
    ensures
        rank == 2 ==> (sp_parse_compound(syms, i) matches Some(p) ==> i <= p.1 <= syms.len()),
        rank == 1 ==> (sp_parse_expression(syms, i) matches Some(p) ==> i < p.1 <= syms.len()),
        rank == 0 ==> (sp_parse_list(syms, i) matches Some(p) ==> i < p.1 <= syms.len()),
    decreases syms.len() - i, rank,
{
    if rank == 2 {
        if 0 <= i < syms.len() && !(syms[i] is RParen) {
            lemma_parse_bounds(syms, i, 1);
            match sp_parse_expression(syms, i) {
                Some(pair) => {
                    if i < pair.1 <= syms.len() {
                        lemma_parse_bounds(syms, pair.1, 2);
                    }
                }
                None => {}
            }
        }
    } else if rank == 1 {
        if 0 <= i < syms.len() {
            match syms[i] {
                SymbolModel::Quote(_) => {
                    lemma_parse_bounds(syms, i + 1, 1);
                }
                SymbolModel::LParen(_) => {
                    lemma_parse_bounds(syms, i, 0);
                }
                _ => {}
            }
        }
    } else if rank == 0 {
        if 0 <= i < syms.len() && syms[i] is LParen && i + 1 < syms.len() {
            lemma_parse_bounds(syms, i + 1, 2);
        }
    }
}

impl Compound {
    /// Parses a run of expressions, as `sp_parse_compound` describes.
    pub fn parse(input: &Vec<Symbol>, pos: &mut usize) -> (r: Result<Compound, ParserError>)
        requires
            *old(pos) <= input@.len(),
        ensures
            *final(pos) <= input@.len(),
            match sp_parse_compound(symbols_view(input@), *old(pos) as int) {
                Some(p) => (r matches Ok(c) && c@ == p.0) && *final(pos) == p.1,
                None => r is Err,
            },
        decreases input@.len() - *old(pos), 2int,
    {
        let ghost syms = symbols_view(input@);
        if *pos >= input.len() {
            return Ok(Compound::Nil);
        }
        if let Symbol::RParen(_) = &input[*pos] {
            return Ok(Compound::Nil);
        }
        proof {
            assert(!(syms[*old(pos) as int] is RParen));
            lemma_parse_bounds(syms, *old(pos) as int, 1);
        }
        let e = match Expression::parse(input, pos) {
            Ok(e) => e,
            Err(err) => {
                return Err(err);
            }
        };
        let rest = match Compound::parse(input, pos) {
            Ok(c) => c,
            Err(err) => {
                return Err(err);
            }
        };
        Ok(Compound::Cell(e, Box::new(rest)))
    }
}

impl Expression {
    /// Parses one expression, as `sp_parse_expression` describes.
    pub fn parse(input: &Vec<Symbol>, pos: &mut usize) -> (r: Result<Expression, ParserError>)
        requires
            *old(pos) <= input@.len(),
        ensures
            *final(pos) <= input@.len(),
            match sp_parse_expression(symbols_view(input@), *old(pos) as int) {
                Some(p) => (r matches Ok(e) && e@ == p.0) && *final(pos) == p.1,
                None => r is Err,
            },
        decreases input@.len() - *old(pos), 1int,
    {
        let ghost syms = symbols_view(input@);
        if *pos >= input.len() {
            return Err(
                ParserError::new(
                    Position::at(0, 0),
                    "Expected: ', (, name, or primitive, found: EOF",
                ),
            );
        }
        match &input[*pos] {
            Symbol::Quote(_) => {
                *pos = *pos + 1;
                let inner = match Expression::parse(input, pos) {
                    Ok(e) => e,
                    Err(err) => {
                        return Err(err);
                    }
                };
                Ok(Expression::QuoteExpression(Box::new(inner)))
            }
            Symbol::LParen(_) => {
                let l = match List::parse(input, pos) {
                    Ok(l) => l,
                    Err(err) => {
                        return Err(err);
                    }
                };
                Ok(Expression::List(l))
            }
            Symbol::Name(p, n) => {
                *pos = *pos + 1;
                Ok(Expression::Name(*p, n.clone()))
            }
            Symbol::Primitive(p, prim) => {
                *pos = *pos + 1;
                let copied = match prim {
                    Literal::Number(n) => Literal::Number(*n),
                    Literal::Boolean(b) => Literal::Boolean(*b),
                    Literal::String(s) => Literal::String(s.clone()),
                    Literal::Nil => Literal::Nil,
                };
                Ok(Expression::Primitive(*p, copied))
            }
            Symbol::RParen(rp) => Err(
                ParserError::new(*rp, "Expected: ', (, name, or primitive, found: )"),
            ),
        }
    }
}

impl List {
    /// Parses one parenthesised run, as `sp_parse_list` describes.
    pub fn parse(input: &Vec<Symbol>, pos: &mut usize) -> (r: Result<List, ParserError>)
        requires
            *old(pos) <= input@.len(),
        ensures
            *final(pos) <= input@.len(),
            match sp_parse_list(symbols_view(input@), *old(pos) as int) {
                Some(p) => (r matches Ok(l) && l@ == p.0) && *final(pos) == p.1,
                None => r is Err,
            },
        decreases input@.len() - *old(pos), 0int,
    {
        let ghost syms = symbols_view(input@);
        if *pos >= input.len() {
            return Err(ParserError::new(Position::at(0, 0), "Expected: (, found: EOF"));
        }
        let left = match &input[*pos] {
            Symbol::LParen(p) => *p,
            other => {
                return Err(ParserError::new(other.position(), "Expected: ("));
            }
        };
        *pos = *pos + 1;
        if *pos >= input.len() {
            return Err(
                ParserError::new(Position::at(0, 0), "Expected: expression, or ), found: EOF"),
            );
        }
        let content = match Compound::parse(input, pos) {
            Ok(c) => c,
            Err(err) => {
                return Err(err);
            }
        };
        if *pos >= input.len() {
            return Err(ParserError::new(Position::at(0, 0), "Expected: ), found: EOF"));
        }
        let right = match &input[*pos] {
            Symbol::RParen(p) => *p,
            other => {
                return Err(ParserError::new(other.position(), "Expected: )"));
            }
        };
        *pos = *pos + 1;
        Ok(List { left, content: Box::new(content), right })
    }
}

impl AST {
    /// Parses a whole source text: the top-level run of expressions.
    pub fn parse(input: &Vec<Symbol>, pos: &mut usize) -> (r: Result<AST, ParserError>)
        requires
            *old(pos) <= input@.len(),
        ensures
            *final(pos) <= input@.len(),
            match sp_parse_compound(symbols_view(input@), *old(pos) as int) {
                Some(p) => (r matches Ok(ast) && ast@ == p.0) && *final(pos) == p.1,
                None => r is Err,
            },
    {
        let root = match Compound::parse(input, pos) {
            Ok(c) => c,
            Err(err) => {
                return Err(err);
            }
        };
        Ok(AST { root: Box::new(root) })
    }
}

} // verus!
