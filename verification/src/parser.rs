//! The parser: a recursive descent over the token sequence, building the
//! syntax tree under this grammar:
//!
//! ```text
//! START      ::= COMPOUND $
//! COMPOUND   ::= EXPRESSION COMPOUND | λ
//! EXPRESSION ::= Quote EXPRESSION | LIST | PRIMITIVE | Name
//! LIST       ::= LParen COMPOUND RParen
//! PRIMITIVE  ::= String | Number | Boolean
//! ```

use vstd::prelude::*;

pub mod ast;
pub mod error;

use crate::lexer::{symbols_view, Symbol, SymbolModel};
use ast::{sp_parse_compound, CompoundModel, AST};

verus! {

/// What parsing a whole text yields: the top-level run, except that a
/// text whose tokens begin with something no expression can start
/// (a stray closing parenthesis) is malformed.
pub open spec fn sp_parse(syms: Seq<SymbolModel>) -> Option<CompoundModel> {
    match sp_parse_compound(syms, 0) {
        Some(p) => if p.0 is Nil && syms.len() > 0 {
            None
        } else {
            Some(p.0)
        },
        None => None,
    }
}

/// Parses a token sequence into a syntax tree, as `sp_parse` describes.
pub fn parse(symbols: &Vec<Symbol>) -> (r: Result<AST, error::ParserError>)
    ensures
        match sp_parse(symbols_view(symbols@)) {
            Some(c) => r matches Ok(ast) && ast@ == c,
            None => r is Err,
        },
{
    let mut pos: usize = 0;
    let ast = match AST::parse(symbols, &mut pos) {
        Ok(ast) => ast,
        Err(e) => {
            return Err(e);
        }
    };
    let root_is_nil = matches!(&ast, AST { root } if matches!(&**root, ast::Compound::Nil));
    if root_is_nil {
        if symbols.len() > 0 {
            let s = &symbols[0];
            return Err(
                error::ParserError::new(
                    s.position(),
                    "Expected (, name, string, number, or boolean",
                ),
            );
        }
    }
    Ok(ast)
}

} // verus!
