//! A small Lisp interpreter: s-expressions, cons-list data, lexical
//! closures and conditionals, evaluated by an instruction-queue virtual
//! machine rather than by host-stack recursion.

pub mod convert;
pub mod datastructure;
pub mod lexer;
pub mod parser;
pub mod models;
pub mod stdlib;
pub mod vm;
