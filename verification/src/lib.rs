//! Lexical and syntactic front end for a small teaching language.
//!
//! Source text is turned into a stream of [`token::Token`] values by a
//! [`lexer::Lexer`], and a [`parser::Parser`] turns that stream into an
//! [`ast::Program`], collecting diagnostics instead of aborting on the
//! first malformed construct.

pub mod ast;
pub mod lexer;
pub mod parser;
pub mod token;
