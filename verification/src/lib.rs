//! Lexical analysis for the Monkey language: source text in, classified
//! tokens out, one per request, until the text ends or a character that
//! starts no token is met.

#![allow(unused_imports)]

pub mod ast;
mod cursor;
pub mod grammar;
pub mod lexer;
pub mod stream;
pub mod text;
pub mod token;
