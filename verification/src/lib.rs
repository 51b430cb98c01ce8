//! Lexical front end for the SmokeScript language.
//!
//! The library turns a complete, in-memory source text into an ordered
//! sequence of tokens in one pass.

pub mod diag;
pub mod laws;
pub mod lexer;
pub mod model;
pub mod text;
pub mod token;
