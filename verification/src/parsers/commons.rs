//! The lexical nodes every grammar rule leans on: comments, whitespace and
//! identifiers.

pub mod comments;
pub mod identifier;
pub mod whitespaces;
