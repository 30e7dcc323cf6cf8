//! The Sand front end: a cursor over the source text, the grammar nodes,
//! and the structured diagnostics a parse can leave behind.

pub mod chars;
pub mod commons;
pub mod diagnostics;
pub mod expressions;
pub mod input;
pub mod module;
pub mod rational;
pub mod statements;
