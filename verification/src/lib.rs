//! A stack-machine virtual machine over a paginated byte memory, together
//! with a recursive-descent front end for the Sand source language.
//!
//! The `sasm` module holds the machine: memory, program image, processor
//! registers and the instruction handlers. The `parsers` module holds the
//! Sand front end: a cursor over the source text, the grammar nodes and the
//! structured diagnostics they produce.

pub mod parsers;
pub mod sasm;
