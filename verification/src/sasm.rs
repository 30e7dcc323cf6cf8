//! The stack-machine virtual machine: a paginated byte memory, an immutable
//! program image, a processor with registers and a typed stack, and the
//! instruction handlers that act on the processor.

pub mod action;
pub mod bytes;
pub mod instructions;
pub mod laws;
pub mod memory;
pub mod processor;
pub mod program;
