//! The instruction handlers, grouped by family. Every handler takes the
//! processor and returns `Ok(())` to proceed, or the `Action` that stops the
//! run loop.

pub mod casting;
pub mod general;
pub mod memory;
pub mod stack;
