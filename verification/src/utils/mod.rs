//! Helpers for examples, tests and downstream validation.

pub mod fixture;
pub mod memory;
pub mod rand;
