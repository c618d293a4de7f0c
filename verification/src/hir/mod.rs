//! The high-level intermediate representation (HIR) of DOL and its
//! semantic validation.

pub mod span;
pub mod symbol;
pub mod types;
pub mod validate;
