//! Generation of Rust crates from DOL modules: configuration.

pub mod crate_gen;
