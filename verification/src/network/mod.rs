//! Identifiers and records of the hyphal network: resource types, node
//! identifiers, and growth statistics and events.

pub mod discovery;
pub mod growth;
pub mod topology;
