//! Composition of record transforms.

pub mod chain;
