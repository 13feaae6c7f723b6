//! Helpers: input validation and identifier hashing.

pub mod crypto;
pub mod validation;
