//! The store.

pub mod audit;
pub mod state;
