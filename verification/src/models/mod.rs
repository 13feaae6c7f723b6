//! The records of the store.

pub mod comment;
pub mod post;
pub mod user;
