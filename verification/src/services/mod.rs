//! The operations on the store, by subject.

pub mod comment_service;
pub mod payment_service;
pub mod post_service;
pub mod user_service;
