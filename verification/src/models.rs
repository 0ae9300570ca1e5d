//! The domain types: posts, tags, users, and their validation rules.

pub mod errors;
pub mod post;
pub mod tag;
pub mod user;
