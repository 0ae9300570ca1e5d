//! The request-level logic the HTTP boundary delegates to: input parsing
//! decisions, name validation, and the mapping of errors to status codes.

pub mod post_handlers;
pub mod tag_handlers;
