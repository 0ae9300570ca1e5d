//! The repository layer: the store model, the typed error set, and the post
//! and tag repositories operating on the model.

pub mod connection;
pub mod error;
pub mod post_repository;
pub mod tag_repository;

pub use connection::Database;
pub use connection::PostTag;
pub use error::DatabaseError;
pub use post_repository::PostRepository;
pub use tag_repository::TagRepository;
