//! A content-management repository layer: posts, tags, and the many-to-many
//! tagging relation between them, with uniqueness rules, cascading deletes and
//! partial-update semantics.
//!
//! The store itself is modelled as an explicit `Database` value: every
//! repository operation is a verified transition on that value, returning
//! either the affected record or a typed `DatabaseError`.

pub mod db;
pub mod handlers;
pub mod models;
pub mod seqs;
pub mod text;
