//! The closed set of failures a repository operation can resolve to, and the
//! helpers that build them with their standard wording.

use vstd::prelude::*;

verus! {

/// A repository failure. Every storage-level fault is translated to one of
/// these before it reaches a caller.
#[derive(Debug)]
pub enum DatabaseError {
    /// An underlying-store failure, with the store's own message.
    Sqlx(String),
    /// A schema-migration failure at startup.
    Migration(String),
    /// Missing or malformed startup configuration.
    Configuration(String),
    /// Bad input; the caller can fix it and no retry will help.
    Validation(String),
    /// The target record does not exist.
    NotFound(String),
    /// A conflict on a key that must stay unique.
    DuplicateEntry(String),
    /// A transaction could not be opened or committed.
    Transaction(String),
}

/// The outcome of a repository operation.
pub type DatabaseResult<T> = Result<T, DatabaseError>;

/// The wording of a `NotFound` error about `resource` and `identifier`.
pub open spec fn not_found_msg(resource: Seq<char>, identifier: Seq<char>) -> Seq<char> {
    resource + " with identifier '"@ + identifier + "' not found"@
}

/// The wording of a `DuplicateEntry` error about `resource` and `identifier`.
pub open spec fn duplicate_msg(resource: Seq<char>, identifier: Seq<char>) -> Seq<char> {
    resource + " with identifier '"@ + identifier + "' already exists"@
}

/// `e` is the `NotFound` error for this resource and identifier.
pub open spec fn is_not_found(e: DatabaseError, resource: Seq<char>, identifier: Seq<char>) -> bool {
    &&& e is NotFound
    &&& e->NotFound_0@ == not_found_msg(resource, identifier)
}

/// `e` is the `DuplicateEntry` error for this resource and identifier.
pub open spec fn is_duplicate(e: DatabaseError, resource: Seq<char>, identifier: Seq<char>) -> bool {
    &&& e is DuplicateEntry
    &&& e->DuplicateEntry_0@ == duplicate_msg(resource, identifier)
}

/// `e` is the `Validation` error with this message.
pub open spec fn is_validation(e: DatabaseError, message: Seq<char>) -> bool {
    &&& e is Validation
    &&& e->Validation_0@ == message
}

impl DatabaseError {
    /// The `NotFound` error for a missing record.
    pub fn not_found(resource: &str, identifier: &str) -> (r: Self)
        ensures
            is_not_found(r, resource@, identifier@),
    {
        DatabaseError::NotFound(
            String::from_str(resource).concat(" with identifier '").concat(identifier).concat(
                "' not found",
            ),
        )
    }

    /// The `DuplicateEntry` error for a uniqueness conflict.
    pub fn duplicate(resource: &str, identifier: &str) -> (r: Self)
        ensures
            is_duplicate(r, resource@, identifier@),
    {
        DatabaseError::DuplicateEntry(
            String::from_str(resource).concat(" with identifier '").concat(identifier).concat(
                "' already exists",
            ),
        )
    }

    /// The `Validation` error with the given message.
    pub fn validation(message: &str) -> (r: Self)
        ensures
            is_validation(r, message@),
    {
        DatabaseError::Validation(String::from_str(message))
    }
}

} // verus!
