//! Validation errors for post inputs.

use vstd::prelude::*;

verus! {

/// Everything that can be wrong with the post data a caller hands in.
#[derive(Debug)]
pub enum PostError {
    /// The id of an update or patch target must be positive.
    InvalidId,
    /// The title is empty after trimming.
    EmptyTitle,
    /// The content is empty after trimming.
    EmptyContent,
    /// The slug is empty, holds a character other than an ASCII alphanumeric
    /// or a hyphen, or starts or ends with a hyphen.
    InvalidSlug,
    /// An underlying-store failure, carrying the store's message.
    Database(String),
}

impl PostError {
    /// The wording of each error, as a sequence of characters.
    pub open spec fn message_spec(&self) -> Seq<char> {
        match self {
            PostError::InvalidId => "Post ID must be positive"@,
            PostError::EmptyTitle => "Post title cannot be empty"@,
            PostError::EmptyContent => "Post content cannot be empty"@,
            PostError::InvalidSlug => "Invalid slug format"@,
            PostError::Database(m) => "Database error: "@ + m@,
        }
    }

    /// The human-readable description of the error.
    pub fn message(&self) -> (r: String)
        ensures
            r@ == self.message_spec(),
    {
        match self {
            PostError::InvalidId => String::from_str("Post ID must be positive"),
            PostError::EmptyTitle => String::from_str("Post title cannot be empty"),
            PostError::EmptyContent => String::from_str("Post content cannot be empty"),
            PostError::InvalidSlug => String::from_str("Invalid slug format"),
            PostError::Database(m) => String::from_str("Database error: ").concat(m.as_str()),
        }
    }
}

} // verus!
