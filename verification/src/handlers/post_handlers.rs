//! Post request handling: the list-query type, the API error type with its
//! status mapping, and the category-parsing step of the post listing.

use vstd::prelude::*;

use crate::db::connection::Database;
use crate::db::error::{is_validation, DatabaseError};
use crate::db::post_repository::{listed, page_of, PostRepository};
use crate::models::post::{category_of, Post, PostCategory};

verus! {

/// Query parameters for listing posts with pagination and filtering.
#[derive(Debug)]
pub struct ListPostsQuery {
    pub category: Option<String>,
    pub published_only: bool,
    pub limit: i64,
    pub offset: i64,
}

/// The number of posts a listing returns when the caller names no limit.
pub fn default_limit() -> (r: i64)
    ensures
        r == 20,
{
    20
}

/// An API-level failure: a repository error, or input rejected before the
/// repository was reached.
#[derive(Debug)]
pub enum ApiError {
    Database(DatabaseError),
    InvalidInput(String),
}

impl ApiError {
    /// The HTTP status each error maps to: 404 for a missing record, 409
    /// for a duplicate, 400 for bad input, 500 for everything else.
    pub open spec fn status_spec(self) -> u16 {
        match self {
            ApiError::Database(DatabaseError::NotFound(_)) => 404,
            ApiError::Database(DatabaseError::DuplicateEntry(_)) => 409,
            ApiError::Database(DatabaseError::Validation(_)) => 400,
            ApiError::InvalidInput(_) => 400,
            _ => 500,
        }
    }

    /// The response body each error carries: its own message where the
    /// status names the fault, a generic one for internal failures.
    pub open spec fn message_spec(self) -> Seq<char> {
        match self {
            ApiError::Database(DatabaseError::NotFound(m)) => m@,
            ApiError::Database(DatabaseError::DuplicateEntry(m)) => m@,
            ApiError::Database(DatabaseError::Validation(m)) => m@,
            ApiError::InvalidInput(m) => m@,
            _ => "Internal server error"@,
        }
    }

    /// The HTTP status code and body message for this error.
    pub fn status_and_message(self) -> (r: (u16, String))
        ensures
            r.0 == self.status_spec(),
            r.1@ == self.message_spec(),
    {
        match self {
            ApiError::Database(DatabaseError::NotFound(m)) => (404, m),
            ApiError::Database(DatabaseError::DuplicateEntry(m)) => (409, m),
            ApiError::Database(DatabaseError::Validation(m)) => (400, m),
            ApiError::InvalidInput(m) => (400, m),
            _ => (500, String::from_str("Internal server error")),
        }
    }
}

/// The category filter a query asks for, when its text decodes to one.
pub open spec fn query_category(query: ListPostsQuery) -> Option<PostCategory> {
    match query.category {
        Some(c) => category_of(c@),
        None => None,
    }
}

/// Parses the optional category filter and lists posts through the
/// repository. Text that decodes to no category is rejected as
/// `InvalidInput` before the repository is reached.
pub fn list_posts(db: &Database, query: ListPostsQuery) -> (r: Result<Vec<Post>, ApiError>)
    requires
        db.wf(),
    ensures
        match r {
            Ok(v) => {
                &&& (query.category is Some ==> category_of(query.category->0@) is Some)
                &&& 1 <= query.limit <= 100
                &&& query.offset >= 0
                &&& v@ == page_of(
                    listed(db.posts@, query_category(query), query.published_only),
                    query.offset as int,
                    query.limit as int,
                )
            },
            Err(e) => {
                if query.category is Some && category_of(query.category->0@) is None {
                    &&& e is InvalidInput
                    &&& e->InvalidInput_0@ == "Invalid category: "@ + ("Invalid post category: "@
                        + query.category->0@)
                } else {
                    &&& (query.limit <= 0 || query.limit > 100 || query.offset < 0)
                    &&& e is Database
                    &&& if query.limit <= 0 || query.limit > 100 {
                        is_validation(e->Database_0, "Limit must be between 1 and 100"@)
                    } else {
                        is_validation(e->Database_0, "Offset cannot be negative"@)
                    }
                }
            },
        },
        (r is Ok) <==> ((query.category is Some ==> category_of(query.category->0@) is Some) && 1
            <= query.limit <= 100 && query.offset >= 0),
{
    let category = match &query.category {
        Some(cat_str) => match PostCategory::from_str(cat_str.as_str()) {
            Ok(c) => Some(c),
            Err(e) => {
                return Err(
                    ApiError::InvalidInput(
                        String::from_str("Invalid category: ").concat(e.as_str()),
                    ),
                );
            },
        },
        None => None,
    };
    let repo = PostRepository {};
    match repo.list(db, category, query.published_only, query.limit, query.offset) {
        Ok(v) => Ok(v),
        Err(e) => Err(ApiError::Database(e)),
    }
}

} // verus!
