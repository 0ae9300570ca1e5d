//! Tag request handling: the request and query types, and the name
//! validation that guards tag creation and renaming.

use vstd::prelude::*;

use crate::db::connection::Database;
use crate::db::error::{is_duplicate, is_not_found};
use crate::db::tag_repository::{created_tag_state, renamed_state, TagRepository};
use crate::handlers::post_handlers::ApiError;
use crate::models::tag::{is_valid_name_spec, Tag};
use crate::text::{dec_str, lemma_blank_trims_empty, trim_of};

verus! {

/// Request body for creating or renaming a tag.
#[derive(Debug)]
pub struct TagRequest {
    pub name: String,
}

/// Query parameters for listing tags.
#[derive(Debug)]
pub struct ListTagsQuery {
    pub include_post_count: bool,
}

/// Checks the requested name against the tag-name rules, then creates the
/// tag. A malformed name is rejected as `InvalidInput` before the
/// repository is reached; a name already stored is a duplicate.
pub fn create_tag(db: &mut Database, tag_request: &TagRequest) -> (r: Result<Tag, ApiError>)
    requires
        old(db).wf(),
        old(db).can_tick(),
    ensures
        final(db).wf(),
        match r {
            Ok(t) => {
                &&& is_valid_name_spec(tag_request.name@)
                &&& created_tag_state(*old(db), *final(db), tag_request.name@, t)
            },
            Err(e) => {
                &&& *final(db) == *old(db)
                &&& if !is_valid_name_spec(tag_request.name@) {
                    &&& e is InvalidInput
                    &&& e->InvalidInput_0@ == "Invalid tag name format"@
                } else {
                    &&& old(db).tag_name_taken(trim_of(tag_request.name@))
                    &&& e is Database
                    &&& is_duplicate(e->Database_0, "Tag"@, tag_request.name@)
                }
            },
        },
        (r is Ok) <==> (is_valid_name_spec(tag_request.name@) && !old(db).tag_name_taken(
            trim_of(tag_request.name@),
        )),
{
    if !Tag::is_valid_name(tag_request.name.as_str()) {
        return Err(ApiError::InvalidInput(String::from_str("Invalid tag name format")));
    }
    proof {
        if crate::text::is_blank(tag_request.name@) {
            lemma_blank_trims_empty(tag_request.name@);
        }
    }
    let repo = TagRepository {};
    match repo.create(db, tag_request.name.as_str()) {
        Ok(t) => Ok(t),
        Err(e) => Err(ApiError::Database(e)),
    }
}

/// Checks the requested name, then renames the tag carrying `id`. A
/// malformed name is `InvalidInput`; a missing id is `NotFound`; a name
/// held by a different tag is a duplicate.
pub fn update_tag(db: &mut Database, id: i64, tag_request: &TagRequest) -> (r: Result<
    Tag,
    ApiError,
>)
    requires
        old(db).wf(),
        old(db).can_tick(),
    ensures
        final(db).wf(),
        match r {
            Ok(t) => {
                &&& is_valid_name_spec(tag_request.name@)
                &&& renamed_state(*old(db), *final(db), id, tag_request.name@, t)
            },
            Err(e) => {
                &&& *final(db) == *old(db)
                &&& if !is_valid_name_spec(tag_request.name@) {
                    &&& e is InvalidInput
                    &&& e->InvalidInput_0@ == "Invalid tag name format"@
                } else if !old(db).has_tag_id(id) {
                    &&& e is Database
                    &&& is_not_found(e->Database_0, "Tag"@, dec_str(id as int))
                } else {
                    &&& old(db).tag_name_taken_by_other(trim_of(tag_request.name@), id)
                    &&& e is Database
                    &&& is_duplicate(e->Database_0, "Tag"@, tag_request.name@)
                }
            },
        },
        (r is Ok) <==> (is_valid_name_spec(tag_request.name@) && old(db).has_tag_id(id)
            && !old(db).tag_name_taken_by_other(trim_of(tag_request.name@), id)),
{
    if !Tag::is_valid_name(tag_request.name.as_str()) {
        return Err(ApiError::InvalidInput(String::from_str("Invalid tag name format")));
    }
    proof {
        if crate::text::is_blank(tag_request.name@) {
            lemma_blank_trims_empty(tag_request.name@);
        }
    }
    let repo = TagRepository {};
    match repo.update(db, id, tag_request.name.as_str()) {
        Ok(t) => Ok(t),
        Err(e) => Err(ApiError::Database(e)),
    }
}

} // verus!
