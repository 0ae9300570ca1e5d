//! The store itself, modelled as an explicit value: three tables, the id
//! counters, and a logical clock whose readings serve as timestamps.

use vstd::prelude::*;

use crate::db::post_repository::PostRepository;
use crate::db::tag_repository::TagRepository;
use crate::models::post::{is_valid_slug_spec, Post};
use crate::models::tag::Tag;
use crate::text::{is_blank, lex_lt, trim_of};

verus! {

/// One row of the association table: a single post-to-tag edge.
#[derive(Clone, Copy, Debug, PartialEq, Eq, Structural)]
pub struct PostTag {
    pub post_id: i64,
    pub tag_id: i64,
}

/// The whole store. A freshly constructed value is an empty, migrated
/// database; every repository operation is a transition on it, and each
/// mutation advances `clock` so that later writes carry strictly later
/// timestamps.
#[derive(Debug)]
pub struct Database {
    /// The posts table, in creation order.
    pub posts: Vec<Post>,
    /// The tags table, kept sorted by name in code-point order, as the
    /// name-keyed reads return it.
    pub tags: Vec<Tag>,
    /// The association table.
    pub post_tags: Vec<PostTag>,
    /// The next id the posts table will assign.
    pub next_post_id: i64,
    /// The next id the tags table will assign.
    pub next_tag_id: i64,
    /// The logical clock; strictly larger readings are strictly later.
    pub clock: i64,
}

impl Database {
    /// Some post row carries this id.
    pub open spec fn has_post_id(self, id: i64) -> bool {
        exists|j: int| 0 <= j < self.posts@.len() && self.posts@[j].id == id
    }

    /// Some post row carries this slug.
    pub open spec fn slug_taken(self, slug: Seq<char>) -> bool {
        exists|j: int| 0 <= j < self.posts@.len() && self.posts@[j].slug@ == slug
    }

    /// Some post row other than the one with id `id` carries this slug.
    pub open spec fn slug_taken_by_other(self, slug: Seq<char>, id: i64) -> bool {
        exists|j: int|
            0 <= j < self.posts@.len() && self.posts@[j].slug@ == slug && self.posts@[j].id != id
    }

    /// Some tag row carries this id.
    pub open spec fn has_tag_id(self, id: i64) -> bool {
        exists|j: int| 0 <= j < self.tags@.len() && self.tags@[j].id == id
    }

    /// Some tag row carries this name.
    pub open spec fn tag_name_taken(self, name: Seq<char>) -> bool {
        exists|j: int| 0 <= j < self.tags@.len() && self.tags@[j].name@ == name
    }

    /// Some tag row other than the one with id `id` carries this name.
    pub open spec fn tag_name_taken_by_other(self, name: Seq<char>, id: i64) -> bool {
        exists|j: int|
            0 <= j < self.tags@.len() && self.tags@[j].name@ == name && self.tags@[j].id != id
    }

    /// The association table holds this edge.
    pub open spec fn has_assoc(self, post_id: i64, tag_id: i64) -> bool {
        exists|j: int|
            0 <= j < self.post_tags@.len() && self.post_tags@[j] == (PostTag { post_id, tag_id })
    }

    /// Well-formedness: ids are unique and below their counters, slugs and
    /// tag names are unique, tags are sorted by name, timestamps lie below
    /// the clock and grow along the posts table, association rows are unique
    /// and reference existing posts and tags. Stored rows obey the field
    /// rules: a post's title and content are non-blank and its slug
    /// well-formed; a tag's name is non-empty and is its own trimmed form.
    pub open spec fn wf(self) -> bool {
        &&& forall|i: int, j: int|
            #![trigger self.posts@[i], self.posts@[j]]
            0 <= i < j < self.posts@.len() ==> {
                &&& self.posts@[i].id != self.posts@[j].id
                &&& self.posts@[i].slug@ != self.posts@[j].slug@
                &&& self.posts@[i].created_at < self.posts@[j].created_at
            }
        &&& forall|i: int|
            #![trigger self.posts@[i]]
            0 <= i < self.posts@.len() ==> {
                &&& 0 < self.posts@[i].id < self.next_post_id
                &&& self.posts@[i].created_at <= self.posts@[i].updated_at < self.clock
                &&& !is_blank(self.posts@[i].title@)
                &&& !is_blank(self.posts@[i].content@)
                &&& is_valid_slug_spec(self.posts@[i].slug@)
            }
        &&& forall|i: int, j: int|
            #![trigger self.tags@[i], self.tags@[j]]
            0 <= i < j < self.tags@.len() ==> {
                &&& self.tags@[i].id != self.tags@[j].id
                &&& lex_lt(self.tags@[i].name@, self.tags@[j].name@)
            }
        &&& forall|i: int|
            #![trigger self.tags@[i]]
            0 <= i < self.tags@.len() ==> {
                &&& 0 < self.tags@[i].id < self.next_tag_id
                &&& self.tags@[i].created_at < self.clock
                &&& self.tags@[i].name@.len() > 0
                &&& self.tags@[i].name@ == trim_of(self.tags@[i].name@)
            }
        &&& forall|i: int, j: int|
            #![trigger self.post_tags@[i], self.post_tags@[j]]
            0 <= i < j < self.post_tags@.len() ==> self.post_tags@[i] != self.post_tags@[j]
        &&& forall|i: int|
            #![trigger self.post_tags@[i]]
            0 <= i < self.post_tags@.len() ==> {
                &&& self.has_post_id(self.post_tags@[i].post_id)
                &&& self.has_tag_id(self.post_tags@[i].tag_id)
            }
        &&& 0 < self.next_post_id
        &&& 0 < self.next_tag_id
        &&& 0 <= self.clock
        &&& self.post_tags@.len() <= i64::MAX
    }

    /// The machine-limit headroom a mutation needs: the id counters, the
    /// clock and the association count are below `i64::MAX`, so one more
    /// assignment cannot overflow.
    pub open spec fn can_tick(self) -> bool {
        &&& self.clock < i64::MAX
        &&& self.next_post_id < i64::MAX
        &&& self.next_tag_id < i64::MAX
        &&& self.post_tags@.len() < i64::MAX
    }

    /// An empty store, as a fresh migration leaves it.
    pub fn new() -> (db: Database)
        ensures
            db.wf(),
            db.can_tick(),
            db.posts@.len() == 0,
            db.tags@.len() == 0,
            db.post_tags@.len() == 0,
            db.next_post_id == 1,
            db.next_tag_id == 1,
            db.clock == 0,
    {
        Database {
            posts: Vec::new(),
            tags: Vec::new(),
            post_tags: Vec::new(),
            next_post_id: 1,
            next_tag_id: 1,
            clock: 0,
        }
    }

    /// The post-related operations.
    pub fn posts(&self) -> PostRepository {
        PostRepository {}
    }

    /// The tag-related operations.
    pub fn tags(&self) -> TagRepository {
        TagRepository {}
    }
}

} // verus!
