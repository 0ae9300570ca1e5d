//! The post repository: atomic create, read, update, patch, delete and list
//! over the posts table of a [`Database`] value.

use vstd::prelude::*;

use crate::db::connection::{Database, PostTag};
use crate::db::error::{
    is_duplicate, is_not_found, is_validation, DatabaseError, DatabaseResult,
};
use crate::models::post::{
    clone_opt_string, CreatePost, PatchPost, Post, PostCategory, UpdatePost,
};
use crate::text::{dec_str, i64_to_string, str_eq};

verus! {

/// The operations on posts. The store value itself is passed to each call:
/// in a running system it is the state behind the shared pool.
#[derive(Clone, Copy, Debug, PartialEq, Eq, Structural)]
pub struct PostRepository {}

/// The row that creating `input` inserts, given the assigned id and the
/// clock reading of the transaction.
pub open spec fn created_record(input: CreatePost, id: i64, now: i64) -> Post {
    Post {
        id,
        category: input.category,
        title: input.title,
        slug: input.slug,
        content: input.content,
        description: input.description,
        image_url: input.image_url,
        external_url: input.external_url,
        published: input.published,
        created_at: now,
        updated_at: now,
    }
}

/// The row that a full update writes over `cur`: every mutable field is
/// replaced, the id and creation time stay, and `updated_at` is bumped.
pub open spec fn updated_record(cur: Post, input: UpdatePost, now: i64) -> Post {
    Post {
        id: cur.id,
        category: input.category,
        title: input.title,
        slug: input.slug,
        content: input.content,
        description: input.description,
        image_url: input.image_url,
        external_url: input.external_url,
        published: input.published,
        created_at: cur.created_at,
        updated_at: now,
    }
}

/// The row that a patch writes over `cur`: a present field overwrites, an
/// absent one is carried forward; for the two URL fields an absent value
/// never clears the stored one.
pub open spec fn merged_record(cur: Post, patch: PatchPost, now: i64) -> Post {
    Post {
        id: cur.id,
        category: if patch.category is Some {
            patch.category->0
        } else {
            cur.category
        },
        title: if patch.title is Some {
            patch.title->0
        } else {
            cur.title
        },
        slug: if patch.slug is Some {
            patch.slug->0
        } else {
            cur.slug
        },
        content: if patch.content is Some {
            patch.content->0
        } else {
            cur.content
        },
        description: if patch.description is Some {
            patch.description->0
        } else {
            cur.description
        },
        image_url: if patch.image_url is Some {
            patch.image_url
        } else {
            cur.image_url
        },
        external_url: if patch.external_url is Some {
            patch.external_url
        } else {
            cur.external_url
        },
        published: if patch.published is Some {
            patch.published->0
        } else {
            cur.published
        },
        created_at: cur.created_at,
        updated_at: now,
    }
}

/// The slug the merged row will carry.
pub open spec fn merged_slug(cur: Post, patch: PatchPost) -> Seq<char> {
    if patch.slug is Some {
        patch.slug->0@
    } else {
        cur.slug@
    }
}

/// Whether a row passes the list filter.
pub open spec fn matches_filter(p: Post, category: Option<PostCategory>, published_only: bool) -> bool {
    &&& (category is Some ==> p.category == category->0)
    &&& (published_only ==> p.published)
}

/// The rows of `s` that pass the filter, newest first: `s` is in creation
/// order, so the listing walks it backwards.
pub open spec fn listed(s: Seq<Post>, category: Option<PostCategory>, published_only: bool) -> Seq<
    Post,
>
    decreases s.len(),
{
    if s.len() == 0 {
        Seq::empty()
    } else {
        let rest = listed(s.drop_last(), category, published_only);
        if matches_filter(s.last(), category, published_only) {
            seq![s.last()] + rest
        } else {
            rest
        }
    }
}

/// The page of `s` that starts `offset` rows in and holds at most `limit`
/// rows.
pub open spec fn page_of(s: Seq<Post>, offset: int, limit: int) -> Seq<Post>
    recommends
        offset >= 0,
        limit >= 0,
{
    if offset >= s.len() {
        Seq::empty()
    } else if offset + limit <= s.len() {
        s.subrange(offset, offset + limit)
    } else {
        s.subrange(offset, s.len() as int)
    }
}

/// The transition a successful create makes: the new record, built from the
/// input with a fresh id and the clock reading as both timestamps, is
/// appended to the posts table; nothing else changes but the id counter and
/// the clock.
pub open spec fn created_state(pre: Database, cur: Database, input: CreatePost, p: Post) -> bool {
    &&& input.validate_spec() is Ok
    &&& !pre.slug_taken(input.slug@)
    &&& p == created_record(input, pre.next_post_id, pre.clock)
    &&& cur.posts@ == pre.posts@.push(p)
    &&& cur.tags@ == pre.tags@
    &&& cur.post_tags@ == pre.post_tags@
    &&& cur.next_post_id == pre.next_post_id + 1
    &&& cur.next_tag_id == pre.next_tag_id
    &&& cur.clock == pre.clock + 1
}

/// The transition a successful full update makes: the row keeps its place,
/// id and creation time, and every other field comes from the input.
pub open spec fn updated_state(pre: Database, cur: Database, input: UpdatePost, p: Post) -> bool {
    &&& input.validate_spec() is Ok
    &&& !pre.slug_taken_by_other(input.slug@, input.id)
    &&& exists|j: int|
        {
            &&& 0 <= j < pre.posts@.len()
            &&& pre.posts@[j].id == input.id
            &&& p == updated_record(pre.posts@[j], input, pre.clock)
            &&& cur.posts@ == pre.posts@.update(j, p)
        }
    &&& cur.tags@ == pre.tags@
    &&& cur.post_tags@ == pre.post_tags@
    &&& cur.next_post_id == pre.next_post_id
    &&& cur.next_tag_id == pre.next_tag_id
    &&& cur.clock == pre.clock + 1
}

/// The transition a successful patch makes: the stored row is replaced by
/// the merge of the patch over it, in place. The fields the patch carries
/// passed validation.
pub open spec fn patched_state(pre: Database, cur: Database, patch: PatchPost, p: Post) -> bool {
    &&& patch.validate_spec() is Ok
    &&& exists|j: int|
        {
            &&& 0 <= j < pre.posts@.len()
            &&& pre.posts@[j].id == patch.id
            &&& !pre.slug_taken_by_other(merged_slug(pre.posts@[j], patch), patch.id)
            &&& p == merged_record(pre.posts@[j], patch, pre.clock)
            &&& cur.posts@ == pre.posts@.update(j, p)
        }
    &&& cur.tags@ == pre.tags@
    &&& cur.post_tags@ == pre.post_tags@
    &&& cur.next_post_id == pre.next_post_id
    &&& cur.next_tag_id == pre.next_tag_id
    &&& cur.clock == pre.clock + 1
}

/// The transition a successful delete makes: the row leaves the posts
/// table, and every association row referencing it leaves with it.
pub open spec fn deleted_state(pre: Database, cur: Database, id: i64) -> bool {
    &&& exists|j: int|
        {
            &&& 0 <= j < pre.posts@.len()
            &&& pre.posts@[j].id == id
            &&& cur.posts@ == pre.posts@.remove(j)
        }
    &&& cur.post_tags@ == pre.post_tags@.filter(keeps_post(id))
    &&& cur.tags@ == pre.tags@
    &&& cur.next_post_id == pre.next_post_id
    &&& cur.next_tag_id == pre.next_tag_id
    &&& cur.clock == pre.clock + 1
}

/// The association rows that survive deleting the post with id `id`.
pub open spec fn keeps_post(id: i64) -> spec_fn(PostTag) -> bool {
    |pt: PostTag| pt.post_id != id
}

/// Creating a post makes it immediately readable: after the create
/// transition, its id and slug are present, and any row found under either
/// key is exactly the created record — so `find_by_id` and `find_by_slug`
/// return it.
pub proof fn lemma_create_then_find(pre: Database, cur: Database, input: CreatePost, p: Post)
    requires
        pre.wf(),
        cur.wf(),
        created_state(pre, cur, input, p),
    ensures
        cur.has_post_id(p.id),
        cur.slug_taken(p.slug@),
        forall|j: int|
            0 <= j < cur.posts@.len() && cur.posts@[j].id == p.id ==> cur.posts@[j] == p,
        forall|j: int|
            0 <= j < cur.posts@.len() && cur.posts@[j].slug@ == p.slug@ ==> cur.posts@[j] == p,
{
    let n = cur.posts@.len() - 1;
    assert(cur.posts@[n] == p);
    assert forall|j: int|
        0 <= j < cur.posts@.len() && cur.posts@[j].id == p.id implies cur.posts@[j] == p by {
        if j < n {
            assert(cur.posts@[j].id != cur.posts@[n].id);
        }
    }
    assert forall|j: int|
        0 <= j < cur.posts@.len() && cur.posts@[j].slug@ == p.slug@ implies cur.posts@[j] == p by {
        if j < n {
            assert(cur.posts@[j].slug@ != cur.posts@[n].slug@);
        }
    }
}

/// After a post is created, its slug is taken: a second create that asks
/// for the same slug is refused as a duplicate by `create`'s contract, and
/// the store — the first record included — is then left unchanged.
pub proof fn lemma_duplicate_slug_rejected(
    pre: Database,
    cur: Database,
    input: CreatePost,
    p: Post,
    second: CreatePost,
)
    requires
        pre.wf(),
        cur.wf(),
        created_state(pre, cur, input, p),
        second.slug@ == input.slug@,
    ensures
        cur.slug_taken(second.slug@),
{
    let n = cur.posts@.len() - 1;
    assert(cur.posts@[n] == p);
    assert(cur.posts@[n].slug@ == second.slug@);
}

/// A patch that carries only a title changes only the title: every other
/// field and the id keep their stored values, and `updated_at` strictly
/// increases.
pub proof fn lemma_patch_title_only(pre: Database, cur: Database, patch: PatchPost, p: Post)
    requires
        pre.wf(),
        cur.wf(),
        patched_state(pre, cur, patch, p),
        patch.title is Some,
        patch.category is None,
        patch.slug is None,
        patch.content is None,
        patch.description is None,
        patch.image_url is None,
        patch.external_url is None,
        patch.published is None,
    ensures
        exists|j: int|
            {
                &&& 0 <= j < pre.posts@.len()
                &&& pre.posts@[j].id == patch.id
                &&& cur.posts@ == pre.posts@.update(j, p)
                &&& p.title == patch.title->0
                &&& p.id == pre.posts@[j].id
                &&& p.category == pre.posts@[j].category
                &&& p.slug == pre.posts@[j].slug
                &&& p.content == pre.posts@[j].content
                &&& p.description == pre.posts@[j].description
                &&& p.image_url == pre.posts@[j].image_url
                &&& p.external_url == pre.posts@[j].external_url
                &&& p.published == pre.posts@[j].published
                &&& p.created_at == pre.posts@[j].created_at
                &&& p.updated_at > pre.posts@[j].updated_at
            },
{
    let j = choose|j: int|
        {
            &&& 0 <= j < pre.posts@.len()
            &&& pre.posts@[j].id == patch.id
            &&& !pre.slug_taken_by_other(merged_slug(pre.posts@[j], patch), patch.id)
            &&& p == merged_record(pre.posts@[j], patch, pre.clock)
            &&& cur.posts@ == pre.posts@.update(j, p)
        };
    assert(pre.posts@[j].updated_at < pre.clock);
}

/// The index of the row carrying `id`, if any.
fn find_index_by_id(posts: &Vec<Post>, id: i64) -> (r: Option<usize>)
    ensures
        match r {
            Some(j) => 0 <= j < posts@.len() && posts@[j as int].id == id,
            None => forall|j: int| 0 <= j < posts@.len() ==> posts@[j].id != id,
        },
{
    let n = posts.len();
    let mut i: usize = 0;
    while i < n
        invariant
            0 <= i <= n,
            n == posts@.len(),
            forall|j: int| 0 <= j < i ==> posts@[j].id != id,
        decreases n - i,
    {
        if posts[i].id == id {
            return Some(i);
        }
        i = i + 1;
    }
    None
}

/// Whether any row carries `slug`.
fn any_slug(posts: &Vec<Post>, slug: &str) -> (r: bool)
    ensures
        r == exists|j: int| 0 <= j < posts@.len() && posts@[j].slug@ == slug@,
{
    let n = posts.len();
    let mut i: usize = 0;
    while i < n
        invariant
            0 <= i <= n,
            n == posts@.len(),
            forall|j: int| 0 <= j < i ==> posts@[j].slug@ != slug@,
        decreases n - i,
    {
        if str_eq(posts[i].slug.as_str(), slug) {
            return true;
        }
        i = i + 1;
    }
    false
}

/// Whether any row other than the one with id `id` carries `slug`.
fn any_slug_other(posts: &Vec<Post>, slug: &str, id: i64) -> (r: bool)
    ensures
        r == exists|j: int|
            0 <= j < posts@.len() && posts@[j].slug@ == slug@ && posts@[j].id != id,
{
    let n = posts.len();
    let mut i: usize = 0;
    while i < n
        invariant
            0 <= i <= n,
            n == posts@.len(),
            forall|j: int| 0 <= j < i ==> !(posts@[j].slug@ == slug@ && posts@[j].id != id),
        decreases n - i,
    {
        if posts[i].id != id && str_eq(posts[i].slug.as_str(), slug) {
            return true;
        }
        i = i + 1;
    }
    false
}

impl PostRepository {
    /// Validates the input, inserts a new row with a fresh id and timestamps,
    /// and returns the persisted record. A slug already in use is reported as
    /// `DuplicateEntry`; invalid fields as `Validation`. On any error the
    /// store is left unchanged.
    pub fn create(&self, db: &mut Database, post: CreatePost) -> (r: DatabaseResult<Post>)
        requires
            old(db).wf(),
            old(db).can_tick(),
        ensures
            final(db).wf(),
            match r {
                Ok(p) => created_state(*old(db), *final(db), post, p),
                Err(e) => {
                    &&& *final(db) == *old(db)
                    &&& match post.validate_spec() {
                        Err(pe) => is_validation(e, pe.message_spec()),
                        Ok(()) => {
                            &&& old(db).slug_taken(post.slug@)
                            &&& is_duplicate(e, "Post"@, post.slug@)
                        },
                    }
                },
            },
            (r is Ok) <==> (post.validate_spec() is Ok && !old(db).slug_taken(post.slug@)),
    {
        match post.validate() {
            Err(pe) => {
                return Err(DatabaseError::Validation(pe.message()));
            },
            Ok(()) => {},
        }
        if any_slug(&db.posts, post.slug.as_str()) {
            return Err(DatabaseError::duplicate("Post", post.slug.as_str()));
        }
        let id = db.next_post_id;
        let now = db.clock;
        let created = Post {
            id,
            category: post.category,
            title: post.title,
            slug: post.slug,
            content: post.content,
            description: post.description,
            image_url: post.image_url,
            external_url: post.external_url,
            published: post.published,
            created_at: now,
            updated_at: now,
        };
        let stored = created.clone();
        db.posts.push(stored);
        db.next_post_id = id + 1;
        db.clock = now + 1;
        proof {
            let s0 = old(db).posts@;
            assert(db.posts@ =~= s0.push(created));
            assert forall|i: int| 0 <= i < db.post_tags@.len() implies {
                db.has_post_id(db.post_tags@[i].post_id) && db.has_tag_id(db.post_tags@[i].tag_id)
            } by {
                assert(old(db).post_tags@[i] == db.post_tags@[i]);
                let pid = db.post_tags@[i].post_id;
                let j = choose|j: int| 0 <= j < s0.len() && s0[j].id == pid;
                assert(db.posts@[j].id == pid);
                let tid = db.post_tags@[i].tag_id;
                let tw = choose|tw: int| 0 <= tw < old(db).tags@.len() && old(db).tags@[tw].id == tid;
                assert(db.tags@[tw].id == tid);
            }
        }
        Ok(created)
    }

    /// Returns the row carrying `id`, or `NotFound`.
    pub fn find_by_id(&self, db: &Database, id: i64) -> (r: DatabaseResult<Post>)
        requires
            db.wf(),
        ensures
            match r {
                Ok(p) => exists|j: int|
                    0 <= j < db.posts@.len() && db.posts@[j].id == id && db.posts@[j] == p,
                Err(e) => {
                    &&& !db.has_post_id(id)
                    &&& is_not_found(e, "Post"@, dec_str(id as int))
                },
            },
            (r is Ok) <==> db.has_post_id(id),
    {
        match find_index_by_id(&db.posts, id) {
            Some(j) => Ok(db.posts[j].clone()),
            None => Err(DatabaseError::not_found("Post", i64_to_string(id).as_str())),
        }
    }

    /// Returns the row carrying `slug`, or `NotFound`.
    pub fn find_by_slug(&self, db: &Database, slug: &str) -> (r: DatabaseResult<Post>)
        requires
            db.wf(),
        ensures
            match r {
                Ok(p) => exists|j: int|
                    0 <= j < db.posts@.len() && db.posts@[j].slug@ == slug@ && db.posts@[j] == p,
                Err(e) => {
                    &&& !db.slug_taken(slug@)
                    &&& is_not_found(e, "Post"@, slug@)
                },
            },
            (r is Ok) <==> db.slug_taken(slug@),
    {
        let n = db.posts.len();
        let mut i: usize = 0;
        while i < n
            invariant
                0 <= i <= n,
                n == db.posts@.len(),
                forall|j: int| 0 <= j < i ==> db.posts@[j].slug@ != slug@,
            decreases n - i,
        {
            if str_eq(db.posts[i].slug.as_str(), slug) {
                return Ok(db.posts[i].clone());
            }
            i = i + 1;
        }
        Err(DatabaseError::not_found("Post", slug))
    }

    /// Lists posts, newest first, filtered by category and publication state,
    /// with pagination. A limit outside `[1, 100]` or a negative offset is a
    /// `Validation` error; at most `limit` rows come back.
    pub fn list(
        &self,
        db: &Database,
        category: Option<PostCategory>,
        published_only: bool,
        limit: i64,
        offset: i64,
    ) -> (r: DatabaseResult<Vec<Post>>)
        requires
            db.wf(),
        ensures
            match r {
                Ok(v) => {
                    &&& 1 <= limit <= 100
                    &&& offset >= 0
                    &&& v@ == page_of(
                        listed(db.posts@, category, published_only),
                        offset as int,
                        limit as int,
                    )
                    &&& v@.len() <= limit
                },
                Err(e) => {
                    &&& (limit <= 0 || limit > 100 || offset < 0)
                    &&& if limit <= 0 || limit > 100 {
                        is_validation(e, "Limit must be between 1 and 100"@)
                    } else {
                        is_validation(e, "Offset cannot be negative"@)
                    }
                },
            },
            (r is Ok) <==> (1 <= limit <= 100 && offset >= 0),
    {
        if limit <= 0 || limit > 100 {
            return Err(DatabaseError::validation("Limit must be between 1 and 100"));
        }
        if offset < 0 {
            return Err(DatabaseError::validation("Offset cannot be negative"));
        }
        let ghost full = listed(db.posts@, category, published_only);
        let n = db.posts.len();
        let mut flt: Vec<Post> = Vec::new();
        let mut i: usize = n;
        proof {
            assert(db.posts@.take(n as int) =~= db.posts@);
        }
        while i > 0
            invariant
                0 <= i <= n,
                n == db.posts@.len(),
                full == listed(db.posts@, category, published_only),
                full == flt@ + listed(db.posts@.take(i as int), category, published_only),
            decreases i,
        {
            i = i - 1;
            proof {
                assert(db.posts@.take(i + 1).drop_last() =~= db.posts@.take(i as int));
                assert(db.posts@.take(i + 1).last() == db.posts@[i as int]);
            }
            let p = &db.posts[i];
            let cat_ok = match category {
                None => true,
                Some(c) => p.category == c,
            };
            let keep = cat_ok && (!published_only || p.published);
            if keep {
                flt.push(p.clone());
                proof {
                    assert(full =~= flt@ + listed(db.posts@.take(i as int), category, published_only));
                }
            }
        }
        proof {
            assert(db.posts@.take(0) =~= Seq::<Post>::empty());
            assert(full =~= flt@);
        }
        let total = flt.len();
        if offset as u64 >= total as u64 {
            let empty_page: Vec<Post> = Vec::new();
            return Ok(empty_page);
        }
        let start = offset as usize;
        let lim = limit as usize;
        let end = if total - start < lim {
            total
        } else {
            start + lim
        };
        let mut out: Vec<Post> = Vec::new();
        let mut j: usize = start;
        while j < end
            invariant
                start <= j <= end <= total,
                total == flt@.len(),
                out@ == flt@.subrange(start as int, j as int),
            decreases end - j,
        {
            out.push(flt[j].clone());
            proof {
                assert(out@ =~= flt@.subrange(start as int, j + 1));
            }
            j = j + 1;
        }
        proof {
            assert(out@ == flt@.subrange(start as int, end as int));
            assert(out@ =~= page_of(full, offset as int, limit as int));
        }
        Ok(out)
    }

    /// Replaces every mutable field of the row carrying `post.id`, bumping
    /// `updated_at`. Missing rows are `NotFound`; a slug held by a different
    /// row is `DuplicateEntry`; invalid fields are `Validation`. On any error
    /// the store is left unchanged.
    pub fn update(&self, db: &mut Database, post: UpdatePost) -> (r: DatabaseResult<Post>)
        requires
            old(db).wf(),
            old(db).can_tick(),
        ensures
            final(db).wf(),
            match r {
                Ok(p) => updated_state(*old(db), *final(db), post, p),
                Err(e) => {
                    &&& *final(db) == *old(db)
                    &&& match post.validate_spec() {
                        Err(pe) => is_validation(e, pe.message_spec()),
                        Ok(()) => {
                            if !old(db).has_post_id(post.id) {
                                is_not_found(e, "Post"@, dec_str(post.id as int))
                            } else {
                                &&& old(db).slug_taken_by_other(post.slug@, post.id)
                                &&& is_duplicate(e, "Post"@, post.slug@)
                            }
                        },
                    }
                },
            },
            (r is Ok) <==> (post.validate_spec() is Ok && old(db).has_post_id(post.id)
                && !old(db).slug_taken_by_other(post.slug@, post.id)),
    {
        match post.validate() {
            Err(pe) => {
                return Err(DatabaseError::Validation(pe.message()));
            },
            Ok(()) => {},
        }
        let j = match find_index_by_id(&db.posts, post.id) {
            None => {
                return Err(DatabaseError::not_found("Post", i64_to_string(post.id).as_str()));
            },
            Some(j) => j,
        };
        if any_slug_other(&db.posts, post.slug.as_str(), post.id) {
            return Err(DatabaseError::duplicate("Post", post.slug.as_str()));
        }
        let now = db.clock;
        let created_at = db.posts[j].created_at;
        let newp = Post {
            id: post.id,
            category: post.category,
            title: post.title,
            slug: post.slug,
            content: post.content,
            description: post.description,
            image_url: post.image_url,
            external_url: post.external_url,
            published: post.published,
            created_at,
            updated_at: now,
        };
        let stored = newp.clone();
        db.posts[j] = stored;
        db.clock = now + 1;
        proof {
            let s0 = old(db).posts@;
            assert(db.posts@ =~= s0.update(j as int, newp));
            assert(s0[j as int].id == post.id);
            assert forall|i: int| 0 <= i < db.post_tags@.len() implies {
                db.has_post_id(db.post_tags@[i].post_id) && db.has_tag_id(db.post_tags@[i].tag_id)
            } by {
                assert(old(db).post_tags@[i] == db.post_tags@[i]);
                let pid = db.post_tags@[i].post_id;
                let k = choose|k: int| 0 <= k < s0.len() && s0[k].id == pid;
                assert(db.posts@[k].id == pid);
                let tid = db.post_tags@[i].tag_id;
                let tw = choose|tw: int| 0 <= tw < old(db).tags@.len() && old(db).tags@[tw].id == tid;
                assert(db.tags@[tw].id == tid);
            }
        }
        Ok(newp)
    }

    /// Validates the fields the patch carries, reads the row carrying
    /// `patch.id`, merges every present field over it, writes the merged row
    /// back and bumps `updated_at`; read and write form one transition, so
    /// no concurrent update can slip in between. Invalid present fields are
    /// `Validation`; missing rows are `NotFound`; a merged slug held by a
    /// different row is `DuplicateEntry`. On any error the store is left
    /// unchanged.
    pub fn patch(&self, db: &mut Database, patch: PatchPost) -> (r: DatabaseResult<Post>)
        requires
            old(db).wf(),
            old(db).can_tick(),
        ensures
            final(db).wf(),
            match r {
                Ok(p) => patched_state(*old(db), *final(db), patch, p),
                Err(e) => {
                    &&& *final(db) == *old(db)
                    &&& match patch.validate_spec() {
                        Err(pe) => is_validation(e, pe.message_spec()),
                        Ok(()) => {
                            if !old(db).has_post_id(patch.id) {
                                is_not_found(e, "Post"@, dec_str(patch.id as int))
                            } else {
                                &&& patch.slug is Some
                                &&& old(db).slug_taken_by_other(patch.slug->0@, patch.id)
                                &&& is_duplicate(e, "Post"@, patch.slug->0@)
                            }
                        },
                    }
                },
            },
            (r is Ok) <==> (patch.validate_spec() is Ok && old(db).has_post_id(patch.id) && (
            patch.slug is Some ==> !old(db).slug_taken_by_other(patch.slug->0@, patch.id))),
    {
        match patch.validate() {
            Err(pe) => {
                return Err(DatabaseError::Validation(pe.message()));
            },
            Ok(()) => {},
        }
        let j = match find_index_by_id(&db.posts, patch.id) {
            None => {
                return Err(DatabaseError::not_found("Post", i64_to_string(patch.id).as_str()));
            },
            Some(j) => j,
        };
        if let Some(s) = &patch.slug {
            if any_slug_other(&db.posts, s.as_str(), patch.id) {
                return Err(DatabaseError::duplicate("Post", s.as_str()));
            }
        }
        let now = db.clock;
        let cur = &db.posts[j];
        let newp = Post {
            id: cur.id,
            category: match patch.category {
                Some(c) => c,
                None => cur.category,
            },
            title: match &patch.title {
                Some(t) => t.clone(),
                None => cur.title.clone(),
            },
            slug: match &patch.slug {
                Some(s) => s.clone(),
                None => cur.slug.clone(),
            },
            content: match &patch.content {
                Some(c) => c.clone(),
                None => cur.content.clone(),
            },
            description: match &patch.description {
                Some(d) => d.clone(),
                None => cur.description.clone(),
            },
            image_url: match &patch.image_url {
                Some(u) => Some(u.clone()),
                None => clone_opt_string(&cur.image_url),
            },
            external_url: match &patch.external_url {
                Some(u) => Some(u.clone()),
                None => clone_opt_string(&cur.external_url),
            },
            published: match patch.published {
                Some(b) => b,
                None => cur.published,
            },
            created_at: cur.created_at,
            updated_at: now,
        };
        let stored = newp.clone();
        db.posts[j] = stored;
        db.clock = now + 1;
        proof {
            let s0 = old(db).posts@;
            assert(newp == merged_record(s0[j as int], patch, old(db).clock));
            assert(db.posts@ =~= s0.update(j as int, newp));
            assert(s0[j as int].id == patch.id);
            assert forall|i: int| 0 <= i < db.post_tags@.len() implies {
                db.has_post_id(db.post_tags@[i].post_id) && db.has_tag_id(db.post_tags@[i].tag_id)
            } by {
                assert(old(db).post_tags@[i] == db.post_tags@[i]);
                let pid = db.post_tags@[i].post_id;
                let k = choose|k: int| 0 <= k < s0.len() && s0[k].id == pid;
                assert(db.posts@[k].id == pid);
                let tid = db.post_tags@[i].tag_id;
                let tw = choose|tw: int| 0 <= tw < old(db).tags@.len() && old(db).tags@[tw].id == tid;
                assert(db.tags@[tw].id == tid);
            }
            if patch.slug is None {
                assert forall|k: int|
                    0 <= k < s0.len() && s0[k].slug@ == merged_slug(s0[j as int], patch) implies s0[k].id
                    == patch.id by {
                    if k != j {
                        assert(s0[k].slug@ != s0[j as int].slug@);
                    }
                }
            }
        }
        Ok(newp)
    }

    /// Deletes the row carrying `id`; the store's referential-integrity rule
    /// removes every association of the post in the same transition. Missing
    /// rows are `NotFound`, leaving the store unchanged.
    pub fn delete(&self, db: &mut Database, id: i64) -> (r: DatabaseResult<()>)
        requires
            old(db).wf(),
            old(db).can_tick(),
        ensures
            final(db).wf(),
            match r {
                Ok(()) => deleted_state(*old(db), *final(db), id),
                Err(e) => {
                    &&& *final(db) == *old(db)
                    &&& !old(db).has_post_id(id)
                    &&& is_not_found(e, "Post"@, dec_str(id as int))
                },
            },
            (r is Ok) <==> old(db).has_post_id(id),
    {
        let j = match find_index_by_id(&db.posts, id) {
            None => {
                return Err(DatabaseError::not_found("Post", i64_to_string(id).as_str()));
            },
            Some(j) => j,
        };
        db.posts.remove(j);
        let ghost f = keeps_post(id);
        let m = db.post_tags.len();
        let mut kept: Vec<PostTag> = Vec::new();
        let mut k: usize = 0;
        proof {
            reveal(Seq::filter);
        }
        while k < m
            invariant
                0 <= k <= m,
                m == db.post_tags@.len(),
                f == keeps_post(id),
                kept@ == db.post_tags@.take(k as int).filter(f),
            decreases m - k,
        {
            proof {
                reveal(Seq::filter);
                assert(db.post_tags@.take(k + 1).drop_last() =~= db.post_tags@.take(k as int));
                assert(db.post_tags@.take(k + 1).last() == db.post_tags@[k as int]);
            }
            let pt = db.post_tags[k];
            if pt.post_id != id {
                kept.push(pt);
            }
            k = k + 1;
        }
        proof {
            assert(db.post_tags@.take(m as int) =~= db.post_tags@);
        }
        db.post_tags = kept;
        db.clock = db.clock + 1;
        proof {
            let s0 = old(db).posts@;
            let t0 = old(db).post_tags@;
            assert(db.posts@ =~= s0.remove(j as int));
            let f = keeps_post(id);
            assert(db.post_tags@ == t0.filter(f));
            broadcast use vstd::seq_lib::group_filter_ensures;
            crate::seqs::lemma_filter_sub(t0, f);
            crate::seqs::lemma_filter_distinct(t0, f);
            assert forall|i: int| 0 <= i < db.post_tags@.len() implies {
                db.has_post_id(db.post_tags@[i].post_id) && db.has_tag_id(db.post_tags@[i].tag_id)
            } by {
                let pt = db.post_tags@[i];
                assert(t0.contains(pt));
                assert(f(pt));
                let w = choose|w: int| 0 <= w < t0.len() && t0[w] == pt;
                assert(t0[w] == pt);
                assert(old(db).has_post_id(pt.post_id));
                assert(old(db).has_tag_id(pt.tag_id));
                let a = choose|a: int| 0 <= a < s0.len() && s0[a].id == pt.post_id;
                assert(pt.post_id != id);
                assert(a != j);
                if a < j {
                    assert(db.posts@[a].id == pt.post_id);
                } else {
                    assert(db.posts@[a - 1].id == pt.post_id);
                }
                let tid = pt.tag_id;
                let tw = choose|tw: int| 0 <= tw < old(db).tags@.len() && old(db).tags@[tw].id == tid;
                assert(db.tags@[tw].id == tid);
            }
        }
        Ok(())
    }
}

} // verus!
