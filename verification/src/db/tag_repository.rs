//! The tag repository: create, read, update, delete and list over the tags
//! table of a [`Database`] value, and the management of post-tag
//! associations.

use vstd::prelude::*;

use crate::db::connection::{Database, PostTag};
use crate::db::error::{
    is_duplicate, is_not_found, is_validation, DatabaseError, DatabaseResult,
};
use crate::models::post::Post;
use crate::models::tag::{Tag, TagWithPostCount};
use crate::text::{
    dec_str, i64_to_string, is_blank, is_blank_str, lemma_lex_irrefl, lemma_lex_total,
    lemma_lex_trans, lex_lt, str_eq, str_lt, trim, trim_of,
};

verus! {

/// The operations on tags and on post-tag associations. The store value
/// itself is passed to each call.
#[derive(Clone, Copy, Debug, PartialEq, Eq, Structural)]
pub struct TagRepository {}

/// The association rows that survive deleting the tag with id `id`.
pub open spec fn keeps_tag(id: i64) -> spec_fn(PostTag) -> bool {
    |pt: PostTag| pt.tag_id != id
}

/// The tags of `db` that are attached to the post with id `post_id`.
pub open spec fn attached_to(db: Database, post_id: i64) -> spec_fn(Tag) -> bool {
    |t: Tag| db.has_assoc(post_id, t.id)
}

/// The transition a successful tag create makes: a row carrying the
/// trimmed name, a fresh id and the clock reading enters the table at its
/// place in name order; nothing else changes but the id counter and the
/// clock.
pub open spec fn created_tag_state(pre: Database, cur: Database, name: Seq<char>, t: Tag) -> bool {
    &&& !is_blank(name)
    &&& !pre.tag_name_taken(trim_of(name))
    &&& t.id == pre.next_tag_id
    &&& t.name@ == trim_of(name)
    &&& t.created_at == pre.clock
    &&& exists|k: int| 0 <= k <= pre.tags@.len() && cur.tags@ == pre.tags@.insert(k, t)
    &&& cur.posts@ == pre.posts@
    &&& cur.post_tags@ == pre.post_tags@
    &&& cur.next_tag_id == pre.next_tag_id + 1
    &&& cur.next_post_id == pre.next_post_id
    &&& cur.clock == pre.clock + 1
}

/// The transition a successful rename makes: the row keeps its id and
/// creation time, carries the trimmed new name, and moves to its place in
/// name order; nothing else changes but the clock.
pub open spec fn renamed_state(pre: Database, post: Database, id: i64, new_name: Seq<char>, t: Tag) -> bool {
    &&& t.id == id
    &&& t.name@ == trim_of(new_name)
    &&& exists|j: int, k: int|
        {
            &&& 0 <= j < pre.tags@.len()
            &&& pre.tags@[j].id == id
            &&& t.created_at == pre.tags@[j].created_at
            &&& 0 <= k <= pre.tags@.len() - 1
            &&& post.tags@ == pre.tags@.remove(j).insert(k, t)
        }
    &&& post.posts@ == pre.posts@
    &&& post.post_tags@ == pre.post_tags@
    &&& post.next_post_id == pre.next_post_id
    &&& post.next_tag_id == pre.next_tag_id
    &&& post.clock == pre.clock + 1
}

/// How many association rows of `s` carry the tag id `tid`.
pub open spec fn count_matching(s: Seq<PostTag>, tid: i64) -> int
    decreases s.len(),
{
    if s.len() == 0 {
        0
    } else {
        count_matching(s.drop_last(), tid) + if s.last().tag_id == tid {
            1int
        } else {
            0int
        }
    }
}

/// The number of matching rows lies between zero and the row count.
pub proof fn lemma_count_matching_bounds(s: Seq<PostTag>, tid: i64)
    ensures
        0 <= count_matching(s, tid) <= s.len(),
    decreases s.len(),
{
    if s.len() > 0 {
        lemma_count_matching_bounds(s.drop_last(), tid);
    }
}

/// The message identifying an association: the two ids, comma-separated.
pub open spec fn assoc_ident(post_id: i64, tag_id: i64) -> Seq<char> {
    dec_str(post_id as int) + ", "@ + dec_str(tag_id as int)
}

/// Renders the two ids of an association as `"<post_id>, <tag_id>"`.
fn assoc_ident_string(post_id: i64, tag_id: i64) -> (r: String)
    ensures
        r@ == assoc_ident(post_id, tag_id),
{
    i64_to_string(post_id).concat(", ").concat(i64_to_string(tag_id).as_str())
}

/// Deleting a post leaves no association behind it: afterwards no
/// association row carries its id, and the tag listing for that id is
/// empty rather than an error.
pub proof fn lemma_delete_post_cascades(pre: Database, cur: Database, id: i64)
    requires
        pre.wf(),
        cur.wf(),
        crate::db::post_repository::deleted_state(pre, cur, id),
    ensures
        forall|i: int| 0 <= i < cur.post_tags@.len() ==> cur.post_tags@[i].post_id != id,
        cur.tags@.filter(attached_to(cur, id)) =~= Seq::<Tag>::empty(),
{
    let f = crate::db::post_repository::keeps_post(id);
    broadcast use vstd::seq_lib::group_filter_ensures;

    assert forall|i: int| 0 <= i < cur.post_tags@.len() implies cur.post_tags@[i].post_id
        != id by {
        assert(f(cur.post_tags@[i]));
    }
    let g = attached_to(cur, id);
    let out = cur.tags@.filter(g);
    if out.len() > 0 {
        assert(g(out[0]));
        assert(cur.has_assoc(id, out[0].id));
        let w = choose|w: int|
            0 <= w < cur.post_tags@.len() && cur.post_tags@[w] == (PostTag {
                post_id: id,
                tag_id: out[0].id,
            });
        assert(cur.post_tags@[w].post_id == id);
        assert(false);
    }
    assert(out =~= Seq::<Tag>::empty());
}

/// A tag is stored under the trimmed form of the requested name: after the
/// create transition that trimmed name is present, and any row carrying it
/// is exactly the created record — so `find_by_name` on the trimmed name
/// returns it, and `create`'s contract refuses the name from then on.
pub proof fn lemma_tag_create_then_find(pre: Database, cur: Database, name: Seq<char>, t: Tag)
    requires
        pre.wf(),
        cur.wf(),
        created_tag_state(pre, cur, name, t),
    ensures
        t.name@ == trim_of(name),
        cur.tag_name_taken(trim_of(name)),
        forall|j: int|
            0 <= j < cur.tags@.len() && cur.tags@[j].name@ == trim_of(name) ==> cur.tags@[j] == t,
{
    let k = choose|k: int| 0 <= k <= pre.tags@.len() && cur.tags@ == pre.tags@.insert(k, t);
    pre.tags@.insert_ensures(k, t);
    assert(cur.tags@[k] == t);
    assert forall|j: int|
        0 <= j < cur.tags@.len() && cur.tags@[j].name@ == trim_of(name) implies cur.tags@[j]
        == t by {
        if j < k {
            assert(lex_lt(cur.tags@[j].name@, cur.tags@[k].name@));
            lemma_lex_irrefl(trim_of(name));
        } else if j > k {
            assert(lex_lt(cur.tags@[k].name@, cur.tags@[j].name@));
            lemma_lex_irrefl(trim_of(name));
        }
    }
}

/// A name whose trimmed form is already stored is not blank: stored names
/// are non-empty, so by `create`'s contract such a request is refused as
/// `DuplicateEntry`, never as empty input.
pub proof fn lemma_taken_name_not_blank(db: Database, name: Seq<char>)
    requires
        db.wf(),
        db.tag_name_taken(trim_of(name)),
    ensures
        !is_blank(name),
{
    let j = choose|j: int| 0 <= j < db.tags@.len() && db.tags@[j].name@ == trim_of(name);
    assert(db.tags@[j].name@.len() > 0);
    if is_blank(name) {
        crate::text::lemma_blank_trims_empty(name);
    }
}

/// The index of the tag carrying `id`, if any.
fn find_tag_index_by_id(tags: &Vec<Tag>, id: i64) -> (r: Option<usize>)
    ensures
        match r {
            Some(j) => 0 <= j < tags@.len() && tags@[j as int].id == id,
            None => forall|j: int| 0 <= j < tags@.len() ==> tags@[j].id != id,
        },
{
    let n = tags.len();
    let mut i: usize = 0;
    while i < n
        invariant
            0 <= i <= n,
            n == tags@.len(),
            forall|j: int| 0 <= j < i ==> tags@[j].id != id,
        decreases n - i,
    {
        if tags[i].id == id {
            return Some(i);
        }
        i = i + 1;
    }
    None
}

/// Whether any post row carries `id`.
fn any_post_with_id(posts: &Vec<Post>, id: i64) -> (r: bool)
    ensures
        r == exists|j: int| 0 <= j < posts@.len() && posts@[j].id == id,
{
    let n = posts.len();
    let mut i: usize = 0;
    while i < n
        invariant
            0 <= i <= n,
            n == posts@.len(),
            forall|j: int| 0 <= j < i ==> posts@[j].id != id,
        decreases n - i,
    {
        if posts[i].id == id {
            return true;
        }
        i = i + 1;
    }
    false
}

/// The index of the association row for the pair, if any.
fn find_assoc_index(pts: &Vec<PostTag>, post_id: i64, tag_id: i64) -> (r: Option<usize>)
    ensures
        match r {
            Some(j) => 0 <= j < pts@.len() && pts@[j as int] == (PostTag { post_id, tag_id }),
            None => forall|j: int| 0 <= j < pts@.len() ==> pts@[j] != (PostTag { post_id, tag_id }),
        },
{
    let n = pts.len();
    let mut i: usize = 0;
    while i < n
        invariant
            0 <= i <= n,
            n == pts@.len(),
            forall|j: int| 0 <= j < i ==> pts@[j] != (PostTag { post_id, tag_id }),
        decreases n - i,
    {
        if pts[i].post_id == post_id && pts[i].tag_id == tag_id {
            return Some(i);
        }
        i = i + 1;
    }
    None
}

/// Whether any tag other than the one with id `id` carries `name`.
fn any_name_other(tags: &Vec<Tag>, name: &str, id: i64) -> (r: bool)
    ensures
        r == exists|j: int|
            0 <= j < tags@.len() && tags@[j].name@ == name@ && tags@[j].id != id,
{
    let n = tags.len();
    let mut i: usize = 0;
    while i < n
        invariant
            0 <= i <= n,
            n == tags@.len(),
            forall|j: int| 0 <= j < i ==> !(tags@[j].name@ == name@ && tags@[j].id != id),
        decreases n - i,
    {
        if tags[i].id != id && str_eq(tags[i].name.as_str(), name) {
            return true;
        }
        i = i + 1;
    }
    false
}

/// Counts the association rows carrying `tid`.
fn count_assocs(pts: &Vec<PostTag>, tid: i64) -> (r: usize)
    ensures
        r == count_matching(pts@, tid),
{
    let n = pts.len();
    let mut cnt: usize = 0;
    let mut i: usize = 0;
    proof {
        assert(pts@.take(0) =~= Seq::<PostTag>::empty());
        lemma_count_matching_bounds(pts@, tid);
    }
    while i < n
        invariant
            0 <= i <= n,
            n == pts@.len(),
            cnt == count_matching(pts@.take(i as int), tid),
            cnt <= i,
        decreases n - i,
    {
        proof {
            assert(pts@.take(i + 1).drop_last() =~= pts@.take(i as int));
            assert(pts@.take(i + 1).last() == pts@[i as int]);
        }
        if pts[i].tag_id == tid {
            cnt = cnt + 1;
        }
        i = i + 1;
    }
    proof {
        assert(pts@.take(n as int) =~= pts@);
    }
    cnt
}

/// Finds the position where a tag named `name` belongs in the sorted table:
/// every earlier name is strictly below `name`, and if the name itself is
/// present, the position is its row's.
fn find_name_position(tags: &Vec<Tag>, name: &str) -> (k: usize)
    requires
        forall|a: int, b: int|
            #![trigger tags@[a], tags@[b]]
            0 <= a < b < tags@.len() ==> lex_lt(tags@[a].name@, tags@[b].name@),
    ensures
        0 <= k <= tags@.len(),
        forall|j: int| 0 <= j < k ==> lex_lt(#[trigger] tags@[j].name@, name@),
        k < tags@.len() ==> !lex_lt(tags@[k as int].name@, name@),
{
    let n = tags.len();
    let mut k: usize = 0;
    while k < n && str_lt(tags[k].name.as_str(), name)
        invariant
            0 <= k <= n,
            n == tags@.len(),
            forall|j: int| 0 <= j < k ==> lex_lt(#[trigger] tags@[j].name@, name@),
        decreases n - k,
    {
        k = k + 1;
    }
    k
}

impl TagRepository {
    /// Trims `name` and inserts it as a new tag; the stored name is the
    /// trimmed form. A blank name is a `Validation` error and a name already
    /// stored is `DuplicateEntry`. On any error the store is left unchanged.
    pub fn create(&self, db: &mut Database, name: &str) -> (r: DatabaseResult<Tag>)
        requires
            old(db).wf(),
            old(db).can_tick(),
        ensures
            final(db).wf(),
            match r {
                Ok(t) => created_tag_state(*old(db), *final(db), name@, t),
                Err(e) => {
                    &&& *final(db) == *old(db)
                    &&& if is_blank(name@) {
                        is_validation(e, "Tag name cannot be empty"@)
                    } else {
                        &&& old(db).tag_name_taken(trim_of(name@))
                        &&& is_duplicate(e, "Tag"@, name@)
                    }
                },
            },
            (r is Ok) <==> (!is_blank(name@) && !old(db).tag_name_taken(trim_of(name@))),
    {
        if is_blank_str(name) {
            return Err(DatabaseError::validation("Tag name cannot be empty"));
        }
        let trimmed = trim(name);
        let k = find_name_position(&db.tags, trimmed.as_str());
        if k < db.tags.len() && str_eq(db.tags[k].name.as_str(), trimmed.as_str()) {
            return Err(DatabaseError::duplicate("Tag", name));
        }
        proof {
            let s0 = db.tags@;
            let tr = trim_of(name@);
            if k < s0.len() {
                lemma_lex_total(tr, s0[k as int].name@);
            }
            assert forall|j: int| 0 <= j < s0.len() implies s0[j].name@ != tr by {
                if j < k {
                    if s0[j].name@ == tr {
                        lemma_lex_irrefl(tr);
                    }
                } else {
                    assert(lex_lt(tr, s0[k as int].name@));
                    if j > k {
                        lemma_lex_trans(tr, s0[k as int].name@, s0[j].name@);
                    }
                    if s0[j].name@ == tr {
                        lemma_lex_irrefl(tr);
                    }
                }
            }
        }
        let id = db.next_tag_id;
        let now = db.clock;
        let t = Tag { id, name: trimmed, created_at: now };
        let stored = t.clone();
        db.tags.insert(k, stored);
        db.next_tag_id = id + 1;
        db.clock = now + 1;
        proof {
            let s0 = old(db).tags@;
            let tr = trim_of(name@);
            crate::text::lemma_nonblank_trims_nonempty(name@);
            crate::text::lemma_trim_idempotent(name@);
            s0.insert_ensures(k as int, t);
            assert(db.tags@ == s0.insert(k as int, t));
            assert forall|i: int|
                #![trigger db.tags@[i]]
                0 <= i < db.tags@.len() implies {
                &&& db.tags@[i].name@.len() > 0
                &&& db.tags@[i].name@ == trim_of(db.tags@[i].name@)
            } by {
                if i == k {
                    assert(db.tags@[i] == t);
                } else if i < k {
                    assert(db.tags@[i] == s0[i]);
                } else {
                    assert(db.tags@[i] == s0[i - 1]);
                }
            }
            assert forall|a: int, b: int|
                #![trigger db.tags@[a], db.tags@[b]]
                0 <= a < b < db.tags@.len() implies {
                db.tags@[a].id != db.tags@[b].id && lex_lt(db.tags@[a].name@, db.tags@[b].name@)
            } by {
                if a == k {
                    assert(db.tags@[a] == t);
                    assert(db.tags@[b] == s0[b - 1]);
                    assert(lex_lt(tr, s0[k as int].name@));
                    if b - 1 > k {
                        lemma_lex_trans(tr, s0[k as int].name@, s0[b - 1].name@);
                    }
                } else if b == k {
                    assert(db.tags@[a] == s0[a]);
                    assert(db.tags@[b] == t);
                } else if a < k && b > k {
                    assert(db.tags@[a] == s0[a]);
                    assert(db.tags@[b] == s0[b - 1]);
                    if a == b - 1 {
                        assert(lex_lt(s0[a].name@, tr));
                        assert(lex_lt(tr, s0[k as int].name@));
                    }
                } else if b < k {
                    assert(db.tags@[a] == s0[a]);
                    assert(db.tags@[b] == s0[b]);
                } else {
                    assert(db.tags@[a] == s0[a - 1]);
                    assert(db.tags@[b] == s0[b - 1]);
                }
            }
            assert forall|i: int| 0 <= i < db.post_tags@.len() implies {
                db.has_post_id(db.post_tags@[i].post_id) && db.has_tag_id(db.post_tags@[i].tag_id)
            } by {
                assert(old(db).post_tags@[i] == db.post_tags@[i]);
                let pid = db.post_tags@[i].post_id;
                let pw = choose|pw: int|
                    0 <= pw < old(db).posts@.len() && old(db).posts@[pw].id == pid;
                assert(db.posts@[pw].id == pid);
                let tid = db.post_tags@[i].tag_id;
                let tw = choose|tw: int| 0 <= tw < s0.len() && s0[tw].id == tid;
                if tw < k {
                    assert(db.tags@[tw].id == tid);
                } else {
                    assert(db.tags@[tw + 1].id == tid);
                }
            }
        }
        Ok(t)
    }

    /// Returns the tag carrying `id`, or `NotFound`.
    pub fn find_by_id(&self, db: &Database, id: i64) -> (r: DatabaseResult<Tag>)
        requires
            db.wf(),
        ensures
            match r {
                Ok(t) => exists|j: int|
                    0 <= j < db.tags@.len() && db.tags@[j].id == id && db.tags@[j] == t,
                Err(e) => {
                    &&& !db.has_tag_id(id)
                    &&& is_not_found(e, "Tag"@, dec_str(id as int))
                },
            },
            (r is Ok) <==> db.has_tag_id(id),
    {
        match find_tag_index_by_id(&db.tags, id) {
            Some(j) => Ok(db.tags[j].clone()),
            None => Err(DatabaseError::not_found("Tag", i64_to_string(id).as_str())),
        }
    }

    /// Returns the tag whose stored name is exactly `name`, or `NotFound`.
    /// The query is not trimmed: only the stored, trimmed form matches.
    pub fn find_by_name(&self, db: &Database, name: &str) -> (r: DatabaseResult<Tag>)
        requires
            db.wf(),
        ensures
            match r {
                Ok(t) => exists|j: int|
                    0 <= j < db.tags@.len() && db.tags@[j].name@ == name@ && db.tags@[j] == t,
                Err(e) => {
                    &&& !db.tag_name_taken(name@)
                    &&& is_not_found(e, "Tag"@, name@)
                },
            },
            (r is Ok) <==> db.tag_name_taken(name@),
    {
        let n = db.tags.len();
        let mut i: usize = 0;
        while i < n
            invariant
                0 <= i <= n,
                n == db.tags@.len(),
                forall|j: int| 0 <= j < i ==> db.tags@[j].name@ != name@,
            decreases n - i,
        {
            if str_eq(db.tags[i].name.as_str(), name) {
                return Ok(db.tags[i].clone());
            }
            i = i + 1;
        }
        Err(DatabaseError::not_found("Tag", name))
    }

    /// Lists every tag in name order. When `include_post_count` is set, each
    /// entry carries the number of posts the tag is attached to; otherwise
    /// the count is reported as zero, as the plain listing does.
    pub fn list(&self, db: &Database, include_post_count: bool) -> (r: DatabaseResult<
        Vec<TagWithPostCount>,
    >)
        requires
            db.wf(),
        ensures
            r is Ok,
            match r {
                Ok(v) => {
                    &&& v@.len() == db.tags@.len()
                    &&& forall|i: int|
                        #![trigger v@[i]]
                        0 <= i < v@.len() ==> {
                            &&& v@[i].id == db.tags@[i].id
                            &&& v@[i].name@ == db.tags@[i].name@
                            &&& v@[i].created_at == db.tags@[i].created_at
                            &&& v@[i].post_count == if include_post_count {
                                count_matching(db.post_tags@, db.tags@[i].id)
                            } else {
                                0
                            }
                        }
                },
                Err(e) => false,
            },
    {
        let n = db.tags.len();
        let mut out: Vec<TagWithPostCount> = Vec::new();
        let mut i: usize = 0;
        while i < n
            invariant
                0 <= i <= n,
                n == db.tags@.len(),
                db.wf(),
                out@.len() == i,
                forall|j: int|
                    #![trigger out@[j]]
                    0 <= j < i ==> {
                        &&& out@[j].id == db.tags@[j].id
                        &&& out@[j].name@ == db.tags@[j].name@
                        &&& out@[j].created_at == db.tags@[j].created_at
                        &&& out@[j].post_count == if include_post_count {
                            count_matching(db.post_tags@, db.tags@[j].id)
                        } else {
                            0
                        }
                    },
            decreases n - i,
        {
            let count: i64 = if include_post_count {
                proof {
                    lemma_count_matching_bounds(db.post_tags@, db.tags@[i as int].id);
                }
                let c = count_assocs(&db.post_tags, db.tags[i].id);
                c as i64
            } else {
                0
            };
            let t = &db.tags[i];
            out.push(
                TagWithPostCount {
                    id: t.id,
                    name: t.name.clone(),
                    created_at: t.created_at,
                    post_count: count,
                },
            );
            i = i + 1;
        }
        Ok(out)
    }

    /// Renames the tag carrying `id` to the trimmed form of `new_name`,
    /// keeping the table in name order. A blank name is `Validation`, a
    /// missing id `NotFound`, and a name held by a different tag
    /// `DuplicateEntry`. On any error the store is left unchanged.
    #[verifier::rlimit(100)]
    #[verifier::spinoff_prover]
    pub fn update(&self, db: &mut Database, id: i64, new_name: &str) -> (r: DatabaseResult<Tag>)
        requires
            old(db).wf(),
            old(db).can_tick(),
        ensures
            final(db).wf(),
            match r {
                Ok(t) => renamed_state(*old(db), *final(db), id, new_name@, t),
                Err(e) => {
                    &&& *final(db) == *old(db)
                    &&& if is_blank(new_name@) {
                        is_validation(e, "Tag name cannot be empty"@)
                    } else if !old(db).has_tag_id(id) {
                        is_not_found(e, "Tag"@, dec_str(id as int))
                    } else {
                        &&& old(db).tag_name_taken_by_other(trim_of(new_name@), id)
                        &&& is_duplicate(e, "Tag"@, new_name@)
                    }
                },
            },
            (r is Ok) <==> (!is_blank(new_name@) && old(db).has_tag_id(id)
                && !old(db).tag_name_taken_by_other(trim_of(new_name@), id)),
    {
        if is_blank_str(new_name) {
            return Err(DatabaseError::validation("Tag name cannot be empty"));
        }
        let trimmed = trim(new_name);
        let j = match find_tag_index_by_id(&db.tags, id) {
            None => {
                return Err(DatabaseError::not_found("Tag", i64_to_string(id).as_str()));
            },
            Some(j) => j,
        };
        if any_name_other(&db.tags, trimmed.as_str(), id) {
            return Err(DatabaseError::duplicate("Tag", new_name));
        }
        let removed = db.tags.remove(j);
        proof {
            let s0 = old(db).tags@;
            let s1 = db.tags@;
            assert(s1 =~= s0.remove(j as int));
            assert forall|a: int, b: int|
                #![trigger s1[a], s1[b]]
                0 <= a < b < s1.len() implies {
                s1[a].id != s1[b].id && lex_lt(s1[a].name@, s1[b].name@)
            } by {
                let a0 = if a < j { a } else { a + 1 };
                let b0 = if b < j { b } else { b + 1 };
                assert(s1[a] == s0[a0]);
                assert(s1[b] == s0[b0]);
            }
            assert forall|w: int| 0 <= w < s1.len() implies s1[w].name@ != trim_of(new_name@) by {
                let w0 = if w < j { w } else { w + 1 };
                assert(s1[w] == s0[w0]);
                assert(s0[w0].id != id);
            }
        }
        let k = find_name_position(&db.tags, trimmed.as_str());
        proof {
            let s1 = db.tags@;
            let tr = trim_of(new_name@);
            if k < s1.len() {
                lemma_lex_total(tr, s1[k as int].name@);
                assert(s1[k as int].name@ != tr);
                assert(lex_lt(tr, s1[k as int].name@));
            }
        }
        let t = Tag { id, name: trimmed, created_at: removed.created_at };
        let stored = t.clone();
        db.tags.insert(k, stored);
        db.clock = db.clock + 1;
        proof {
            let s0 = old(db).tags@;
            let s1 = s0.remove(j as int);
            let tr = trim_of(new_name@);
            s1.insert_ensures(k as int, t);
            assert(db.tags@ == s1.insert(k as int, t));
            assert forall|a: int, b: int|
                #![trigger db.tags@[a], db.tags@[b]]
                0 <= a < b < db.tags@.len() implies {
                db.tags@[a].id != db.tags@[b].id && lex_lt(db.tags@[a].name@, db.tags@[b].name@)
            } by {
                if a == k {
                    assert(db.tags@[a] == t);
                    assert(db.tags@[b] == s1[b - 1]);
                    assert(lex_lt(tr, s1[k as int].name@));
                    if b - 1 > k {
                        lemma_lex_trans(tr, s1[k as int].name@, s1[b - 1].name@);
                    }
                } else if b == k {
                    assert(db.tags@[a] == s1[a]);
                    assert(db.tags@[b] == t);
                } else if a < k && b > k {
                    assert(db.tags@[a] == s1[a]);
                    assert(db.tags@[b] == s1[b - 1]);
                    if a == b - 1 {
                        assert(lex_lt(s1[a].name@, tr));
                        assert(lex_lt(tr, s1[k as int].name@));
                    }
                } else if b < k {
                    assert(db.tags@[a] == s1[a]);
                    assert(db.tags@[b] == s1[b]);
                } else {
                    assert(db.tags@[a] == s1[a - 1]);
                    assert(db.tags@[b] == s1[b - 1]);
                }
            }
            assert(s0[j as int].id == id);
            crate::text::lemma_nonblank_trims_nonempty(new_name@);
            crate::text::lemma_trim_idempotent(new_name@);
            assert forall|i: int|
                #![trigger db.tags@[i]]
                0 <= i < db.tags@.len() implies {
                &&& 0 < db.tags@[i].id < db.next_tag_id
                &&& db.tags@[i].created_at < db.clock
                &&& db.tags@[i].name@.len() > 0
                &&& db.tags@[i].name@ == trim_of(db.tags@[i].name@)
            } by {
                if i == k {
                    assert(db.tags@[i] == t);
                } else {
                    let i1 = if i < k {
                        i
                    } else {
                        i - 1
                    };
                    assert(db.tags@[i] == s1[i1]);
                    let i0 = if i1 < j {
                        i1
                    } else {
                        i1 + 1
                    };
                    assert(s1[i1] == s0[i0]);
                }
            }
            assert forall|i: int| 0 <= i < db.post_tags@.len() implies {
                db.has_post_id(db.post_tags@[i].post_id) && db.has_tag_id(db.post_tags@[i].tag_id)
            } by {
                assert(old(db).post_tags@[i] == db.post_tags@[i]);
                let pid = db.post_tags@[i].post_id;
                let pw = choose|pw: int|
                    0 <= pw < old(db).posts@.len() && old(db).posts@[pw].id == pid;
                assert(db.posts@[pw].id == pid);
                let tid = db.post_tags@[i].tag_id;
                let tw = choose|tw: int| 0 <= tw < s0.len() && s0[tw].id == tid;
                if tw == j {
                    assert(t.id == tid);
                    assert(db.tags@[k as int].id == tid);
                } else {
                    let tw1 = if tw < j {
                        tw
                    } else {
                        tw - 1
                    };
                    assert(s1[tw1] == s0[tw]);
                    if tw1 < k {
                        assert(db.tags@[tw1].id == tid);
                    } else {
                        assert(db.tags@[tw1 + 1].id == tid);
                    }
                }
            }
            assert(db.wf());
            assert(db.tags@ == s0.remove(j as int).insert(k as int, t));
            assert(renamed_state(*old(db), *db, id, new_name@, t));
        }
        Ok(t)
    }

    /// Deletes the tag carrying `id`; the store's referential-integrity rule
    /// removes every association of the tag in the same transition. Missing
    /// ids are `NotFound`, leaving the store unchanged.
    pub fn delete(&self, db: &mut Database, id: i64) -> (r: DatabaseResult<()>)
        requires
            old(db).wf(),
            old(db).can_tick(),
        ensures
            final(db).wf(),
            match r {
                Ok(()) => {
                    &&& exists|j: int|
                        {
                            &&& 0 <= j < old(db).tags@.len()
                            &&& old(db).tags@[j].id == id
                            &&& final(db).tags@ == old(db).tags@.remove(j)
                        }
                    &&& final(db).post_tags@ == old(db).post_tags@.filter(keeps_tag(id))
                    &&& final(db).posts@ == old(db).posts@
                    &&& final(db).next_post_id == old(db).next_post_id
                    &&& final(db).next_tag_id == old(db).next_tag_id
                    &&& final(db).clock == old(db).clock + 1
                },
                Err(e) => {
                    &&& *final(db) == *old(db)
                    &&& !old(db).has_tag_id(id)
                    &&& is_not_found(e, "Tag"@, dec_str(id as int))
                },
            },
            (r is Ok) <==> old(db).has_tag_id(id),
    {
        let j = match find_tag_index_by_id(&db.tags, id) {
            None => {
                return Err(DatabaseError::not_found("Tag", i64_to_string(id).as_str()));
            },
            Some(j) => j,
        };
        db.tags.remove(j);
        let ghost f = keeps_tag(id);
        let m = db.post_tags.len();
        let mut kept: Vec<PostTag> = Vec::new();
        let mut k: usize = 0;
        proof {
            reveal(Seq::filter);
        }
        while k < m
            invariant
                0 <= k <= m,
                m == db.post_tags@.len(),
                f == keeps_tag(id),
                kept@ == db.post_tags@.take(k as int).filter(f),
            decreases m - k,
        {
            proof {
                reveal(Seq::filter);
                assert(db.post_tags@.take(k + 1).drop_last() =~= db.post_tags@.take(k as int));
                assert(db.post_tags@.take(k + 1).last() == db.post_tags@[k as int]);
            }
            let pt = db.post_tags[k];
            if pt.tag_id != id {
                kept.push(pt);
            }
            k = k + 1;
        }
        proof {
            assert(db.post_tags@.take(m as int) =~= db.post_tags@);
        }
        db.post_tags = kept;
        db.clock = db.clock + 1;
        proof {
            let s0 = old(db).tags@;
            let t0 = old(db).post_tags@;
            assert(db.tags@ =~= s0.remove(j as int));
            assert(db.post_tags@ == t0.filter(f));
            broadcast use vstd::seq_lib::group_filter_ensures;
            crate::seqs::lemma_filter_sub(t0, f);
            crate::seqs::lemma_filter_distinct(t0, f);
            assert forall|a: int, b: int|
                #![trigger db.tags@[a], db.tags@[b]]
                0 <= a < b < db.tags@.len() implies {
                db.tags@[a].id != db.tags@[b].id && lex_lt(db.tags@[a].name@, db.tags@[b].name@)
            } by {
                let a0 = if a < j { a } else { a + 1 };
                let b0 = if b < j { b } else { b + 1 };
                assert(db.tags@[a] == s0[a0]);
                assert(db.tags@[b] == s0[b0]);
            }
            assert forall|i: int| 0 <= i < db.post_tags@.len() implies {
                db.has_post_id(db.post_tags@[i].post_id) && db.has_tag_id(db.post_tags@[i].tag_id)
            } by {
                let pt = db.post_tags@[i];
                assert(t0.contains(pt));
                assert(f(pt));
                let w = choose|w: int| 0 <= w < t0.len() && t0[w] == pt;
                assert(t0[w] == pt);
                assert(old(db).has_post_id(pt.post_id));
                assert(old(db).has_tag_id(pt.tag_id));
                let pw = choose|pw: int|
                    0 <= pw < old(db).posts@.len() && old(db).posts@[pw].id == pt.post_id;
                assert(db.posts@[pw].id == pt.post_id);
                let tw = choose|tw: int| 0 <= tw < s0.len() && s0[tw].id == pt.tag_id;
                assert(pt.tag_id != id);
                assert(tw != j);
                if tw < j {
                    assert(db.tags@[tw].id == pt.tag_id);
                } else {
                    assert(db.tags@[tw - 1].id == pt.tag_id);
                }
            }
        }
        Ok(())
    }

    /// Associates a tag with a post. If either end is missing the result is
    /// `NotFound`; an edge that already exists is `DuplicateEntry`. On any
    /// error the store is left unchanged, and no association row appears.
    pub fn add_tag_to_post(&self, db: &mut Database, post_id: i64, tag_id: i64) -> (r:
        DatabaseResult<()>)
        requires
            old(db).wf(),
            old(db).can_tick(),
        ensures
            final(db).wf(),
            match r {
                Ok(()) => {
                    &&& old(db).has_post_id(post_id)
                    &&& old(db).has_tag_id(tag_id)
                    &&& !old(db).has_assoc(post_id, tag_id)
                    &&& final(db).post_tags@ == old(db).post_tags@.push(
                        (PostTag { post_id, tag_id }),
                    )
                    &&& final(db).posts@ == old(db).posts@
                    &&& final(db).tags@ == old(db).tags@
                    &&& final(db).next_post_id == old(db).next_post_id
                    &&& final(db).next_tag_id == old(db).next_tag_id
                    &&& final(db).clock == old(db).clock + 1
                },
                Err(e) => {
                    &&& *final(db) == *old(db)
                    &&& if !old(db).has_post_id(post_id) || !old(db).has_tag_id(tag_id) {
                        is_not_found(e, "Post or Tag"@, assoc_ident(post_id, tag_id))
                    } else {
                        &&& old(db).has_assoc(post_id, tag_id)
                        &&& is_duplicate(e, "Tag association"@, assoc_ident(post_id, tag_id))
                    }
                },
            },
            (r is Ok) <==> (old(db).has_post_id(post_id) && old(db).has_tag_id(tag_id)
                && !old(db).has_assoc(post_id, tag_id)),
    {
        let post_there = any_post_with_id(&db.posts, post_id);
        let tag_there = find_tag_index_by_id(&db.tags, tag_id).is_some();
        if !post_there || !tag_there {
            return Err(
                DatabaseError::not_found("Post or Tag", assoc_ident_string(post_id, tag_id).as_str()),
            );
        }
        if find_assoc_index(&db.post_tags, post_id, tag_id).is_some() {
            return Err(
                DatabaseError::duplicate(
                    "Tag association",
                    assoc_ident_string(post_id, tag_id).as_str(),
                ),
            );
        }
        db.post_tags.push(PostTag { post_id, tag_id });
        db.clock = db.clock + 1;
        proof {
            let t0 = old(db).post_tags@;
            let pair = PostTag { post_id, tag_id };
            assert(db.post_tags@ =~= t0.push(pair));
            assert forall|i: int| 0 <= i < db.post_tags@.len() implies {
                db.has_post_id(db.post_tags@[i].post_id) && db.has_tag_id(db.post_tags@[i].tag_id)
            } by {
                if i < t0.len() {
                    assert(old(db).post_tags@[i] == db.post_tags@[i]);
                    let pid = db.post_tags@[i].post_id;
                    let pw = choose|pw: int|
                        0 <= pw < old(db).posts@.len() && old(db).posts@[pw].id == pid;
                    assert(db.posts@[pw].id == pid);
                    let tid = db.post_tags@[i].tag_id;
                    let tw = choose|tw: int|
                        0 <= tw < old(db).tags@.len() && old(db).tags@[tw].id == tid;
                    assert(db.tags@[tw].id == tid);
                } else {
                    assert(db.post_tags@[i] == pair);
                    let pw = choose|pw: int|
                        0 <= pw < old(db).posts@.len() && old(db).posts@[pw].id == post_id;
                    assert(db.posts@[pw].id == post_id);
                    let tw = choose|tw: int|
                        0 <= tw < old(db).tags@.len() && old(db).tags@[tw].id == tag_id;
                    assert(db.tags@[tw].id == tag_id);
                }
            }
        }
        Ok(())
    }

    /// Removes the association between a post and a tag. A pair that is not
    /// associated is `NotFound`, leaving the store unchanged.
    pub fn remove_tag_from_post(&self, db: &mut Database, post_id: i64, tag_id: i64) -> (r:
        DatabaseResult<()>)
        requires
            old(db).wf(),
            old(db).can_tick(),
        ensures
            final(db).wf(),
            match r {
                Ok(()) => {
                    &&& exists|j: int|
                        {
                            &&& 0 <= j < old(db).post_tags@.len()
                            &&& old(db).post_tags@[j] == (PostTag { post_id, tag_id })
                            &&& final(db).post_tags@ == old(db).post_tags@.remove(j)
                        }
                    &&& !final(db).has_assoc(post_id, tag_id)
                    &&& final(db).posts@ == old(db).posts@
                    &&& final(db).tags@ == old(db).tags@
                    &&& final(db).next_post_id == old(db).next_post_id
                    &&& final(db).next_tag_id == old(db).next_tag_id
                    &&& final(db).clock == old(db).clock + 1
                },
                Err(e) => {
                    &&& *final(db) == *old(db)
                    &&& !old(db).has_assoc(post_id, tag_id)
                    &&& is_not_found(e, "Tag association"@, assoc_ident(post_id, tag_id))
                },
            },
            (r is Ok) <==> old(db).has_assoc(post_id, tag_id),
    {
        let j = match find_assoc_index(&db.post_tags, post_id, tag_id) {
            None => {
                return Err(
                    DatabaseError::not_found(
                        "Tag association",
                        assoc_ident_string(post_id, tag_id).as_str(),
                    ),
                );
            },
            Some(j) => j,
        };
        db.post_tags.remove(j);
        db.clock = db.clock + 1;
        proof {
            let t0 = old(db).post_tags@;
            let pair = PostTag { post_id, tag_id };
            assert(db.post_tags@ =~= t0.remove(j as int));
            assert forall|a: int, b: int|
                #![trigger db.post_tags@[a], db.post_tags@[b]]
                0 <= a < b < db.post_tags@.len() implies db.post_tags@[a] != db.post_tags@[b] by {
                let a0 = if a < j { a } else { a + 1 };
                let b0 = if b < j { b } else { b + 1 };
                assert(db.post_tags@[a] == t0[a0]);
                assert(db.post_tags@[b] == t0[b0]);
            }
            assert forall|w: int| 0 <= w < db.post_tags@.len() implies db.post_tags@[w] != pair by {
                let w0 = if w < j { w } else { w + 1 };
                assert(db.post_tags@[w] == t0[w0]);
            }
            assert forall|i: int| 0 <= i < db.post_tags@.len() implies {
                db.has_post_id(db.post_tags@[i].post_id) && db.has_tag_id(db.post_tags@[i].tag_id)
            } by {
                let i0 = if i < j { i } else { i + 1 };
                assert(db.post_tags@[i] == t0[i0]);
                assert(old(db).post_tags@[i0] == t0[i0]);
                let pid = db.post_tags@[i].post_id;
                let pw = choose|pw: int|
                    0 <= pw < old(db).posts@.len() && old(db).posts@[pw].id == pid;
                assert(db.posts@[pw].id == pid);
                let tid = db.post_tags@[i].tag_id;
                let tw = choose|tw: int|
                    0 <= tw < old(db).tags@.len() && old(db).tags@[tw].id == tid;
                assert(db.tags@[tw].id == tid);
            }
        }
        Ok(())
    }

    /// Lists the tags attached to a post, in name order. A post with no
    /// tags, or an id no post carries, yields an empty listing rather than
    /// an error: existence of the post is not checked by this read.
    pub fn list_tags_for_post(&self, db: &Database, post_id: i64) -> (r: DatabaseResult<Vec<Tag>>)
        requires
            db.wf(),
        ensures
            r is Ok,
            match r {
                Ok(v) => v@ == db.tags@.filter(attached_to(*db, post_id)),
                Err(e) => false,
            },
    {
        let ghost f = attached_to(*db, post_id);
        let n = db.tags.len();
        let mut out: Vec<Tag> = Vec::new();
        let mut i: usize = 0;
        proof {
            reveal(Seq::filter);
        }
        while i < n
            invariant
                0 <= i <= n,
                n == db.tags@.len(),
                f == attached_to(*db, post_id),
                out@ == db.tags@.take(i as int).filter(f),
            decreases n - i,
        {
            proof {
                reveal(Seq::filter);
                assert(db.tags@.take(i + 1).drop_last() =~= db.tags@.take(i as int));
                assert(db.tags@.take(i + 1).last() == db.tags@[i as int]);
            }
            if find_assoc_index(&db.post_tags, post_id, db.tags[i].id).is_some() {
                out.push(db.tags[i].clone());
            }
            i = i + 1;
        }
        proof {
            assert(db.tags@.take(n as int) =~= db.tags@);
        }
        Ok(out)
    }
}

} // verus!
