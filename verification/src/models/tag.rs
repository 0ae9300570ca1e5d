//! Tags and the rules on their names.

use vstd::prelude::*;

use crate::text::{is_space, trim, trim_of};

verus! {

/// A persisted tag. `created_at` is a reading of the store's logical clock.
#[derive(Debug)]
pub struct Tag {
    pub id: i64,
    pub name: String,
    pub created_at: i64,
}

impl Clone for Tag {
    fn clone(&self) -> (r: Self)
        ensures
            r == *self,
    {
        Tag { id: self.id, name: self.name.clone(), created_at: self.created_at }
    }
}

/// A tag together with the number of posts it is attached to; computed at
/// query time, never persisted.
#[derive(Debug)]
pub struct TagWithPostCount {
    pub id: i64,
    pub name: String,
    pub created_at: i64,
    pub post_count: i64,
}

impl Clone for TagWithPostCount {
    fn clone(&self) -> (r: Self)
        ensures
            r == *self,
    {
        TagWithPostCount {
            id: self.id,
            name: self.name.clone(),
            created_at: self.created_at,
            post_count: self.post_count,
        }
    }
}

/// A tag-name character: an ASCII alphanumeric, whitespace, or one of
/// `-`, `_`, `+`.
pub open spec fn is_tag_char(c: char) -> bool {
    let u = c as u32;
    ||| (0x30 <= u && u <= 0x39)
    ||| (0x41 <= u && u <= 0x5A)
    ||| (0x61 <= u && u <= 0x7A)
    ||| is_space(c)
    ||| u == 0x2D
    ||| u == 0x5F
    ||| u == 0x2B
}

/// A well-formed tag name: non-empty after trimming, at most 50 bytes in its
/// encoded form, and made of tag-name characters only.
pub open spec fn is_valid_name_spec(name: Seq<char>) -> bool {
    let t = trim_of(name);
    &&& t.len() > 0
    &&& vstd::utf8::encode_utf8(t).len() <= 50
    &&& forall|i: int| 0 <= i < t.len() ==> is_tag_char(t[i])
}

impl Tag {
    /// Whether `name` is acceptable as a tag name. Surrounding whitespace is
    /// ignored: the trimmed form is what the rules apply to.
    pub fn is_valid_name(name: &str) -> (r: bool)
        ensures
            r == is_valid_name_spec(name@),
    {
        let trimmed = trim(name);
        let t = trimmed.as_str();
        let n = t.unicode_len();
        if n == 0 {
            return false;
        }
        if t.as_bytes().len() > 50 {
            return false;
        }
        let mut i: usize = 0;
        while i < n
            invariant
                0 <= i <= n,
                n == t@.len(),
                t@ == trim_of(name@),
                forall|j: int| 0 <= j < i ==> is_tag_char(t@[j]),
            decreases n - i,
        {
            let c = t.get_char(i);
            let u = c as u32;
            if !((0x30 <= u && u <= 0x39) || (0x41 <= u && u <= 0x5A) || (0x61 <= u && u <= 0x7A)
                || crate::text::is_space_char(c) || u == 0x2D || u == 0x5F || u == 0x2B) {
                return false;
            }
            i = i + 1;
        }
        true
    }
}

} // verus!
