//! Posts: the category codec, the record and input types, and validation.

use vstd::prelude::*;

use crate::models::errors::PostError;
use crate::text::{eq_ignore_ascii_case, is_blank, is_blank_str, str_eq_ignore_ascii_case};

verus! {

/// The categories a post can belong to. Stored as text, through the codec
/// below; unrecognized strings are rejected rather than defaulted.
#[derive(Clone, Copy, Debug, PartialEq, Eq, Structural)]
pub enum PostCategory {
    Blog,
    Art,
    Reading,
}

/// The category a string decodes to, if any: the match ignores ASCII case.
pub open spec fn category_of(s: Seq<char>) -> Option<PostCategory> {
    if eq_ignore_ascii_case(s, "blog"@) {
        Some(PostCategory::Blog)
    } else if eq_ignore_ascii_case(s, "art"@) {
        Some(PostCategory::Art)
    } else if eq_ignore_ascii_case(s, "reading"@) {
        Some(PostCategory::Reading)
    } else {
        None
    }
}

impl PostCategory {
    /// The stored text of each category.
    pub open spec fn encoded(self) -> Seq<char> {
        match self {
            PostCategory::Blog => "blog"@,
            PostCategory::Art => "art"@,
            PostCategory::Reading => "reading"@,
        }
    }

    /// Decodes a category from its text form, ignoring ASCII case.
    pub fn from_str(s: &str) -> (r: Result<PostCategory, String>)
        ensures
            match r {
                Ok(c) => category_of(s@) == Some(c),
                Err(m) => category_of(s@) is None && m@ == "Invalid post category: "@ + s@,
            },
    {
        if str_eq_ignore_ascii_case(s, "blog") {
            Ok(PostCategory::Blog)
        } else if str_eq_ignore_ascii_case(s, "art") {
            Ok(PostCategory::Art)
        } else if str_eq_ignore_ascii_case(s, "reading") {
            Ok(PostCategory::Reading)
        } else {
            Err(String::from_str("Invalid post category: ").concat(s))
        }
    }

    /// Encodes the category as the text the store keeps.
    pub fn to_string(&self) -> (r: String)
        ensures
            r@ == self.encoded(),
    {
        match self {
            PostCategory::Blog => String::from_str("blog"),
            PostCategory::Art => String::from_str("art"),
            PostCategory::Reading => String::from_str("reading"),
        }
    }
}

/// Decoding the encoding of any category yields that category back: the codec
/// is exhaustive and loses nothing.
pub proof fn lemma_category_round_trip(c: PostCategory)
    ensures
        category_of(c.encoded()) == Some(c),
{
    reveal_strlit("blog");
    reveal_strlit("art");
    reveal_strlit("reading");
    assert(eq_ignore_ascii_case(c.encoded(), c.encoded()));
}

/// A persisted post. Timestamps are the store's logical clock readings:
/// strictly larger readings are strictly later.
#[derive(Debug)]
pub struct Post {
    pub id: i64,
    pub category: PostCategory,
    pub title: String,
    pub slug: String,
    pub content: String,
    pub description: String,
    pub image_url: Option<String>,
    pub external_url: Option<String>,
    pub published: bool,
    pub created_at: i64,
    pub updated_at: i64,
}

pub(crate) fn clone_opt_string(o: &Option<String>) -> (r: Option<String>)
    ensures
        r == *o,
{
    match o {
        Some(s) => Some(s.clone()),
        None => None,
    }
}

impl Clone for Post {
    fn clone(&self) -> (r: Self)
        ensures
            r == *self,
    {
        Post {
            id: self.id,
            category: self.category,
            title: self.title.clone(),
            slug: self.slug.clone(),
            content: self.content.clone(),
            description: self.description.clone(),
            image_url: clone_opt_string(&self.image_url),
            external_url: clone_opt_string(&self.external_url),
            published: self.published,
            created_at: self.created_at,
            updated_at: self.updated_at,
        }
    }
}

/// The fields a caller supplies to create a post.
#[derive(Debug)]
pub struct CreatePost {
    pub category: PostCategory,
    pub title: String,
    pub slug: String,
    pub content: String,
    pub description: String,
    pub image_url: Option<String>,
    pub external_url: Option<String>,
    pub published: bool,
}

impl Clone for CreatePost {
    fn clone(&self) -> (r: Self)
        ensures
            r == *self,
    {
        CreatePost {
            category: self.category,
            title: self.title.clone(),
            slug: self.slug.clone(),
            content: self.content.clone(),
            description: self.description.clone(),
            image_url: clone_opt_string(&self.image_url),
            external_url: clone_opt_string(&self.external_url),
            published: self.published,
        }
    }
}

impl CreatePost {
    /// The first violated rule, checked in a fixed order: empty title, empty
    /// content, malformed slug.
    pub open spec fn validate_spec(self) -> Result<(), PostError> {
        if is_blank(self.title@) {
            Err(PostError::EmptyTitle)
        } else if is_blank(self.content@) {
            Err(PostError::EmptyContent)
        } else if !is_valid_slug_spec(self.slug@) {
            Err(PostError::InvalidSlug)
        } else {
            Ok(())
        }
    }

    /// Checks the field rules, reporting the first violation.
    pub fn validate(&self) -> (r: Result<(), PostError>)
        ensures
            r == self.validate_spec(),
    {
        if is_blank_str(self.title.as_str()) {
            return Err(PostError::EmptyTitle);
        }
        if is_blank_str(self.content.as_str()) {
            return Err(PostError::EmptyContent);
        }
        if !is_valid_slug(self.slug.as_str()) {
            return Err(PostError::InvalidSlug);
        }
        Ok(())
    }
}

/// The full replacement state for an existing post.
#[derive(Debug)]
pub struct UpdatePost {
    pub id: i64,
    pub category: PostCategory,
    pub title: String,
    pub slug: String,
    pub content: String,
    pub description: String,
    pub image_url: Option<String>,
    pub external_url: Option<String>,
    pub published: bool,
}

impl Clone for UpdatePost {
    fn clone(&self) -> (r: Self)
        ensures
            r == *self,
    {
        UpdatePost {
            id: self.id,
            category: self.category,
            title: self.title.clone(),
            slug: self.slug.clone(),
            content: self.content.clone(),
            description: self.description.clone(),
            image_url: clone_opt_string(&self.image_url),
            external_url: clone_opt_string(&self.external_url),
            published: self.published,
        }
    }
}

impl UpdatePost {
    /// The first violated rule, in order: non-positive id, empty title, empty
    /// content, malformed slug.
    pub open spec fn validate_spec(self) -> Result<(), PostError> {
        if self.id <= 0 {
            Err(PostError::InvalidId)
        } else if is_blank(self.title@) {
            Err(PostError::EmptyTitle)
        } else if is_blank(self.content@) {
            Err(PostError::EmptyContent)
        } else if !is_valid_slug_spec(self.slug@) {
            Err(PostError::InvalidSlug)
        } else {
            Ok(())
        }
    }

    /// Checks the field rules, reporting the first violation.
    pub fn validate(&self) -> (r: Result<(), PostError>)
        ensures
            r == self.validate_spec(),
    {
        if self.id <= 0 {
            return Err(PostError::InvalidId);
        }
        if is_blank_str(self.title.as_str()) {
            return Err(PostError::EmptyTitle);
        }
        if is_blank_str(self.content.as_str()) {
            return Err(PostError::EmptyContent);
        }
        if !is_valid_slug(self.slug.as_str()) {
            return Err(PostError::InvalidSlug);
        }
        Ok(())
    }
}

/// A partial update: `None` leaves the corresponding field unchanged, and a
/// present value overwrites it.
#[derive(Debug)]
pub struct PatchPost {
    pub id: i64,
    pub category: Option<PostCategory>,
    pub title: Option<String>,
    pub slug: Option<String>,
    pub content: Option<String>,
    pub description: Option<String>,
    pub image_url: Option<String>,
    pub external_url: Option<String>,
    pub published: Option<bool>,
}

impl Default for PatchPost {
    /// The empty patch: no field is changed and the id is unset.
    fn default() -> (r: Self)
        ensures
            r.id == 0,
            r.category is None,
            r.title is None,
            r.slug is None,
            r.content is None,
            r.description is None,
            r.image_url is None,
            r.external_url is None,
            r.published is None,
    {
        PatchPost {
            id: 0,
            category: None,
            title: None,
            slug: None,
            content: None,
            description: None,
            image_url: None,
            external_url: None,
            published: None,
        }
    }
}

impl PatchPost {
    /// The first violated rule among the fields the patch carries, in
    /// order: non-positive id, blank title, blank content, malformed slug.
    /// Absent fields carry the stored values forward and are not checked.
    pub open spec fn validate_spec(self) -> Result<(), PostError> {
        if self.id <= 0 {
            Err(PostError::InvalidId)
        } else if self.title is Some && is_blank(self.title->0@) {
            Err(PostError::EmptyTitle)
        } else if self.content is Some && is_blank(self.content->0@) {
            Err(PostError::EmptyContent)
        } else if self.slug is Some && !is_valid_slug_spec(self.slug->0@) {
            Err(PostError::InvalidSlug)
        } else {
            Ok(())
        }
    }

    /// Checks the fields the patch carries, reporting the first violation.
    pub fn validate(&self) -> (r: Result<(), PostError>)
        ensures
            r == self.validate_spec(),
    {
        if self.id <= 0 {
            return Err(PostError::InvalidId);
        }
        if let Some(t) = &self.title {
            if is_blank_str(t.as_str()) {
                return Err(PostError::EmptyTitle);
            }
        }
        if let Some(c) = &self.content {
            if is_blank_str(c.as_str()) {
                return Err(PostError::EmptyContent);
            }
        }
        if let Some(s) = &self.slug {
            if !is_valid_slug(s.as_str()) {
                return Err(PostError::InvalidSlug);
            }
        }
        Ok(())
    }
}

impl Clone for PatchPost {
    fn clone(&self) -> (r: Self)
        ensures
            r == *self,
    {
        PatchPost {
            id: self.id,
            category: self.category,
            title: clone_opt_string(&self.title),
            slug: clone_opt_string(&self.slug),
            content: clone_opt_string(&self.content),
            description: clone_opt_string(&self.description),
            image_url: clone_opt_string(&self.image_url),
            external_url: clone_opt_string(&self.external_url),
            published: self.published,
        }
    }
}

/// A slug character: an ASCII alphanumeric or a hyphen.
pub open spec fn is_slug_char(c: char) -> bool {
    let u = c as u32;
    (0x30 <= u && u <= 0x39) || (0x41 <= u && u <= 0x5A) || (0x61 <= u && u <= 0x7A) || u == 0x2D
}

/// A well-formed slug: non-empty, slug characters only, and neither starting
/// nor ending with a hyphen.
pub open spec fn is_valid_slug_spec(s: Seq<char>) -> bool {
    &&& s.len() > 0
    &&& forall|i: int| 0 <= i < s.len() ==> is_slug_char(s[i])
    &&& (s[0] as u32) != 0x2D
    &&& (s[s.len() - 1] as u32) != 0x2D
}

/// Whether `slug` is well-formed.
pub fn is_valid_slug(slug: &str) -> (r: bool)
    ensures
        r == is_valid_slug_spec(slug@),
{
    let n = slug.unicode_len();
    if n == 0 {
        return false;
    }
    let mut i: usize = 0;
    while i < n
        invariant
            0 <= i <= n,
            n == slug@.len(),
            forall|j: int| 0 <= j < i ==> is_slug_char(slug@[j]),
        decreases n - i,
    {
        let u = slug.get_char(i) as u32;
        if !((0x30 <= u && u <= 0x39) || (0x41 <= u && u <= 0x5A) || (0x61 <= u && u <= 0x7A)
            || u == 0x2D) {
            return false;
        }
        i = i + 1;
    }
    if slug.get_char(0) as u32 == 0x2D {
        return false;
    }
    if slug.get_char(n - 1) as u32 == 0x2D {
        return false;
    }
    true
}

} // verus!
