use vstd::prelude::*;

verus! {

/// A registered author. `password` holds an opaque hash.
#[derive(Clone, Debug)]
pub struct User {
    pub id: i64,
    pub email: String,
    pub password: String,
    /// Seconds since the epoch.
    pub created_at: i64,
}

/// What may be shown of a user: everything but the password hash.
#[derive(Clone, Debug, PartialEq, Eq)]
pub struct UserInfo {
    pub id: i64,
    pub email: String,
}

/// A stored post. `rendered_content` is derived from `markdown_content` on
/// every save and never edited directly.
#[derive(Clone, Debug)]
pub struct Post {
    pub id: i64,
    pub title: String,
    pub markdown_content: String,
    pub rendered_content: String,
    /// Seconds since the epoch; set when the draft is created.
    pub created_at: i64,
    /// Seconds since the epoch of the last save, if any.
    pub updated_at: Option<i64>,
}

/// An entry of the tag vocabulary shared by all posts.
#[derive(Clone, Debug)]
pub struct Tag {
    pub id: i64,
    pub name: String,
}

/// A row joining a post to one of its tags.
#[derive(Clone, Copy, Debug, PartialEq, Eq)]
pub struct TagUsage {
    pub id: i64,
    pub post_id: i64,
    pub tag_id: i64,
}

/// The read-only view of a post handed to readers.
#[derive(Clone, Debug, PartialEq, Eq)]
pub struct PostDetail {
    pub id: i64,
    pub title: String,
    /// The rendered content of the post.
    pub content: String,
    /// Names of the post's tags, when they were looked up.
    pub tags: Option<Vec<String>>,
    pub created_at: i64,
    pub updated_at: Option<i64>,
}

impl User {
    /// The public projection of this user.
    pub fn to_user_info(&self) -> (r: UserInfo)
        ensures
            r.id == self.id,
            r.email@ == self.email@,
    {
        UserInfo { id: self.id, email: self.email.clone() }
    }
}

impl Post {
    /// The reader's view of this post, without its tags, which only a lookup
    /// of its tag usages can give.
    pub fn to_detail(&self) -> (r: PostDetail)
        ensures
            r.id == self.id,
            r.title@ == self.title@,
            r.content@ == self.rendered_content@,
            r.tags is None,
            r.created_at == self.created_at,
            r.updated_at == self.updated_at,
    {
        PostDetail {
            id: self.id,
            title: self.title.clone(),
            content: self.rendered_content.clone(),
            tags: None,
            created_at: self.created_at,
            updated_at: self.updated_at,
        }
    }
}

} // verus!
