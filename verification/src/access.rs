//! The per-post view handed back to an authenticated actor.

use vstd::prelude::*;

use crate::manager::UserAccess;
use crate::post::Post;

verus! {

/// One post as seen by the actor who fetched it: the post itself together
/// with the viewing account's identifier.
#[derive(Debug)]
pub struct PostAccess {
    pub post: Post,
    pub user: u128,
}

/// The plain fields of a post, fit for handing out.
#[derive(Debug)]
pub struct PostInfo {
    pub id: u128,
    pub user: u128,
    pub created_at: u64,
    pub text: String,
}

impl PostAccess {
    /// Bind a post to the actor viewing it.
    pub fn new(user: &UserAccess, post: Post) -> (r: PostAccess)
        ensures
            r.post == post,
            r.user == user.user.id,
    {
        PostAccess { post, user: user.id() }
    }

    /// The post's identifier.
    pub fn id(&self) -> (r: u128)
        ensures
            r == self.post.id,
    {
        self.post.id
    }

    /// Is the viewing actor the post's author?
    pub fn is_creator(&self) -> (r: bool)
        ensures
            r == (self.user == self.post.user),
    {
        self.user == self.post.user
    }

    /// The post's plain fields.
    pub fn info(&self) -> (r: PostInfo)
        ensures
            r.id == self.post.id,
            r.user == self.post.user,
            r.created_at == self.post.created_at,
            r.text@ == self.post.text@,
    {
        PostInfo {
            id: self.post.id,
            user: self.post.user,
            created_at: self.post.created_at,
            text: self.post.text.clone(),
        }
    }
}

} // verus!
