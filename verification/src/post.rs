//! The post entity: an append-only text entry owned by an account.

use vstd::prelude::*;

use crate::trusted::{fresh_id, now_secs};

verus! {

/// A short text entry.  Once created it is immutable; it references its
/// author's account but does not own it.
#[derive(Debug)]
pub struct Post {
    pub id: u128,
    pub user: u128,
    pub text: String,
    pub created_at: u64,
}

impl Clone for Post {
    fn clone(&self) -> (r: Self)
        ensures
            r == *self,
    {
        Post { id: self.id, user: self.user, text: self.text.clone(), created_at: self.created_at }
    }
}

impl Post {
    /// Build a fresh post by the given account: a newly drawn identifier and
    /// a creation stamp of the present moment.
    pub fn new(account: u128, text: String) -> (r: Post)
        ensures
            r.user == account,
            r.text@ == text@,
    {
        Post { id: fresh_id(), user: account, text, created_at: now_secs() }
    }
}

} // verus!
