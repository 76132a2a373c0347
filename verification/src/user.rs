//! The account entity: a registered identity with a username, a salted
//! password digest, and activity timestamps.

use vstd::prelude::*;

use crate::hasher::{new_hash_password, spec_hash_password, spec_verify_password, verify_password,
    SALT_LEN};
use crate::trusted::{all_alnum, fresh_id, now_secs};

verus! {

/// A registered identity.  The identifier is assigned at creation and never
/// reassigned; the username is unique across all accounts and immutable; the
/// password is stored only as a salted digest, never in plaintext.
#[derive(Debug)]
pub struct Account {
    pub id: u128,
    pub username: String,
    pub password: String,
    pub created_at: u64,
    pub last_active: u64,
}

impl Clone for Account {
    fn clone(&self) -> (r: Self)
        ensures
            r == *self,
    {
        Account {
            id: self.id,
            username: self.username.clone(),
            password: self.password.clone(),
            created_at: self.created_at,
            last_active: self.last_active,
        }
    }
}

impl Account {
    /// Build a fresh account: a newly drawn identifier, the password hashed
    /// under a fresh alphanumeric salt, and both timestamps stamped to the
    /// same moment.
    pub fn new(username: String, password: String) -> (r: Account)
        ensures
            r.username@ == username@,
            spec_verify_password(password@, r.password@),
            exists|salt: Seq<char>|
                all_alnum(salt) && salt.len() == SALT_LEN && r.password@ == spec_hash_password(
                    salt,
                    password@,
                ),
            r.created_at == r.last_active,
    {
        let now = now_secs();
        Account {
            id: fresh_id(),
            username,
            password: new_hash_password(password),
            created_at: now,
            last_active: now,
        }
    }

    /// Does the given plaintext password verify against this account's
    /// stored digest?
    pub fn verify_password(&self, password: String) -> (r: bool)
        ensures
            r == spec_verify_password(password@, self.password@),
    {
        verify_password(password, self.password.clone())
    }
}

} // verus!
