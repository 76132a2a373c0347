//! The session entity: a persisted proof of login binding an opaque bearer
//! token to an account.

use vstd::prelude::*;

verus! {

/// A persisted proof of login.  The token is a high-entropy random string,
/// bearer-equivalent to authentication; the session references its owning
/// account but does not own it.  Sessions stay valid until the store is
/// cleared: this design has no expiry or revocation path.
#[derive(Debug)]
pub struct Session {
    pub id: u128,
    pub user: u128,
    pub token: String,
}

impl Clone for Session {
    fn clone(&self) -> (r: Self)
        ensures
            r == *self,
    {
        Session { id: self.id, user: self.user, token: self.token.clone() }
    }
}

} // verus!
