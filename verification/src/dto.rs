//! Plain request and response shapes exchanged with the transport layer.

use vstd::prelude::*;

use crate::repository::RepositoryError;

verus! {

/// The credentials a registration or login request carries.
#[derive(Debug)]
pub struct Form {
    pub username: String,
    pub password: String,
}

/// The error body handed back to a caller, as a plain message.
#[derive(Debug)]
pub struct AuthError {
    pub message: String,
}

/// The response to a successful login: the bearer token to present on
/// authenticated requests.
#[derive(Debug)]
pub struct LoginToken {
    pub token: String,
}

/// The response to a successful registration: the new account's identifier.
#[derive(Debug)]
pub struct CreationAccountOk {
    pub id: u128,
}

impl AuthError {
    /// The message shown for each repository error kind.
    pub fn from_repository(e: RepositoryError) -> (r: AuthError)
        ensures
            e == RepositoryError::NotFound ==> r.message@ == "not found"@,
            e == RepositoryError::DatabaseError ==> r.message@ == "service unavailable"@,
    {
        match e {
            RepositoryError::NotFound => AuthError { message: String::from_str("not found") },
            RepositoryError::DatabaseError => AuthError {
                message: String::from_str("service unavailable"),
            },
        }
    }
}

} // verus!
