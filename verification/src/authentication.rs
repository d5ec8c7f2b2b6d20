//! The authenticated principal and the session gate.
//!
//! Credential checking itself (password hashing, the user table) is an
//! outside collaborator: callers resolve it and hand this crate only the
//! outcome.

use vstd::prelude::*;

use crate::response::SavedResponse;
use crate::utils;
use crate::utils::see_other_response;

verus! {

/// The identity of an authenticated principal.
#[derive(Clone, Copy, PartialEq, Eq, Structural, Debug)]
pub struct UserId {
    pub id: u64,
}

impl UserId {
    pub fn new(id: u64) -> (r: UserId)
        ensures
            r.id_value() == id,
    {
        UserId { id }
    }

    pub open spec fn id_value(&self) -> u64 {
        self.id
    }

    /// The raw identifier.
    pub fn value(&self) -> (r: u64)
        ensures
            r == self.id_value(),
    {
        self.id
    }
}

/// A username and the password the caller presented for it.
#[derive(Debug)]
pub struct Credentials {
    pub username: String,
    pub password: String,
}

/// Mathematical view of presented credentials.
#[verifier::ext_equal]
pub struct CredentialsV {
    pub username: Seq<char>,
    pub password: Seq<char>,
}

impl View for Credentials {
    type V = CredentialsV;

    open spec fn view(&self) -> CredentialsV {
        CredentialsV { username: self.username@, password: self.password@ }
    }
}

/// Why a credential check failed.
#[derive(Debug)]
pub enum AuthError {
    /// The username or password is wrong.
    InvalidCredentials(String),
    /// The check itself could not be carried out.
    UnexpectedError(String),
}

/// The admin gate: a request either carries an authenticated user in its
/// session or is sent back to the login form.
pub fn reject_anonymous_users(session_user: Option<UserId>) -> (r: Result<UserId, SavedResponse>)
    ensures
        match r {
            Ok(user_id) => session_user == Some(user_id),
            Err(resp) => session_user is None && resp@ == see_other_response("/login"@),
        },
{
    match session_user {
        Some(user_id) => Ok(user_id),
        None => Err(utils::see_other("/login")),
    }
}

} // verus!
