//! The login decision.
//!
//! Checking the credentials themselves (the user table, password
//! hashing) is an outside collaborator; the caller performs it and hands
//! the outcome in. This module decides what follows: grant a fresh
//! session and redirect to the dashboard, or flash the error and
//! redirect back to the login form.

use vstd::prelude::*;

use crate::authentication::{AuthError, UserId};
use crate::response::SavedResponse;
use crate::utils;
use crate::utils::see_other_response;

verus! {

/// The login form as submitted.
#[derive(Debug)]
pub struct FormData {
    pub username: String,
    pub password: String,
}

/// Why a login was refused.
#[derive(Debug)]
pub enum LoginError {
    /// The credentials are wrong.
    AuthError(String),
    /// The check itself failed.
    UnexpectedError(String),
}

impl LoginError {
    /// The message shown to the user.
    pub fn message(&self) -> (r: &'static str)
        ensures
            r@ == match self {
                LoginError::AuthError(_) => "Authentication failed."@,
                LoginError::UnexpectedError(_) => "Something went wrong."@,
            },
    {
        match self {
            LoginError::AuthError(_) => "Authentication failed.",
            LoginError::UnexpectedError(_) => "Something went wrong.",
        }
    }
}

/// Decides the outcome of a login attempt. On success the caller must
/// renew the session, store the user id in it, and return the redirect;
/// on failure it must flash the error and answer with
/// [`login_redirect`]'s response.
pub fn login(credential_check: Result<UserId, AuthError>) -> (r: Result<
    (UserId, SavedResponse),
    LoginError,
>)
    ensures
        match (r, credential_check) {
            (Ok((user_id, resp)), Ok(checked)) => user_id == checked && resp@
                == see_other_response("/admin/dashboard"@),
            (Err(LoginError::AuthError(m)), Err(AuthError::InvalidCredentials(m0))) => m@ == m0@,
            (Err(LoginError::UnexpectedError(m)), Err(AuthError::UnexpectedError(m0))) => m@
                == m0@,
            _ => false,
        },
{
    match credential_check {
        Ok(user_id) => Ok((user_id, utils::see_other("/admin/dashboard"))),
        Err(AuthError::InvalidCredentials(m)) => Err(LoginError::AuthError(m)),
        Err(AuthError::UnexpectedError(m)) => Err(LoginError::UnexpectedError(m)),
    }
}

/// The response a refused login is answered with, beside the flashed
/// error: back to the login form.
pub fn login_redirect(error: LoginError) -> (r: (LoginError, SavedResponse))
    ensures
        r.0 == error,
        r.1@ == see_other_response("/login"@),
{
    (error, utils::see_other("/login"))
}

} // verus!
