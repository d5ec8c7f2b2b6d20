//! The password-change decisions.
//!
//! The flow has two decision points with an outside credential check
//! between them: first the two copies of the new password must match —
//! only then is the current password worth checking — and then the
//! check's outcome picks the ending. The caller runs the check and the
//! session/flash effects; the decisions themselves are verified here.

use vstd::prelude::*;

use crate::authentication::{AuthError, UserId};
use crate::response::SavedResponse;
use crate::utils;
use crate::utils::see_other_response;

verus! {

/// The password-change form as submitted.
#[derive(Debug)]
pub struct FormData {
    pub current_password: String,
    pub new_password: String,
    pub new_password_check: String,
}

/// What to do right after the form arrives.
#[derive(Debug)]
pub enum PasswordChangeStep {
    /// The two new-password fields differ: flash the mismatch message
    /// and redirect without touching the credential store.
    RejectMismatchedNewPasswords(SavedResponse),
    /// The fields match: validate the current password next.
    ValidateCurrentPassword,
}

/// The first decision: a mismatch between the two new-password fields
/// ends the flow before any credential check.
pub fn change_password(form: &FormData) -> (r: PasswordChangeStep)
    ensures
        match r {
            PasswordChangeStep::RejectMismatchedNewPasswords(resp) => form.new_password@
                != form.new_password_check@ && resp@ == see_other_response("/admin/password"@),
            PasswordChangeStep::ValidateCurrentPassword => form.new_password@
                == form.new_password_check@,
        },
{
    if form.new_password == form.new_password_check {
        PasswordChangeStep::ValidateCurrentPassword
    } else {
        PasswordChangeStep::RejectMismatchedNewPasswords(utils::see_other("/admin/password"))
    }
}

/// The flash message a mismatch is reported with.
pub fn mismatch_message() -> (r: &'static str)
    ensures
        r@ == "You entered 2 different new passwords, the values should match."@,
{
    "You entered 2 different new passwords, the values should match."
}

/// How the flow ends once the credential check reported its outcome.
#[derive(Debug)]
pub enum PasswordChangeResolution {
    /// The current password is wrong: flash the message and redirect.
    RejectIncorrectCurrentPassword(SavedResponse),
    /// The check itself failed: surface a server failure.
    Fail,
    /// The current password is right: store the new one, flash the
    /// confirmation and redirect.
    CommitNewPassword(UserId, SavedResponse),
}

/// The second decision: what the credential check's outcome leads to.
pub fn resolve_change_password(credential_check: Result<UserId, AuthError>) -> (r:
    PasswordChangeResolution)
    ensures
        match (r, credential_check) {
            (
                PasswordChangeResolution::RejectIncorrectCurrentPassword(resp),
                Err(AuthError::InvalidCredentials(_)),
            ) => resp@ == see_other_response("/admin/password"@),
            (PasswordChangeResolution::Fail, Err(AuthError::UnexpectedError(_))) => true,
            (PasswordChangeResolution::CommitNewPassword(user_id, resp), Ok(checked)) => user_id
                == checked && resp@ == see_other_response("/admin/password"@),
            _ => false,
        },
{
    match credential_check {
        Ok(user_id) => PasswordChangeResolution::CommitNewPassword(
            user_id,
            utils::see_other("/admin/password"),
        ),
        Err(AuthError::InvalidCredentials(_)) => {
            PasswordChangeResolution::RejectIncorrectCurrentPassword(
                utils::see_other("/admin/password"),
            )
        },
        Err(AuthError::UnexpectedError(_)) => PasswordChangeResolution::Fail,
    }
}

/// The flash message a wrong current password is reported with.
pub fn incorrect_password_message() -> (r: &'static str)
    ensures
        r@ == "The current password is incorrect."@,
{
    "The current password is incorrect."
}

/// The flash message a committed change is confirmed with.
pub fn password_changed_message() -> (r: &'static str)
    ensures
        r@ == "Your password has been changed."@,
{
    "Your password has been changed."
}

} // verus!
