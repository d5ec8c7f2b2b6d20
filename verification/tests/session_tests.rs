use zero2prod::admin_password::{
    change_password, incorrect_password_message, mismatch_message, password_changed_message,
    resolve_change_password, FormData, PasswordChangeResolution, PasswordChangeStep,
};
use zero2prod::authentication::{reject_anonymous_users, AuthError, UserId};
use zero2prod::login::{login, login_redirect, LoginError};
use zero2prod::response::SavedResponse;
use zero2prod::store::Store;
use zero2prod::subscriptions_confirm::{confirm, get_subscriber_id_from_token, Parameters};
use zero2prod::utils::{e400, e500, report_exit, see_other, TaskOutcome};

fn assert_is_redirect_to(response: &SavedResponse, location: &str) {
    assert_eq!(response.status_code, 303);
    assert_eq!(response.headers.len(), 1);
    assert_eq!(response.headers[0].name, "location");
    assert_eq!(response.headers[0].value, location.as_bytes().to_vec());
}

#[test]
fn anonymous_users_are_sent_to_the_login_form() {
    let response = reject_anonymous_users(None).unwrap_err();
    assert_is_redirect_to(&response, "/login");
}

#[test]
fn a_session_user_passes_the_admin_gate() {
    let user = reject_anonymous_users(Some(UserId::new(42))).unwrap();
    assert_eq!(user.value(), 42);
}

#[test]
fn a_successful_login_redirects_to_the_dashboard() {
    let (user, response) = login(Ok(UserId::new(7))).unwrap();
    assert_eq!(user.value(), 7);
    assert_is_redirect_to(&response, "/admin/dashboard");
}

#[test]
fn a_failed_login_redirects_back_to_the_form() {
    let error = login(Err(AuthError::InvalidCredentials("wrong password".to_string())))
        .unwrap_err();
    assert_eq!(error.message(), "Authentication failed.");
    let (error, response) = login_redirect(error);
    assert!(matches!(error, LoginError::AuthError(_)));
    assert_is_redirect_to(&response, "/login");
}

#[test]
fn new_password_fields_must_match_before_any_check() {
    let form = FormData {
        current_password: "old".to_string(),
        new_password: "new-one".to_string(),
        new_password_check: "new-two".to_string(),
    };
    match change_password(&form) {
        PasswordChangeStep::RejectMismatchedNewPasswords(response) => {
            assert_is_redirect_to(&response, "/admin/password");
        }
        PasswordChangeStep::ValidateCurrentPassword => {
            panic!("mismatched fields must be refused before the credential check")
        }
    }
    assert_eq!(
        mismatch_message(),
        "You entered 2 different new passwords, the values should match."
    );
}

#[test]
fn a_wrong_current_password_is_refused() {
    let form = FormData {
        current_password: "wrong".to_string(),
        new_password: "same".to_string(),
        new_password_check: "same".to_string(),
    };
    assert!(matches!(change_password(&form), PasswordChangeStep::ValidateCurrentPassword));
    let resolution = resolve_change_password(
        Err(AuthError::InvalidCredentials("bad password".to_string())),
    );
    match resolution {
        PasswordChangeResolution::RejectIncorrectCurrentPassword(response) => {
            assert_is_redirect_to(&response, "/admin/password");
        }
        _ => panic!("a wrong current password must be refused"),
    }
    assert_eq!(incorrect_password_message(), "The current password is incorrect.");
}

#[test]
fn a_right_current_password_commits_the_change() {
    match resolve_change_password(Ok(UserId::new(3))) {
        PasswordChangeResolution::CommitNewPassword(user, response) => {
            assert_eq!(user.value(), 3);
            assert_is_redirect_to(&response, "/admin/password");
        }
        _ => panic!("a right current password must commit"),
    }
    assert_eq!(password_changed_message(), "Your password has been changed.");
}

#[test]
fn an_unknown_confirmation_token_is_unauthorized() {
    let mut store = Store::new();
    let response = confirm(&mut store, &Parameters { subscription_token: "nope".to_string() });
    assert_eq!(response.status_code, 401);
}

#[test]
fn a_known_confirmation_token_confirms_its_subscription() {
    let mut store = Store::new();
    let id = store
        .insert_subscriber("a@example.com".to_string(), "token-a".to_string())
        .unwrap();
    assert_eq!(
        get_subscriber_id_from_token(&store, &"token-a".to_string()),
        Some(id)
    );
    let response = confirm(&mut store, &Parameters { subscription_token: "token-a".to_string() });
    assert_eq!(response.status_code, 200);
    assert_eq!(
        store.subscription_status(id),
        Some(zero2prod::store::SubscriptionStatus::Confirmed)
    );
}

#[test]
fn duplicate_subscriptions_are_refused() {
    let mut store = Store::new();
    store
        .insert_subscriber("a@example.com".to_string(), "token-a".to_string())
        .unwrap();
    assert_eq!(
        store.insert_subscriber("a@example.com".to_string(), "token-b".to_string()),
        Err(zero2prod::store::InsertSubscriberError::DuplicateEmail)
    );
    assert_eq!(
        store.insert_subscriber("b@example.com".to_string(), "token-a".to_string()),
        Err(zero2prod::store::InsertSubscriberError::DuplicateToken)
    );
}

#[test]
fn error_helpers_carry_their_status() {
    assert_eq!(e400("bad".to_string()).status_code, 400);
    assert_eq!(e500("worse".to_string()).status_code, 500);
}

#[test]
fn see_other_builds_a_redirect() {
    assert_is_redirect_to(&see_other("/admin/newsletters"), "/admin/newsletters");
}

#[test]
fn task_exits_are_reported_by_kind() {
    assert_eq!(report_exit("API", &TaskOutcome::Exited), "API has exited.");
    assert_eq!(
        report_exit("Background worker", &TaskOutcome::Failed("db gone".to_string())),
        "Background worker' failed."
    );
    assert_eq!(
        report_exit("API", &TaskOutcome::FailedToComplete("panicked".to_string())),
        "API' task failed to complete."
    );
}
