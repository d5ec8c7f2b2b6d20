use zero2prod::admin_newsletter::{publish_newsletter, success_message, FormData};
use zero2prod::authentication::UserId;
use zero2prod::idempotency::{try_processing, IdempotencyKey, NextAction};
use zero2prod::response::SavedResponse;
use zero2prod::store::Store;
use zero2prod::subscriptions_confirm::{confirm, Parameters};

fn form(idempotency_key: &str) -> FormData {
    FormData {
        title: "Newsletter title".to_string(),
        text_content: "Newsletter body as plain text".to_string(),
        html_content: "<p>Newsletter body as HTML</p>".to_string(),
        idempotency_key: idempotency_key.to_string(),
    }
}

fn add_confirmed_subscriber(store: &mut Store, email: &str, token: &str) {
    store
        .insert_subscriber(email.to_string(), token.to_string())
        .unwrap();
    let response = confirm(store, &Parameters { subscription_token: token.to_string() });
    assert_eq!(response.status_code, 200);
}

fn assert_responses_equal(a: &SavedResponse, b: &SavedResponse) {
    assert_eq!(a.status_code, b.status_code);
    assert_eq!(a.body, b.body);
    assert_eq!(a.headers.len(), b.headers.len());
    for (left, right) in a.headers.iter().zip(b.headers.iter()) {
        assert_eq!(left.name, right.name);
        assert_eq!(left.value, right.value);
    }
}

fn assert_is_redirect_to(response: &SavedResponse, location: &str) {
    assert_eq!(response.status_code, 303);
    assert_eq!(response.headers.len(), 1);
    assert_eq!(response.headers[0].name, "location");
    assert_eq!(response.headers[0].value, location.as_bytes().to_vec());
}

#[test]
fn publishing_enqueues_one_row_per_confirmed_subscriber() {
    let mut store = Store::new();
    add_confirmed_subscriber(&mut store, "one@example.com", "token-1");
    add_confirmed_subscriber(&mut store, "two@example.com", "token-2");
    add_confirmed_subscriber(&mut store, "three@example.com", "token-3");

    let response = publish_newsletter(&mut store, UserId::new(1), form("key-fanout")).unwrap();
    assert_is_redirect_to(&response, "/admin/newsletters");

    assert_eq!(store.delivery_queue_len(), 3);
    assert_eq!(store.delivery_queue_len_for_issue(0), 3);
    assert!(store.delivery_queue_contains(0, &"one@example.com".to_string()));
    assert!(store.delivery_queue_contains(0, &"two@example.com".to_string()));
    assert!(store.delivery_queue_contains(0, &"three@example.com".to_string()));
}

#[test]
fn unconfirmed_subscribers_are_not_enqueued() {
    let mut store = Store::new();
    store
        .insert_subscriber("pending@example.com".to_string(), "token-p".to_string())
        .unwrap();
    add_confirmed_subscriber(&mut store, "done@example.com", "token-d");

    publish_newsletter(&mut store, UserId::new(1), form("key-snapshot")).unwrap();

    assert_eq!(store.delivery_queue_len(), 1);
    assert!(store.delivery_queue_contains(0, &"done@example.com".to_string()));
    assert!(!store.delivery_queue_contains(0, &"pending@example.com".to_string()));
}

#[test]
fn newsletter_creation_is_idempotent() {
    let mut store = Store::new();
    add_confirmed_subscriber(&mut store, "one@example.com", "token-1");

    let first = publish_newsletter(&mut store, UserId::new(1), form("key-idem")).unwrap();
    assert_is_redirect_to(&first, "/admin/newsletters");
    assert_eq!(store.delivery_queue_len(), 1);

    // a later confirmation must not be retroactively included either
    add_confirmed_subscriber(&mut store, "late@example.com", "token-late");

    let second = publish_newsletter(&mut store, UserId::new(1), form("key-idem")).unwrap();
    assert_responses_equal(&first, &second);
    // the side effect happened exactly once
    assert_eq!(store.delivery_queue_len(), 1);
    assert!(!store.delivery_queue_contains(0, &"late@example.com".to_string()));
}

#[test]
fn duplicate_submissions_get_the_same_status_and_body() {
    let mut store = Store::new();
    add_confirmed_subscriber(&mut store, "one@example.com", "token-1");

    let first = publish_newsletter(&mut store, UserId::new(4), form("key-race")).unwrap();
    let second = publish_newsletter(&mut store, UserId::new(4), form("key-race")).unwrap();
    assert_eq!(first.status_code, second.status_code);
    assert_eq!(first.body, second.body);
    assert_eq!(store.delivery_queue_len_for_issue(0), 1);
    assert_eq!(store.delivery_queue_len(), 1);
}

#[test]
fn a_duplicate_while_the_claim_is_open_is_refused() {
    let mut store = Store::new();
    add_confirmed_subscriber(&mut store, "one@example.com", "token-1");
    let k = IdempotencyKey::parse("key-open".to_string()).unwrap();
    let user = UserId::new(4);

    // one replica claimed the key and has not committed yet
    let claim = try_processing(&mut store, &k, user).unwrap();
    assert!(matches!(claim, NextAction::StartProcessing(_)));

    // the racing replica's submit is refused, with nothing enqueued
    let error = publish_newsletter(&mut store, user, form("key-open")).unwrap_err();
    assert_eq!(error.status_code, 500);
    assert_eq!(error.message, "We expected a saved response, we didn't find it.");
    assert_eq!(store.delivery_queue_len(), 0);
}

#[test]
fn an_invalid_idempotency_key_is_a_bad_request() {
    let mut store = Store::new();
    add_confirmed_subscriber(&mut store, "one@example.com", "token-1");

    let error = publish_newsletter(&mut store, UserId::new(1), form("not a key!")).unwrap_err();
    assert_eq!(error.status_code, 400);
    assert_eq!(
        error.message,
        "The idempotency key must use only ASCII letters, digits, '-' and '_'."
    );
    assert_eq!(store.delivery_queue_len(), 0);
}

#[test]
fn distinct_keys_publish_distinct_issues() {
    let mut store = Store::new();
    add_confirmed_subscriber(&mut store, "one@example.com", "token-1");

    publish_newsletter(&mut store, UserId::new(1), form("key-a")).unwrap();
    publish_newsletter(&mut store, UserId::new(1), form("key-b")).unwrap();

    assert_eq!(store.delivery_queue_len(), 2);
    assert_eq!(store.delivery_queue_len_for_issue(0), 1);
    assert_eq!(store.delivery_queue_len_for_issue(1), 1);
}

#[test]
fn publishing_flashes_a_success_message() {
    assert_eq!(
        success_message(),
        "The newsletter issue has been accepted - emails will go out shortly."
    );
}
