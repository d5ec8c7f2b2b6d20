use zero2prod::admin_newsletter::{publish_newsletter, FormData};
use zero2prod::authentication::UserId;
use zero2prod::email_client::{EmailClient, TransientError};
use zero2prod::issue_delivery_worker::{
    delete_task, dequeue_task, release_task, try_execute_task, worker_backoff_seconds,
    ExecutionOutcome,
};
use zero2prod::store::Store;
use zero2prod::subscriptions_confirm::{confirm, Parameters};

fn form(idempotency_key: &str) -> FormData {
    FormData {
        title: "Issue".to_string(),
        text_content: "plain".to_string(),
        html_content: "<p>html</p>".to_string(),
        idempotency_key: idempotency_key.to_string(),
    }
}

fn add_confirmed_subscriber(store: &mut Store, email: &str, token: &str) {
    store
        .insert_subscriber(email.to_string(), token.to_string())
        .unwrap();
    let response = confirm(store, &Parameters { subscription_token: token.to_string() });
    assert_eq!(response.status_code, 200);
}

fn published_store(emails: &[&str]) -> Store {
    let mut store = Store::new();
    for (i, email) in emails.iter().enumerate() {
        add_confirmed_subscriber(&mut store, email, &format!("token-{}", i));
    }
    publish_newsletter(&mut store, UserId::new(1), form("key-worker")).unwrap();
    store
}

#[test]
fn the_queue_drains_to_empty() {
    let mut store = published_store(&["a@example.com", "b@example.com", "c@example.com"]);
    let mut client = EmailClient::new();

    let mut completed = 0;
    loop {
        match try_execute_task(&mut store, &mut client) {
            ExecutionOutcome::TaskCompleted => completed += 1,
            ExecutionOutcome::EmptyQueue => break,
        }
        assert!(completed <= 3, "the worker must terminate");
    }
    assert_eq!(completed, 3);
    assert_eq!(store.delivery_queue_len(), 0);
    assert_eq!(client.sent_count(), 3);
}

#[test]
fn delivered_issues_carry_the_stored_content() {
    let mut store = published_store(&["a@example.com"]);
    let mut client = EmailClient::new();
    assert_eq!(
        try_execute_task(&mut store, &mut client),
        ExecutionOutcome::TaskCompleted
    );
    let sent = client.sent_emails();
    assert_eq!(sent.len(), 1);
    assert_eq!(sent[0].recipient, "a@example.com");
    assert_eq!(sent[0].subject, "Issue");
    assert_eq!(sent[0].html_content, "<p>html</p>");
    assert_eq!(sent[0].text_content, "plain");
}

#[test]
fn two_workers_never_claim_the_same_row() {
    let mut store = published_store(&["a@example.com", "b@example.com"]);

    // both workers claim before either finalizes
    let first = dequeue_task(&mut store).unwrap();
    let second = dequeue_task(&mut store).unwrap();
    assert!(
        !(first.newsletter_issue_id == second.newsletter_issue_id
            && first.subscriber_email == second.subscriber_email),
        "two claimants must never receive the same row"
    );
    // a third claimant sees nothing while both rows are locked
    assert!(dequeue_task(&mut store).is_none());

    // both finalize: exactly the two rows are gone
    delete_task(&mut store, first);
    delete_task(&mut store, second);
    assert_eq!(store.delivery_queue_len(), 0);
}

#[test]
fn an_abandoned_claim_becomes_claimable_again() {
    let mut store = published_store(&["a@example.com"]);

    let claim = dequeue_task(&mut store).unwrap();
    assert!(dequeue_task(&mut store).is_none());

    // the claimant crashes: its connection drops and the lock releases
    release_task(&mut store, claim);
    assert_eq!(store.delivery_queue_len(), 1);

    let reclaimed = dequeue_task(&mut store).unwrap();
    assert_eq!(reclaimed.subscriber_email, "a@example.com");
}

#[test]
fn an_invalid_stored_address_is_skipped_without_sending() {
    let mut store = Store::new();
    add_confirmed_subscriber(&mut store, "not-an-email", "token-bad");
    publish_newsletter(&mut store, UserId::new(1), form("key-bad-address")).unwrap();
    assert_eq!(store.delivery_queue_len(), 1);

    let mut client = EmailClient::new();
    assert_eq!(
        try_execute_task(&mut store, &mut client),
        ExecutionOutcome::TaskCompleted
    );
    // the row is gone and the transport was never invoked
    assert_eq!(store.delivery_queue_len(), 0);
    assert_eq!(client.sent_count(), 0);
}

#[test]
fn a_transport_failure_still_finalizes_the_row() {
    let mut store = published_store(&["a@example.com"]);
    let mut client = EmailClient::new();
    client.set_fail_sends(true);

    assert_eq!(
        try_execute_task(&mut store, &mut client),
        ExecutionOutcome::TaskCompleted
    );
    // the attempt was made, the failure swallowed, the row removed
    assert_eq!(client.sent_count(), 1);
    assert_eq!(store.delivery_queue_len(), 0);
}

#[test]
fn an_empty_queue_is_reported_as_such() {
    let mut store = Store::new();
    let mut client = EmailClient::new();
    assert_eq!(
        try_execute_task(&mut store, &mut client),
        ExecutionOutcome::EmptyQueue
    );
    assert_eq!(client.sent_count(), 0);
}

#[test]
fn the_loop_backs_off_by_outcome() {
    assert_eq!(worker_backoff_seconds(&Ok(ExecutionOutcome::TaskCompleted)), 0);
    assert_eq!(worker_backoff_seconds(&Ok(ExecutionOutcome::EmptyQueue)), 10);
    assert_eq!(
        worker_backoff_seconds(&Err(TransientError { reason: "database unavailable".to_string() })),
        1
    );
}

#[test]
fn a_drain_beside_an_open_claim_processes_all_other_rows() {
    let mut store = published_store(&["a@example.com", "b@example.com", "c@example.com"]);
    let mut client = EmailClient::new();

    // another worker instance holds one claim while this one drains
    let held = dequeue_task(&mut store).unwrap();
    let mut completed = 0;
    loop {
        match try_execute_task(&mut store, &mut client) {
            ExecutionOutcome::TaskCompleted => completed += 1,
            ExecutionOutcome::EmptyQueue => break,
        }
        assert!(completed <= 2, "the drain must terminate");
    }
    // exactly the held row remains, and it still finalizes
    assert_eq!(completed, 2);
    assert_eq!(store.delivery_queue_len(), 1);
    delete_task(&mut store, held);
    assert_eq!(store.delivery_queue_len(), 0);
}
