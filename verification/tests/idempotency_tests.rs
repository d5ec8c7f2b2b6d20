use zero2prod::authentication::UserId;
use zero2prod::idempotency::{
    get_saved_response, save_response, try_processing, IdempotencyError, IdempotencyKey,
    NextAction,
};
use zero2prod::response::SavedResponse;
use zero2prod::store::Store;

fn key(text: &str) -> IdempotencyKey {
    IdempotencyKey::parse(text.to_string()).unwrap()
}

fn plain_response(status_code: u16, body: &[u8]) -> SavedResponse {
    SavedResponse { status_code, headers: Vec::new(), body: body.to_vec() }
}

#[test]
fn a_uuid_like_key_is_accepted() {
    let parsed = IdempotencyKey::parse("4f9a2a5e-0b6c-4d1f-9c3a-2f8e7d6c5b4a".to_string());
    assert_eq!(parsed.unwrap().as_str(), "4f9a2a5e-0b6c-4d1f-9c3a-2f8e7d6c5b4a");
}

#[test]
fn an_empty_key_is_rejected() {
    let error = IdempotencyKey::parse("".to_string()).unwrap_err();
    assert_eq!(error, "The idempotency key cannot be empty.");
}

#[test]
fn an_overlong_key_is_rejected() {
    let error = IdempotencyKey::parse("a".repeat(51)).unwrap_err();
    assert_eq!(error, "The idempotency key must not be longer than 50 characters.");
}

#[test]
fn a_key_with_forbidden_characters_is_rejected() {
    let error = IdempotencyKey::parse("abc def".to_string()).unwrap_err();
    assert_eq!(
        error,
        "The idempotency key must use only ASCII letters, digits, '-' and '_'."
    );
}

#[test]
fn a_fifty_character_key_is_accepted() {
    assert!(IdempotencyKey::parse("x".repeat(50)).is_ok());
}

#[test]
fn the_first_claim_wins_processing() {
    let mut store = Store::new();
    match try_processing(&mut store, &key("k-1"), UserId::new(1)).unwrap() {
        NextAction::StartProcessing(_) => {}
        NextAction::ReturnSavedResponse(_) => panic!("a fresh key must start processing"),
    }
}

#[test]
fn a_duplicate_before_commit_surfaces_an_error() {
    let mut store = Store::new();
    let k = key("k-race");
    let user = UserId::new(1);
    let first = try_processing(&mut store, &k, user).unwrap();
    assert!(matches!(first, NextAction::StartProcessing(_)));
    let second = try_processing(&mut store, &k, user);
    let error = second.err().expect("the losing duplicate must not run the side effect");
    assert!(matches!(error, IdempotencyError::IncompleteClaim));
    assert_eq!(
        error.message(),
        "We expected a saved response, we didn't find it."
    );
}

#[test]
fn a_committed_claim_replays_its_response() {
    let mut store = Store::new();
    let k = key("k-commit");
    let user = UserId::new(9);
    let transaction = match try_processing(&mut store, &k, user).unwrap() {
        NextAction::StartProcessing(t) => t,
        NextAction::ReturnSavedResponse(_) => panic!("a fresh key must start processing"),
    };
    let returned = save_response(&mut store, transaction, &k, user, plain_response(201, b"done"));
    assert_eq!(returned.status_code, 201);
    assert_eq!(returned.body, b"done".to_vec());
    match try_processing(&mut store, &k, user).unwrap() {
        NextAction::ReturnSavedResponse(replayed) => {
            assert_eq!(replayed.status_code, 201);
            assert_eq!(replayed.body, b"done".to_vec());
            assert_eq!(replayed.headers.len(), 0);
        }
        NextAction::StartProcessing(_) => panic!("a completed key must replay"),
    }
}

#[test]
fn keys_are_scoped_to_their_principal() {
    let mut store = Store::new();
    let k = key("shared-key");
    let transaction = match try_processing(&mut store, &k, UserId::new(1)).unwrap() {
        NextAction::StartProcessing(t) => t,
        NextAction::ReturnSavedResponse(_) => panic!("a fresh key must start processing"),
    };
    save_response(&mut store, transaction, &k, UserId::new(1), plain_response(200, b""));
    // the same key under another principal is a fresh claim
    match try_processing(&mut store, &k, UserId::new(2)).unwrap() {
        NextAction::StartProcessing(_) => {}
        NextAction::ReturnSavedResponse(_) => {
            panic!("another principal must not see the saved response")
        }
    }
}

#[test]
fn the_saved_response_is_fetched_verbatim() {
    let mut store = Store::new();
    let k = key("k-fetch");
    let user = UserId::new(5);
    // no record at all: there is simply nothing saved
    assert!(matches!(get_saved_response(&store, &k, user), Ok(None)));
    let transaction = match try_processing(&mut store, &k, user).unwrap() {
        NextAction::StartProcessing(t) => t,
        NextAction::ReturnSavedResponse(_) => panic!("a fresh key must start processing"),
    };
    // the claim is open but nothing is saved yet: an error, not a miss
    assert!(matches!(
        get_saved_response(&store, &k, user),
        Err(IdempotencyError::IncompleteClaim)
    ));
    save_response(&mut store, transaction, &k, user, plain_response(303, b"redirect"));
    let saved = get_saved_response(&store, &k, user).unwrap().unwrap();
    assert_eq!(saved.status_code, 303);
    assert_eq!(saved.body, b"redirect".to_vec());
}
