use zero2prod::authentication::{AuthError, UserId};
use zero2prod::email_client::EmailClient;
use zero2prod::newsletters::{
    basic_authentication, publish_newsletter, BasicAuthError, BodyData, Content, PublishError,
};
use zero2prod::response::HeaderPairRecord;
use zero2prod::store::Store;
use zero2prod::subscriptions_confirm::{confirm, Parameters};

fn auth_header(value: &[u8]) -> Vec<HeaderPairRecord> {
    vec![HeaderPairRecord { name: "Authorization".to_string(), value: value.to_vec() }]
}

fn body() -> BodyData {
    BodyData {
        title: "Newsletter title".to_string(),
        content: Content {
            html: "<p>Newsletter body as HTML</p>".to_string(),
            text: "Newsletter body as plain text".to_string(),
        },
    }
}

fn store_with_confirmed(emails: &[&str]) -> Store {
    let mut store = Store::new();
    for (i, email) in emails.iter().enumerate() {
        store
            .insert_subscriber(email.to_string(), format!("token-{}", i))
            .unwrap();
        let response =
            confirm(&mut store, &Parameters { subscription_token: format!("token-{}", i) });
        assert_eq!(response.status_code, 200);
    }
    store
}

#[test]
fn well_formed_basic_credentials_are_decoded() {
    // "dXNlcjpwYXNz" is the base64 encoding of "user:pass"
    let credentials = basic_authentication(&auth_header(b"Basic dXNlcjpwYXNz")).unwrap();
    assert_eq!(credentials.username, "user");
    assert_eq!(credentials.password, "pass");
}

#[test]
fn header_names_are_matched_case_insensitively() {
    let headers =
        vec![HeaderPairRecord { name: "authorization".to_string(), value: b"Basic dXNlcjpwYXNz".to_vec() }];
    assert!(basic_authentication(&headers).is_ok());
}

#[test]
fn a_missing_authorization_header_is_refused() {
    let error = basic_authentication(&Vec::new()).unwrap_err();
    assert_eq!(error, BasicAuthError::MissingHeader);
    assert_eq!(error.message(), "The 'Authorization' header was missing.");
}

#[test]
fn a_non_utf8_header_value_is_refused() {
    let error = basic_authentication(&auth_header(&[0x42, 0xFF, 0xFE])).unwrap_err();
    assert_eq!(error, BasicAuthError::HeaderNotUtf8);
}

#[test]
fn a_non_basic_scheme_is_refused() {
    let error = basic_authentication(&auth_header(b"Bearer dXNlcjpwYXNz")).unwrap_err();
    assert_eq!(error, BasicAuthError::SchemeNotBasic);
    assert_eq!(error.message(), "The authorization scheme was not 'Basic'.");
}

#[test]
fn a_broken_base64_segment_is_refused() {
    let error = basic_authentication(&auth_header(b"Basic !!!")).unwrap_err();
    assert_eq!(error, BasicAuthError::InvalidBase64);
}

#[test]
fn non_utf8_credentials_are_refused() {
    // "/w==" decodes to the single byte 0xFF
    let error = basic_authentication(&auth_header(b"Basic /w==")).unwrap_err();
    assert_eq!(error, BasicAuthError::CredentialsNotUtf8);
}

#[test]
fn credentials_without_a_colon_are_refused() {
    // "dXNlcnBhc3M=" is the base64 encoding of "userpass"
    let error = basic_authentication(&auth_header(b"Basic dXNlcnBhc3M=")).unwrap_err();
    assert_eq!(error, BasicAuthError::MissingPassword);
    assert_eq!(error.message(), "A password must be provided in 'Basic' auth.");
}

#[test]
fn the_password_may_itself_contain_colons() {
    // "dXNlcjpwYTpzcw==" is the base64 encoding of "user:pa:ss"
    let credentials = basic_authentication(&auth_header(b"Basic dXNlcjpwYTpzcw==")).unwrap();
    assert_eq!(credentials.username, "user");
    assert_eq!(credentials.password, "pa:ss");
}

#[test]
fn publishing_sends_to_every_confirmed_valid_subscriber() {
    let store = store_with_confirmed(&["a@example.com", "b@example.com"]);
    let mut client = EmailClient::new();
    let response =
        publish_newsletter(&store, &mut client, body(), Ok(UserId::new(1))).unwrap();
    assert_eq!(response.status_code, 200);
    assert_eq!(client.sent_count(), 2);
    let sent = client.sent_emails();
    assert_eq!(sent[0].recipient, "a@example.com");
    assert_eq!(sent[1].recipient, "b@example.com");
}

#[test]
fn an_invalid_stored_address_is_skipped_by_direct_delivery() {
    let store = store_with_confirmed(&["broken-address", "ok@example.com"]);
    let mut client = EmailClient::new();
    let response =
        publish_newsletter(&store, &mut client, body(), Ok(UserId::new(1))).unwrap();
    assert_eq!(response.status_code, 200);
    assert_eq!(client.sent_count(), 1);
    assert_eq!(client.sent_emails()[0].recipient, "ok@example.com");
}

#[test]
fn failed_authentication_is_answered_with_a_challenge() {
    let store = store_with_confirmed(&["a@example.com"]);
    let mut client = EmailClient::new();
    let error = publish_newsletter(
        &store,
        &mut client,
        body(),
        Err(AuthError::InvalidCredentials("unknown user".to_string())),
    )
    .unwrap_err();
    assert!(matches!(error, PublishError::AuthError(_)));
    assert_eq!(client.sent_count(), 0);

    let response = error.error_response();
    assert_eq!(response.status_code, 401);
    assert_eq!(response.headers.len(), 1);
    assert_eq!(response.headers[0].name, "www-authenticate");
    assert_eq!(response.headers[0].value, b"Basic realm=\"publish\"".to_vec());
}

#[test]
fn a_transport_failure_aborts_direct_delivery() {
    let store = store_with_confirmed(&["a@example.com", "b@example.com"]);
    let mut client = EmailClient::new();
    client.set_fail_sends(true);
    let error =
        publish_newsletter(&store, &mut client, body(), Ok(UserId::new(1))).unwrap_err();
    match error {
        PublishError::UnexpectedError(message) => {
            assert_eq!(message, "Failed to send newsletter issue to a@example.com.");
        }
        PublishError::AuthError(_) => panic!("a transport failure is not an auth failure"),
    }
    // the loop aborted at the first attempt
    assert_eq!(client.sent_count(), 1);
}

#[test]
fn an_unexpected_error_is_answered_with_a_server_error() {
    let error = PublishError::UnexpectedError("boom".to_string());
    let response = error.error_response();
    assert_eq!(response.status_code, 500);
    assert_eq!(response.headers.len(), 0);
    assert_eq!(response.body.len(), 0);
}
