//! Publishing a newsletter by direct API call, guarded by HTTP Basic
//! authentication.
//!
//! This is the immediate-delivery path: the handler authenticates the
//! caller, reads the confirmed subscribers and sends to each of them in
//! the request itself, aborting on the first transport failure. The
//! queue-backed path in [`crate::admin_newsletter`] supersedes it, but
//! the route and its error mapping remain part of the API surface.

use vstd::prelude::*;
use vstd::utf8::{decode_utf8, encode_utf8, encode_utf8_decode_utf8, valid_utf8};

use crate::authentication::{AuthError, Credentials, CredentialsV, UserId};
use crate::domain::{valid_subscriber_email, SubscriberEmail};
use crate::email_client::{EmailClient, EmailClientV, SentEmailV};
use crate::response::{HeaderPairRecord, HeaderPairV, SavedResponse, SavedResponseV};
use crate::store::{confirmed_emails, Store, SubscriptionStatus};

verus! {

/// What base64's standard engine decodes a text to: a function of the
/// text alone, with no decoding for text that is not valid padded
/// standard-alphabet base64.
pub uninterp spec fn base64_standard_decoding(s: Seq<char>) -> Option<Seq<u8>>;

/// Relies on base64's `Engine::decode` with the `STANDARD`
/// general-purpose engine: the decoding is a function of the input text
/// alone, and input that is not valid padded standard-alphabet base64 is
/// refused.
#[verifier::external_body]
fn base64_decode(encoded: &str) -> (r: Option<Vec<u8>>)
    ensures
        match r {
            Some(v) => base64_standard_decoding(encoded@) == Some(v@),
            None => base64_standard_decoding(encoded@) is None,
        },
{
    base64::Engine::decode(&base64::engine::general_purpose::STANDARD, encoded).ok()
}

/// Relies on `String::from_utf8`: it succeeds exactly on valid UTF-8 and
/// returns the string those bytes encode.
#[verifier::external_body]
fn bytes_to_string(bytes: Vec<u8>) -> (r: Option<String>)
    ensures
        match r {
            Some(s) => valid_utf8(bytes@) && encode_utf8(s@) == bytes@,
            None => !valid_utf8(bytes@),
        },
{
    String::from_utf8(bytes).ok()
}

/// The character's code with ASCII upper case folded to lower case.
pub open spec fn lower_ascii(c: char) -> u32 {
    let n = c as u32;
    if ('A' as u32) <= n <= ('Z' as u32) {
        (n + 32) as u32
    } else {
        n
    }
}

/// Equality up to ASCII case, as HTTP header names are compared.
pub open spec fn eq_ignore_ascii_case(a: Seq<char>, b: Seq<char>) -> bool {
    a.len() == b.len() && forall|i: int| 0 <= i < a.len() ==> lower_ascii(a[i]) == lower_ascii(
        #[trigger] b[i],
    )
}

/// Compares two names up to ASCII case.
#[verifier::loop_isolation(false)]
fn ascii_eq_ignore_case(a: &str, b: &str) -> (r: bool)
    ensures
        r == eq_ignore_ascii_case(a@, b@),
{
    let alen = a.unicode_len();
    let blen = b.unicode_len();
    if alen != blen {
        return false;
    }
    let mut i: usize = 0;
    while i < alen
        invariant
            i <= alen,
            forall|j: int| 0 <= j < i ==> lower_ascii(a@[j]) == lower_ascii(#[trigger] b@[j]),
        decreases alen - i,
    {
        let ca = a.get_char(i) as u32;
        let cb = b.get_char(i) as u32;
        let la = if 65 <= ca && ca <= 90 {
            ca + 32
        } else {
            ca
        };
        let lb = if 65 <= cb && cb <= 90 {
            cb + 32
        } else {
            cb
        };
        proof {
            assert(la == lower_ascii(a@[i as int]) && lb == lower_ascii(b@[i as int]));
        }
        if la != lb {
            return false;
        }
        i += 1;
    }
    true
}

/// The first header carrying this name, up to ASCII case.
pub open spec fn find_header(headers: Seq<HeaderPairV>, name: Seq<char>) -> Option<int>
    decreases headers.len(),
{
    if headers.len() == 0 {
        None
    } else if eq_ignore_ascii_case(headers[0].name, name) {
        Some(0)
    } else {
        match find_header(headers.drop_first(), name) {
            Some(i) => Some(i + 1),
            None => None,
        }
    }
}

/// A matching header behind only mismatches is the one `find_header`
/// returns.
proof fn lemma_find_header_at(headers: Seq<HeaderPairV>, name: Seq<char>, i: int)
    requires
        0 <= i < headers.len(),
        eq_ignore_ascii_case(headers[i].name, name),
        forall|j: int| 0 <= j < i ==> !eq_ignore_ascii_case((#[trigger] headers[j]).name, name),
    ensures
        find_header(headers, name) == Some(i),
    decreases headers.len(),
{
    if i > 0 {
        assert(forall|j: int|
            0 <= j < i - 1 ==> (#[trigger] headers.drop_first()[j]).name == headers[j + 1].name);
        lemma_find_header_at(headers.drop_first(), name, i - 1);
    }
}

/// With no matching header, `find_header` finds nothing.
proof fn lemma_find_header_none(headers: Seq<HeaderPairV>, name: Seq<char>)
    requires
        forall|j: int|
            0 <= j < headers.len() ==> !eq_ignore_ascii_case((#[trigger] headers[j]).name, name),
    ensures
        find_header(headers, name) is None,
    decreases headers.len(),
{
    if headers.len() > 0 {
        assert(forall|j: int|
            0 <= j < headers.drop_first().len() ==> (#[trigger] headers.drop_first()[j]).name
                == headers[j + 1].name);
        lemma_find_header_none(headers.drop_first(), name);
    }
}

/// The first colon in a credential string.
pub open spec fn find_colon(s: Seq<char>) -> Option<int>
    decreases s.len(),
{
    if s.len() == 0 {
        None
    } else if s[0] == ':' {
        Some(0)
    } else {
        match find_colon(s.drop_first()) {
            Some(i) => Some(i + 1),
            None => None,
        }
    }
}

/// A colon behind only other characters is the one `find_colon` returns.
proof fn lemma_find_colon_at(s: Seq<char>, i: int)
    requires
        0 <= i < s.len(),
        s[i] == ':',
        forall|j: int| 0 <= j < i ==> s[j] != ':',
    ensures
        find_colon(s) == Some(i),
    decreases s.len(),
{
    if i > 0 {
        assert(forall|j: int| 0 <= j < i - 1 ==> s.drop_first()[j] == s[j + 1]);
        lemma_find_colon_at(s.drop_first(), i - 1);
    }
}

/// With no colon, `find_colon` finds nothing.
proof fn lemma_find_colon_none(s: Seq<char>)
    requires
        forall|j: int| 0 <= j < s.len() ==> s[j] != ':',
    ensures
        find_colon(s) is None,
    decreases s.len(),
{
    if s.len() > 0 {
        assert(forall|j: int| 0 <= j < s.drop_first().len() ==> s.drop_first()[j] == s[j + 1]);
        lemma_find_colon_none(s.drop_first());
    }
}

/// Why Basic authentication parsing failed.
#[derive(Clone, Copy, PartialEq, Eq, Structural, Debug)]
pub enum BasicAuthError {
    /// No `Authorization` header was sent.
    MissingHeader,
    /// The header value is not valid UTF-8.
    HeaderNotUtf8,
    /// The authorization scheme is not `Basic`.
    SchemeNotBasic,
    /// The credential segment is not valid base64.
    InvalidBase64,
    /// The decoded credential bytes are not valid UTF-8.
    CredentialsNotUtf8,
    /// The decoded credentials hold no `:` separating a password.
    MissingPassword,
}

impl BasicAuthError {
    /// The message the failure is reported with.
    pub fn message(&self) -> (r: &'static str)
        ensures
            r@ == match self {
                BasicAuthError::MissingHeader => "The 'Authorization' header was missing."@,
                BasicAuthError::HeaderNotUtf8 => "The 'Authorization' header was not a valid UTF8 string."@,
                BasicAuthError::SchemeNotBasic => "The authorization scheme was not 'Basic'."@,
                BasicAuthError::InvalidBase64 => "Failed to base64-decode 'Basic' credentials."@,
                BasicAuthError::CredentialsNotUtf8 => "The decoded credential string is not valid UTF8."@,
                BasicAuthError::MissingPassword => "A password must be provided in 'Basic' auth."@,
            },
    {
        match self {
            BasicAuthError::MissingHeader => "The 'Authorization' header was missing.",
            BasicAuthError::HeaderNotUtf8 => "The 'Authorization' header was not a valid UTF8 string.",
            BasicAuthError::SchemeNotBasic => "The authorization scheme was not 'Basic'.",
            BasicAuthError::InvalidBase64 => "Failed to base64-decode 'Basic' credentials.",
            BasicAuthError::CredentialsNotUtf8 => "The decoded credential string is not valid UTF8.",
            BasicAuthError::MissingPassword => "A password must be provided in 'Basic' auth.",
        }
    }
}

/// Parsing the `Authorization` header as one deterministic function:
/// find the header, decode its value as UTF-8, strip the `Basic `
/// scheme, decode the base64 segment, decode the credential bytes as
/// UTF-8, and split user from password at the first colon.
pub open spec fn basic_auth_spec(headers: Seq<HeaderPairV>) -> Result<
    CredentialsV,
    BasicAuthError,
> {
    match find_header(headers, "Authorization"@) {
        None => Err(BasicAuthError::MissingHeader),
        Some(h) => {
            let value = headers[h].value;
            if !valid_utf8(value) {
                Err(BasicAuthError::HeaderNotUtf8)
            } else {
                let text = decode_utf8(value);
                if !(text.len() >= 6 && text.subrange(0, 6) == "Basic "@) {
                    Err(BasicAuthError::SchemeNotBasic)
                } else {
                    match base64_standard_decoding(text.skip(6)) {
                        None => Err(BasicAuthError::InvalidBase64),
                        Some(decoded) => {
                            if !valid_utf8(decoded) {
                                Err(BasicAuthError::CredentialsNotUtf8)
                            } else {
                                let credentials = decode_utf8(decoded);
                                match find_colon(credentials) {
                                    None => Err(BasicAuthError::MissingPassword),
                                    Some(p) => Ok(
                                        CredentialsV {
                                            username: credentials.take(p),
                                            password: credentials.skip(p + 1),
                                        },
                                    ),
                                }
                            }
                        },
                    }
                }
            }
        },
    }
}

/// Extracts the credentials a request presented through HTTP Basic
/// authentication.
#[verifier::loop_isolation(false)]
pub fn basic_authentication(headers: &Vec<HeaderPairRecord>) -> (r: Result<
    Credentials,
    BasicAuthError,
>)
    ensures
        match (r, basic_auth_spec(headers@.map_values(|h: HeaderPairRecord| h@))) {
            (Ok(c), Ok(cv)) => c@ == cv,
            (Err(e), Err(ev)) => e == ev,
            _ => false,
        },
{
    let ghost hv = headers@.map_values(|h: HeaderPairRecord| h@);
    let mut h: usize = 0;
    let mut found: Option<usize> = None;
    while h < headers.len() && found.is_none()
        invariant
            h <= hv.len(),
            match found {
                Some(f) => f == h - 1 && h >= 1 && eq_ignore_ascii_case(
                    hv[f as int].name,
                    "Authorization"@,
                ) && forall|j: int|
                    0 <= j < f ==> !eq_ignore_ascii_case(
                        (#[trigger] hv[j]).name,
                        "Authorization"@,
                    ),
                None => forall|j: int|
                    0 <= j < h ==> !eq_ignore_ascii_case((#[trigger] hv[j]).name, "Authorization"@),
            },
        decreases hv.len() - h,
    {
        if ascii_eq_ignore_case(headers[h].name.as_str(), "Authorization") {
            found = Some(h);
        }
        h += 1;
    }
    let idx = match found {
        Some(f) => f,
        None => {
            proof {
                lemma_find_header_none(hv, "Authorization"@);
            }
            return Err(BasicAuthError::MissingHeader);
        },
    };
    proof {
        lemma_find_header_at(hv, "Authorization"@, idx as int);
    }
    let value = crate::response::clone_bytes(&headers[idx].value);
    let ghost value_v = value@;
    let text = match bytes_to_string(value) {
        Some(text) => text,
        None => {
            return Err(BasicAuthError::HeaderNotUtf8);
        },
    };
    proof {
        encode_utf8_decode_utf8(text@);
        assert(decode_utf8(value_v) == text@);
    }
    let text_len = text.as_str().unicode_len();
    proof {
        reveal_strlit("Basic ");
    }
    if text_len < 6 {
        return Err(BasicAuthError::SchemeNotBasic);
    }
    if !(text.as_str().get_char(0) == 'B' && text.as_str().get_char(1) == 'a'
        && text.as_str().get_char(2) == 's' && text.as_str().get_char(3) == 'i'
        && text.as_str().get_char(4) == 'c' && text.as_str().get_char(5) == ' ') {
        proof {
            assert(text@.subrange(0, 6) != "Basic "@) by {
                assert("Basic "@[0] == 'B' && "Basic "@[1] == 'a' && "Basic "@[2] == 's'
                    && "Basic "@[3] == 'i' && "Basic "@[4] == 'c' && "Basic "@[5] == ' ');
                if text@.subrange(0, 6) == "Basic "@ {
                    assert(forall|k: int|
                        0 <= k < 6 ==> #[trigger] text@.subrange(0, 6)[k] == text@[k]);
                    assert(text@[0] == 'B' && text@[1] == 'a' && text@[2] == 's' && text@[3] == 'i'
                        && text@[4] == 'c' && text@[5] == ' ');
                }
            }
        }
        return Err(BasicAuthError::SchemeNotBasic);
    }
    proof {
        assert(text@.subrange(0, 6) =~= "Basic "@);
    }
    let segment = text.as_str().substring_char(6, text_len);
    proof {
        assert(segment@ =~= text@.skip(6));
    }
    let decoded = match base64_decode(segment) {
        Some(decoded) => decoded,
        None => {
            return Err(BasicAuthError::InvalidBase64);
        },
    };
    let ghost decoded_v = decoded@;
    let credentials_text = match bytes_to_string(decoded) {
        Some(t) => t,
        None => {
            return Err(BasicAuthError::CredentialsNotUtf8);
        },
    };
    proof {
        encode_utf8_decode_utf8(credentials_text@);
        assert(decode_utf8(decoded_v) == credentials_text@);
    }
    let credentials_len = credentials_text.as_str().unicode_len();
    let mut p: usize = 0;
    let mut colon: Option<usize> = None;
    while p < credentials_len && colon.is_none()
        invariant
            p <= credentials_len,
            credentials_len == credentials_text@.len(),
            match colon {
                Some(c) => c == p - 1 && p >= 1 && credentials_text@[c as int] == ':' && forall|
                    j: int,
                |
                    0 <= j < c ==> credentials_text@[j] != ':',
                None => forall|j: int| 0 <= j < p ==> credentials_text@[j] != ':',
            },
        decreases credentials_len - p,
    {
        if credentials_text.as_str().get_char(p) == ':' {
            colon = Some(p);
        }
        p += 1;
    }
    let colon = match colon {
        Some(c) => c,
        None => {
            proof {
                lemma_find_colon_none(credentials_text@);
            }
            return Err(BasicAuthError::MissingPassword);
        },
    };
    proof {
        lemma_find_colon_at(credentials_text@, colon as int);
    }
    let username = text_of(credentials_text.as_str().substring_char(0, colon));
    let password = text_of(
        credentials_text.as_str().substring_char(colon + 1, credentials_len),
    );
    proof {
        assert(username@ =~= credentials_text@.take(colon as int));
        assert(password@ =~= credentials_text@.skip(colon + 1));
    }
    Ok(Credentials { username, password })
}

/// An owned copy of a borrowed string slice.
fn text_of(s: &str) -> (r: String)
    ensures
        r@ == s@,
{
    s.to_owned()
}

/// The submitted issue body.
#[derive(Debug)]
pub struct BodyData {
    pub title: String,
    pub content: Content,
}

/// The issue content in both renderings.
#[derive(Debug)]
pub struct Content {
    pub html: String,
    pub text: String,
}

/// A stored subscriber whose address passed validation.
#[derive(Debug)]
pub struct ConfirmedSubscriber {
    pub email: SubscriberEmail,
}

/// Why the API publish failed.
#[derive(Debug)]
pub enum PublishError {
    /// Authentication failed; the message describes how.
    AuthError(String),
    /// Anything else; the message describes it.
    UnexpectedError(String),
}

/// The response a failed authentication is answered with: a challenge
/// naming the `publish` realm.
pub open spec fn unauthorized_response() -> SavedResponseV {
    SavedResponseV {
        status_code: 401,
        headers: seq![
            HeaderPairV {
                name: "www-authenticate"@,
                value: encode_utf8("Basic realm=\"publish\""@),
            },
        ],
        body: Seq::<u8>::empty(),
    }
}

impl PublishError {
    /// The message the failure is reported with.
    pub fn message(&self) -> (r: &str)
        ensures
            r@ == match self {
                PublishError::AuthError(_) => "Authentication failed"@,
                PublishError::UnexpectedError(m) => m@,
            },
    {
        match self {
            PublishError::AuthError(_) => "Authentication failed",
            PublishError::UnexpectedError(m) => m.as_str(),
        }
    }

    /// The response the failure is answered with: a challenge for a
    /// failed authentication, a bare server error otherwise.
    pub fn error_response(&self) -> (r: SavedResponse)
        ensures
            r@ == match self {
                PublishError::AuthError(_) => unauthorized_response(),
                PublishError::UnexpectedError(_) => (SavedResponseV {
                    status_code: 500,
                    headers: Seq::<HeaderPairV>::empty(),
                    body: Seq::<u8>::empty(),
                }),
            },
    {
        match self {
            PublishError::AuthError(_) => {
                let value = "Basic realm=\"publish\"".as_bytes_vec();
                let mut headers: Vec<HeaderPairRecord> = Vec::new();
                headers.push(
                    HeaderPairRecord { name: String::from_str("www-authenticate"), value },
                );
                let r = SavedResponse { status_code: 401, headers, body: Vec::new() };
                proof {
                    assert(r@.headers =~= unauthorized_response().headers);
                    assert(r@ =~= unauthorized_response());
                }
                r
            },
            PublishError::UnexpectedError(_) => {
                let r = SavedResponse { status_code: 500, headers: Vec::new(), body: Vec::new() };
                proof {
                    assert(r@.headers =~= Seq::<HeaderPairV>::empty());
                    assert(r@.body =~= Seq::<u8>::empty());
                }
                r
            },
        }
    }
}

/// Reads the confirmed subscribers, each address either parsed or kept
/// as a validation failure for the caller to log and skip.
#[verifier::loop_isolation(false)]
pub fn get_confirmed_subscribers(store: &Store) -> (r: Vec<Result<ConfirmedSubscriber, String>>)
    requires
        store@.wf(),
    ensures
        r@.len() == confirmed_emails(store@.subscriptions).len(),
        forall|i: int|
            0 <= i < r@.len() ==> match #[trigger] r@[i] {
                Ok(subscriber) => valid_subscriber_email(
                    confirmed_emails(store@.subscriptions)[i],
                ) && subscriber.email@ == confirmed_emails(store@.subscriptions)[i],
                Err(_) => !valid_subscriber_email(confirmed_emails(store@.subscriptions)[i]),
            },
{
    let mut r: Vec<Result<ConfirmedSubscriber, String>> = Vec::new();
    let mut i: usize = 0;
    while i < store.subscriptions.len()
        invariant
            i <= store@.subscriptions.len(),
            r@.len() == confirmed_emails(store@.subscriptions.take(i as int)).len(),
            forall|j: int|
                0 <= j < r@.len() ==> match #[trigger] r@[j] {
                    Ok(subscriber) => valid_subscriber_email(
                        confirmed_emails(store@.subscriptions.take(i as int))[j],
                    ) && subscriber.email@ == confirmed_emails(
                        store@.subscriptions.take(i as int),
                    )[j],
                    Err(_) => !valid_subscriber_email(
                        confirmed_emails(store@.subscriptions.take(i as int))[j],
                    ),
                },
        decreases store@.subscriptions.len() - i,
    {
        proof {
            assert(store@.subscriptions.take(i + 1).drop_last() =~= store@.subscriptions.take(
                i as int,
            ));
        }
        match store.subscriptions[i].status {
            SubscriptionStatus::Confirmed => {
                proof {
                    assert(confirmed_emails(store@.subscriptions.take(i + 1))
                        =~= confirmed_emails(store@.subscriptions.take(i as int)).push(
                        store@.subscriptions[i as int].email,
                    ));
                }
                match SubscriberEmail::parse(store.subscriptions[i].email.clone()) {
                    Ok(email) => {
                        r.push(Ok(ConfirmedSubscriber { email }));
                    },
                    Err(error) => {
                        r.push(Err(error));
                    },
                }
            },
            SubscriptionStatus::PendingConfirmation => {
                proof {
                    assert(confirmed_emails(store@.subscriptions.take(i + 1))
                        =~= confirmed_emails(store@.subscriptions.take(i as int)));
                }
            },
        }
        i += 1;
    }
    proof {
        assert(store@.subscriptions.take(store@.subscriptions.len() as int)
            =~= store@.subscriptions);
    }
    r
}

/// The attempted sends of the direct-delivery loop, and the address of
/// the send the loop aborted on, if the transport failed one. Addresses
/// that fail validation are skipped; with a failing transport the loop
/// stops at the first valid address.
pub open spec fn direct_send_run(
    emails: Seq<Seq<char>>,
    title: Seq<char>,
    html: Seq<char>,
    text: Seq<char>,
    fail_sends: bool,
) -> (Seq<SentEmailV>, Option<Seq<char>>)
    decreases emails.len(),
{
    if emails.len() == 0 {
        (Seq::empty(), None)
    } else if !valid_subscriber_email(emails[0]) {
        direct_send_run(emails.drop_first(), title, html, text, fail_sends)
    } else {
        let attempt = SentEmailV {
            recipient: emails[0],
            subject: title,
            html_content: html,
            text_content: text,
        };
        if fail_sends {
            (seq![attempt], Some(emails[0]))
        } else {
            let (rest, aborted) = direct_send_run(
                emails.drop_first(),
                title,
                html,
                text,
                fail_sends,
            );
            (seq![attempt] + rest, aborted)
        }
    }
}

/// Publishes an issue by sending it to every confirmed subscriber within
/// the request itself. The caller resolves Basic authentication through
/// [`basic_authentication`] and the credential check, and hands in the
/// outcome; a transport failure aborts the loop and surfaces as an
/// unexpected error, while an invalid stored address is only skipped.
#[verifier::loop_isolation(false)]
pub fn publish_newsletter(
    store: &Store,
    email_client: &mut EmailClient,
    body: BodyData,
    credential_check: Result<UserId, AuthError>,
) -> (r: Result<SavedResponse, PublishError>)
    requires
        store@.wf(),
    ensures
        ({
            let run = direct_send_run(
                confirmed_emails(store@.subscriptions),
                body.title@,
                body.content.html@,
                body.content.text@,
                old(email_client)@.fail_sends,
            );
            match credential_check {
                Err(_) => final(email_client)@ == old(email_client)@ && (r matches Err(
                    PublishError::AuthError(_),
                )),
                Ok(_) => {
                    &&& final(email_client)@ == (EmailClientV {
                        sent: old(email_client)@.sent + run.0,
                        ..old(email_client)@
                    })
                    &&& match (r, run.1) {
                        (Ok(resp), None) => resp@ == (SavedResponseV {
                            status_code: 200,
                            headers: Seq::<HeaderPairV>::empty(),
                            body: Seq::<u8>::empty(),
                        }),
                        (Err(PublishError::UnexpectedError(m)), Some(failed)) => m@
                            == "Failed to send newsletter issue to "@ + failed + "."@,
                        _ => false,
                    }
                },
            }
        }),
{
    let ghost pre_client = email_client@;
    match credential_check {
        Ok(_) => (),
        Err(e) => {
            let message = match e {
                AuthError::InvalidCredentials(m) => m,
                AuthError::UnexpectedError(m) => m,
            };
            return Err(PublishError::AuthError(message));
        },
    }
    let subscribers = get_confirmed_subscribers(store);
    let ghost all = confirmed_emails(store@.subscriptions);
    let ghost title_v = body.title@;
    let ghost html_v = body.content.html@;
    let ghost text_v = body.content.text@;
    let ghost fail_v = pre_client.fail_sends;
    let ghost run = direct_send_run(all, title_v, html_v, text_v, fail_v);
    let ghost pre_len = pre_client.sent.len() as int;
    proof {
        assert(all.skip(0) =~= all);
        assert(email_client@.sent.subrange(pre_len, email_client@.sent.len() as int) =~= Seq::<
            SentEmailV,
        >::empty());
        assert(Seq::<SentEmailV>::empty() + run.0 =~= run.0);
    }
    let mut i: usize = 0;
    while i < subscribers.len()
        invariant
            i <= all.len(),
            subscribers@.len() == all.len(),
            forall|j: int|
                0 <= j < all.len() ==> match #[trigger] subscribers@[j] {
                    Ok(subscriber) => valid_subscriber_email(all[j]) && subscriber.email@
                        == all[j],
                    Err(_) => !valid_subscriber_email(all[j]),
                },
            email_client@.fail_sends == fail_v,
            email_client@.sent.subrange(0, pre_len) == pre_client.sent,
            pre_len <= email_client@.sent.len(),
            run.0 == email_client@.sent.subrange(pre_len, email_client@.sent.len() as int)
                + direct_send_run(all.skip(i as int), title_v, html_v, text_v, fail_v).0,
            run.1 == direct_send_run(all.skip(i as int), title_v, html_v, text_v, fail_v).1,
        decreases all.len() - i,
    {
        proof {
            assert(all.skip(i as int).drop_first() =~= all.skip(i + 1));
            assert(all.skip(i as int)[0] == all[i as int]);
        }
        match &subscribers[i] {
            Ok(subscriber) => {
                let ghost sent_before = email_client@.sent;
                let outcome = email_client.send_email(
                    &subscriber.email,
                    body.title.as_str(),
                    body.content.html.as_str(),
                    body.content.text.as_str(),
                );
                let ghost attempt = SentEmailV {
                    recipient: all[i as int],
                    subject: title_v,
                    html_content: html_v,
                    text_content: text_v,
                };
                proof {
                    assert(email_client@.sent.subrange(0, pre_len) =~= pre_client.sent);
                    assert(email_client@.sent.subrange(pre_len, email_client@.sent.len() as int)
                        =~= sent_before.subrange(pre_len, sent_before.len() as int).push(attempt));
                    assert(sent_before.subrange(pre_len, sent_before.len() as int).push(attempt)
                        =~= sent_before.subrange(pre_len, sent_before.len() as int) + seq![
                        attempt,
                    ]);
                }
                match outcome {
                    Ok(_) => {
                        proof {
                            let tail = direct_send_run(
                                all.skip(i + 1),
                                title_v,
                                html_v,
                                text_v,
                                fail_v,
                            );
                            assert(direct_send_run(all.skip(i as int), title_v, html_v, text_v,
                                fail_v).0 =~= seq![attempt] + tail.0);
                            assert(run.0 =~= email_client@.sent.subrange(
                                pre_len,
                                email_client@.sent.len() as int,
                            ) + tail.0);
                        }
                    },
                    Err(_) => {
                        let mut message = String::from_str(
                            "Failed to send newsletter issue to ",
                        );
                        message.append(subscriber.email.as_str());
                        message.append(".");
                        proof {
                            assert(direct_send_run(all.skip(i as int), title_v, html_v, text_v,
                                fail_v).0 =~= seq![attempt]);
                            assert(run.0 =~= email_client@.sent.subrange(
                                pre_len,
                                email_client@.sent.len() as int,
                            ));
                            assert(email_client@.sent =~= pre_client.sent + run.0);
                            assert(email_client@ =~= (EmailClientV {
                                sent: pre_client.sent + run.0,
                                ..pre_client
                            }));
                        }
                        return Err(PublishError::UnexpectedError(message));
                    },
                }
            },
            Err(_) => {
                // the stored address is invalid: skipped, never sent
            },
        }
        i += 1;
    }
    proof {
        assert(all.skip(all.len() as int) =~= Seq::<Seq<char>>::empty());
        assert(run.0 =~= email_client@.sent.subrange(pre_len, email_client@.sent.len() as int));
        assert(email_client@.sent =~= pre_client.sent + run.0);
        assert(email_client@ =~= (EmailClientV { sent: pre_client.sent + run.0, ..pre_client }));
    }
    let r = SavedResponse { status_code: 200, headers: Vec::new(), body: Vec::new() };
    proof {
        assert(r@.headers =~= Seq::<HeaderPairV>::empty());
        assert(r@.body =~= Seq::<u8>::empty());
    }
    Ok(r)
}

} // verus!
