//! The publish command: the caller-facing submit operation.
//!
//! `publish_newsletter` validates the caller-supplied idempotency key,
//! claims it or replays the saved response, and — on a won claim — writes
//! the issue once, fans one delivery queue row out per subscriber
//! confirmed at submit time, and commits fan-out and response atomically.
//! The whole transition is the deterministic function [`publish_spec`],
//! and the laws at the end of this module are proved about it.

use vstd::prelude::*;

use crate::authentication::UserId;
use crate::idempotency::{
    claim_begins, commit_spec, key_rejection_message, lemma_claim_record, lemma_commit_record,
    queue_rows, save_response, try_processing, valid_idempotency_key, IdempotencyKey, NextAction,
    PendingIssue, PendingIssueV, Transaction, TransactionV,
};
use crate::response::{SavedResponse, SavedResponseV};
use crate::store::{
    confirmed_emails, emails_distinct, entries_for_issue, lemma_confirmed_emails_distinct,
    lemma_entries_for_issue_all, lemma_entries_for_issue_concat, lemma_entries_for_issue_none,
    IdempotencyRecordV, Store, StoreV, SubscriptionStatus,
};
use crate::utils::{e400, e500, see_other, see_other_response, AppError, AppErrorV};

verus! {

/// The submitted form: the issue body and the caller-supplied
/// idempotency key.
#[derive(Debug)]
pub struct FormData {
    pub title: String,
    pub text_content: String,
    pub html_content: String,
    pub idempotency_key: String,
}

/// Buffers the newsletter issue body into the claiming transaction. The
/// issue row becomes durable, under a fresh id, when the transaction
/// commits.
pub fn insert_newsletter_issue(
    transaction: &mut Transaction,
    title: String,
    text_content: String,
    html_content: String,
)
    ensures
        final(transaction)@ == (TransactionV {
            pending_issue: Some(
                PendingIssueV {
                    title: title@,
                    text_content: text_content@,
                    html_content: html_content@,
                    emails: Seq::empty(),
                },
            ),
            ..old(transaction)@
        }),
{
    transaction.pending_issue = Some(
        PendingIssue { title, text_content, html_content, emails: Vec::new() },
    );
    proof {
        assert(transaction@.pending_issue->Some_0.emails =~= Seq::<Seq<char>>::empty());
        assert(transaction@ =~= (TransactionV {
            pending_issue: Some(transaction@.pending_issue->Some_0),
            ..old(transaction)@
        }));
    }
}

/// Snapshots the addresses of the subscribers confirmed right now into
/// the claiming transaction: one delivery row per address becomes
/// durable when the transaction commits. Later confirmations are not
/// retroactively included.
#[verifier::loop_isolation(false)]
pub fn enqueue_delivery_tasks(store: &Store, transaction: &mut Transaction)
    requires
        old(transaction)@.pending_issue is Some,
    ensures
        final(transaction)@ == (TransactionV {
            pending_issue: Some(
                PendingIssueV {
                    emails: confirmed_emails(store@.subscriptions),
                    ..old(transaction)@.pending_issue->Some_0
                },
            ),
            ..old(transaction)@
        }),
{
    let mut emails: Vec<String> = Vec::new();
    let mut i: usize = 0;
    while i < store.subscriptions.len()
        invariant
            i <= store@.subscriptions.len(),
            emails@.map_values(|e: String| e@) == confirmed_emails(
                store@.subscriptions.take(i as int),
            ),
        decreases store@.subscriptions.len() - i,
    {
        proof {
            assert(store@.subscriptions.take(i + 1).drop_last() =~= store@.subscriptions.take(
                i as int,
            ));
        }
        match store.subscriptions[i].status {
            SubscriptionStatus::Confirmed => {
                emails.push(store.subscriptions[i].email.clone());
                proof {
                    assert(emails@.map_values(|e: String| e@) =~= confirmed_emails(
                        store@.subscriptions.take(i + 1),
                    ));
                }
            },
            SubscriptionStatus::PendingConfirmation => {
                proof {
                    assert(emails@.map_values(|e: String| e@) =~= confirmed_emails(
                        store@.subscriptions.take(i + 1),
                    ));
                }
            },
        }
        i += 1;
    }
    proof {
        assert(store@.subscriptions.take(store@.subscriptions.len() as int)
            =~= store@.subscriptions);
    }
    match &mut transaction.pending_issue {
        Some(pending) => {
            pending.emails = emails;
        },
        None => {
            proof {
                assert(false);
            }
        },
    }
    proof {
        assert(transaction@ =~= (TransactionV {
            pending_issue: Some(
                PendingIssueV {
                    emails: confirmed_emails(store@.subscriptions),
                    ..old(transaction)@.pending_issue->Some_0
                },
            ),
            ..old(transaction)@
        }));
    }
}

/// The flash message shown once a submit — fresh or replayed — has been
/// answered. The issue is only accepted and enqueued here; the delivery
/// worker sends the emails later.
pub fn success_message() -> (r: &'static str)
    ensures
        r@ == "The newsletter issue has been accepted - emails will go out shortly."@,
{
    "The newsletter issue has been accepted - emails will go out shortly."
}

/// The transaction a winning submit commits: the issue body and the
/// snapshot of confirmed addresses.
pub open spec fn submit_transaction(
    s: StoreV,
    user_id: UserId,
    title: Seq<char>,
    text_content: Seq<char>,
    html_content: Seq<char>,
    key: Seq<char>,
) -> TransactionV {
    TransactionV {
        user_id,
        idempotency_key: key,
        pending_issue: Some(
            PendingIssueV {
                title,
                text_content,
                html_content,
                emails: confirmed_emails(s.subscriptions),
            },
        ),
    }
}

/// The whole submit operation as one deterministic transition. An
/// invalid key is refused with 400 and no effect; an unseen key claims,
/// fans out and commits; a completed key replays its saved response with
/// no effect; a key whose claim is still open is refused with 500 and no
/// effect.
pub open spec fn publish_spec(
    s: StoreV,
    user_id: UserId,
    title: Seq<char>,
    text_content: Seq<char>,
    html_content: Seq<char>,
    key: Seq<char>,
) -> (StoreV, Result<SavedResponseV, AppErrorV>) {
    if !valid_idempotency_key(key) {
        (s, Err(AppErrorV { status_code: 400, message: key_rejection_message(key) }))
    } else if !s.has_record(user_id, key) {
        let claimed = StoreV {
            idempotency: s.idempotency.push(
                IdempotencyRecordV { user_id, idempotency_key: key, response: None },
            ),
            ..s
        };
        let txn = submit_transaction(s, user_id, title, text_content, html_content, key);
        let resp = see_other_response("/admin/newsletters"@);
        (commit_spec(claimed, txn, resp), Ok(resp))
    } else if s.record_of(user_id, key).response is Some {
        (s, Ok(s.record_of(user_id, key).response->Some_0))
    } else {
        (
            s,
            Err(
                AppErrorV {
                    status_code: 500,
                    message: "We expected a saved response, we didn't find it."@,
                },
            ),
        )
    }
}

/// Publishes a newsletter issue, exactly once per (principal, key) pair:
/// the submit operation of the pipeline.
pub fn publish_newsletter(store: &mut Store, user_id: UserId, form: FormData) -> (r: Result<
    SavedResponse,
    AppError,
>)
    requires
        old(store)@.wf(),
        // a winning claim allocates one issue id; replays allocate nothing
        !old(store)@.has_record(user_id, form.idempotency_key@) ==> old(store)@.next_issue_id
            < u64::MAX,
    ensures
        final(store)@.wf(),
        ({
            let (post, out) = publish_spec(
                old(store)@,
                user_id,
                form.title@,
                form.text_content@,
                form.html_content@,
                form.idempotency_key@,
            );
            &&& final(store)@ == post
            &&& match (r, out) {
                (Ok(resp), Ok(o)) => resp@ == o,
                (Err(e), Err(eo)) => e@ == eo,
                _ => false,
            }
        }),
{
    let ghost pre = store@;
    let FormData { title, text_content, html_content, idempotency_key } = form;
    let ghost title_v = title@;
    let ghost text_v = text_content@;
    let ghost html_v = html_content@;
    let ghost key_v = idempotency_key@;
    let idempotency_key = match IdempotencyKey::parse(idempotency_key) {
        Ok(k) => k,
        Err(m) => {
            return Err(e400(m));
        },
    };
    let action = match try_processing(store, &idempotency_key, user_id) {
        Ok(action) => action,
        Err(e) => {
            return Err(e500(String::from_str(e.message())));
        },
    };
    match action {
        NextAction::StartProcessing(mut transaction) => {
            let ghost claimed = store@;
            insert_newsletter_issue(&mut transaction, title, text_content, html_content);
            enqueue_delivery_tasks(store, &mut transaction);
            let ghost txn_v = transaction@;
            let response = see_other("/admin/newsletters");
            proof {
                lemma_claim_record(pre, claimed, user_id, key_v);
                assert(claimed.subscriptions_wf());
                lemma_confirmed_emails_distinct(claimed.subscriptions);
                assert(txn_v =~= submit_transaction(pre, user_id, title_v, text_v, html_v, key_v));
            }
            let saved = save_response(store, transaction, &idempotency_key, user_id, response);
            proof {
                let claimed_spec = StoreV {
                    idempotency: pre.idempotency.push(
                        IdempotencyRecordV {
                            user_id,
                            idempotency_key: key_v,
                            response: None,
                        },
                    ),
                    ..pre
                };
                assert(claimed =~= claimed_spec);
                assert(store@ == publish_spec(pre, user_id, title_v, text_v, html_v, key_v).0);
            }
            Ok(saved)
        },
        NextAction::ReturnSavedResponse(response) => {
            Ok(response)
        },
    }
}

/// The committed state and response of a winning submit, and the facts
/// the laws below lean on: the claim's record now replays exactly the
/// redirect that was returned.
pub proof fn lemma_publish_commits(
    s0: StoreV,
    user_id: UserId,
    title: Seq<char>,
    text_content: Seq<char>,
    html_content: Seq<char>,
    key: Seq<char>,
)
    requires
        s0.wf(),
        valid_idempotency_key(key),
        !s0.has_record(user_id, key),
    ensures
        ({
            let (s1, r1) = publish_spec(s0, user_id, title, text_content, html_content, key);
            &&& r1 == Ok::<SavedResponseV, AppErrorV>(see_other_response("/admin/newsletters"@))
            &&& s1.records_unique()
            &&& s1.has_record(user_id, key)
            &&& s1.record_of(user_id, key).response == Some(see_other_response(
                "/admin/newsletters"@,
            ))
            &&& s1.subscriptions == s0.subscriptions
        }),
{
    let (s1, r1) = publish_spec(s0, user_id, title, text_content, html_content, key);
    let claimed = StoreV {
        idempotency: s0.idempotency.push(
            IdempotencyRecordV { user_id, idempotency_key: key, response: None },
        ),
        ..s0
    };
    let txn = submit_transaction(s0, user_id, title, text_content, html_content, key);
    let resp = see_other_response("/admin/newsletters"@);
    lemma_claim_record(s0, claimed, user_id, key);
    lemma_commit_record(claimed, txn, resp);
    assert(s1 == commit_spec(claimed, txn, resp));
}

/// Idempotent replay: once a submit with some key has committed, any
/// later submit with the same key — whatever payload it carries —
/// changes nothing and returns the very response the first submit
/// returned.
pub proof fn lemma_publish_idempotent(
    s0: StoreV,
    user_id: UserId,
    title: Seq<char>,
    text_content: Seq<char>,
    html_content: Seq<char>,
    key: Seq<char>,
    title2: Seq<char>,
    text_content2: Seq<char>,
    html_content2: Seq<char>,
)
    requires
        s0.wf(),
        valid_idempotency_key(key),
        !s0.has_record(user_id, key),
    ensures
        ({
            let (s1, r1) = publish_spec(s0, user_id, title, text_content, html_content, key);
            let (s2, r2) = publish_spec(s1, user_id, title2, text_content2, html_content2, key);
            &&& r1 is Ok
            &&& s2 == s1
            &&& r2 == r1
        }),
{
    lemma_publish_commits(s0, user_id, title, text_content, html_content, key);
}

/// Fan-out completeness: a winning submit appends exactly one delivery
/// row per confirmed subscriber at submit time — all for the fresh issue
/// id, with pairwise distinct addresses drawn from the confirmed
/// snapshot — and touches no other queue row. The queue rows that exist
/// for the new issue are exactly those.
pub proof fn lemma_publish_fan_out(
    s0: StoreV,
    user_id: UserId,
    title: Seq<char>,
    text_content: Seq<char>,
    html_content: Seq<char>,
    key: Seq<char>,
)
    requires
        s0.wf(),
        valid_idempotency_key(key),
        !s0.has_record(user_id, key),
    ensures
        ({
            let (s1, r1) = publish_spec(s0, user_id, title, text_content, html_content, key);
            let snapshot = confirmed_emails(s0.subscriptions);
            let rows = queue_rows(s0.next_issue_id, snapshot);
            &&& r1 is Ok
            &&& s1.issue_delivery_queue == s0.issue_delivery_queue + rows
            &&& rows.len() == snapshot.len()
            &&& emails_distinct(snapshot)
            &&& entries_for_issue(s1.issue_delivery_queue, s0.next_issue_id) == rows
            &&& entries_for_issue(s0.issue_delivery_queue, s0.next_issue_id) == Seq::<
                crate::store::DeliveryQueueEntryV,
            >::empty()
        }),
{
    let (s1, r1) = publish_spec(s0, user_id, title, text_content, html_content, key);
    let snapshot = confirmed_emails(s0.subscriptions);
    let rows = queue_rows(s0.next_issue_id, snapshot);
    lemma_publish_commits(s0, user_id, title, text_content, html_content, key);
    assert(s1.issue_delivery_queue == s0.issue_delivery_queue + rows);
    assert(emails_distinct(snapshot)) by {
        assert(s0.subscriptions_wf());
        lemma_confirmed_emails_distinct(s0.subscriptions);
    }
    assert forall|a: int| 0 <= a < s0.issue_delivery_queue.len() implies (
        #[trigger] s0.issue_delivery_queue[a]).newsletter_issue_id != s0.next_issue_id by {
        assert(s0.has_issue(s0.issue_delivery_queue[a].newsletter_issue_id));
        let w = choose|w: int|
            0 <= w < s0.newsletter_issues.len() && (#[trigger] s0.newsletter_issues[w]).newsletter_issue_id
                == s0.issue_delivery_queue[a].newsletter_issue_id;
        assert(s0.newsletter_issues[w].newsletter_issue_id < s0.next_issue_id);
    }
    lemma_entries_for_issue_none(s0.issue_delivery_queue, s0.next_issue_id);
    assert(forall|i: int| 0 <= i < rows.len() ==> (#[trigger] rows[i]).newsletter_issue_id
        == s0.next_issue_id);
    lemma_entries_for_issue_all(rows, s0.next_issue_id);
    lemma_entries_for_issue_concat(s0.issue_delivery_queue, rows, s0.next_issue_id);
    assert(entries_for_issue(s1.issue_delivery_queue, s0.next_issue_id) =~= rows);
}

/// Single claim winner: while one submit's claim is open, a second
/// submit with the same key is refused with an error and changes
/// nothing — of two concurrent duplicate submits exactly one enqueuing
/// transaction ever commits.
pub proof fn lemma_single_claim_winner(
    s0: StoreV,
    s1: StoreV,
    user_id: UserId,
    key: Seq<char>,
    title: Seq<char>,
    text_content: Seq<char>,
    html_content: Seq<char>,
)
    requires
        s0.wf(),
        valid_idempotency_key(key),
        claim_begins(s0, s1, user_id, key),
    ensures
        ({
            let (s2, r2) = publish_spec(s1, user_id, title, text_content, html_content, key);
            &&& s2 == s1
            &&& r2 is Err
            &&& r2->Err_0.status_code == 500
        }),
{
    lemma_claim_record(s0, s1, user_id, key);
}

} // verus!
