//! The idempotent command cache.
//!
//! A caller-supplied key, scoped to one principal, guards a
//! side-effecting operation. The first submission claims the key by
//! inserting a headerless record; the claiming transaction also buffers
//! the operation's writes, and `save_response` commits the buffered
//! writes together with the full response in one step. Every later
//! submission with the same key replays that response byte for byte. A
//! duplicate that arrives while the claim is still open is answered with
//! an error rather than a second execution of the side effect.

use vstd::prelude::*;

use crate::authentication::UserId;
use crate::response::{SavedResponse, SavedResponseV};
use crate::store::{
    emails_distinct, lemma_record_of_unique, record_matches, DeliveryQueueEntry,
    DeliveryQueueEntryV, IdempotencyRecord, IdempotencyRecordV, NewsletterIssue,
    NewsletterIssueV, Store, StoreV,
};

verus! {

/// The longest accepted idempotency key.
pub const MAX_KEY_LENGTH: usize = 50;

/// Characters allowed in an idempotency key: ASCII letters, digits,
/// `-` and `_`.
pub open spec fn allowed_key_char(c: char) -> bool {
    let n = c as u32;
    ||| ('a' as u32) <= n <= ('z' as u32)
    ||| ('A' as u32) <= n <= ('Z' as u32)
    ||| ('0' as u32) <= n <= ('9' as u32)
    ||| n == ('-' as u32)
    ||| n == ('_' as u32)
}

/// A key is valid when it is non-empty, at most [`MAX_KEY_LENGTH`]
/// characters long, and drawn from the allowed character set.
pub open spec fn valid_idempotency_key(s: Seq<char>) -> bool {
    &&& 0 < s.len() <= MAX_KEY_LENGTH
    &&& forall|i: int| 0 <= i < s.len() ==> allowed_key_char(s[i])
}

/// The message a rejected key is refused with.
pub open spec fn key_rejection_message(s: Seq<char>) -> Seq<char> {
    if s.len() == 0 {
        "The idempotency key cannot be empty."@
    } else if s.len() > MAX_KEY_LENGTH {
        "The idempotency key must not be longer than 50 characters."@
    } else {
        "The idempotency key must use only ASCII letters, digits, '-' and '_'."@
    }
}

/// A validated idempotency key.
#[derive(Debug)]
pub struct IdempotencyKey {
    key: String,
}

impl View for IdempotencyKey {
    type V = Seq<char>;

    closed spec fn view(&self) -> Seq<char> {
        self.key@
    }
}

impl IdempotencyKey {
    /// Accepts exactly the strings that satisfy
    /// [`valid_idempotency_key`].
    #[verifier::loop_isolation(false)]
    pub fn parse(s: String) -> (r: Result<IdempotencyKey, String>)
        ensures
            match r {
                Ok(k) => valid_idempotency_key(s@) && k@ == s@,
                Err(m) => !valid_idempotency_key(s@) && m@ == key_rejection_message(s@),
            },
    {
        let len = s.as_str().unicode_len();
        if len == 0 {
            return Err(String::from_str("The idempotency key cannot be empty."));
        }
        if len > MAX_KEY_LENGTH {
            return Err(
                String::from_str("The idempotency key must not be longer than 50 characters."),
            );
        }
        let mut i: usize = 0;
        while i < len
            invariant
                i <= len,
                forall|j: int| 0 <= j < i ==> allowed_key_char(s@[j]),
            decreases len - i,
        {
            let c = s.as_str().get_char(i);
            let n = c as u32;
            let allowed = (97 <= n && n <= 122) || (65 <= n && n <= 90) || (48 <= n && n <= 57)
                || n == 45 || n == 95;
            proof {
                assert(allowed == allowed_key_char(s@[i as int]));
            }
            if !allowed {
                return Err(
                    String::from_str(
                        "The idempotency key must use only ASCII letters, digits, '-' and '_'.",
                    ),
                );
            }
            i += 1;
        }
        Ok(IdempotencyKey { key: s })
    }

    /// The key text.
    pub fn as_str(&self) -> (r: &str)
        ensures
            r@ == self@,
    {
        self.key.as_str()
    }
}

/// The writes a winning claim has buffered but not yet committed: the
/// issue body and the snapshot of addresses to fan out to.
#[derive(Debug)]
pub struct PendingIssue {
    pub title: String,
    pub text_content: String,
    pub html_content: String,
    pub emails: Vec<String>,
}

/// Mathematical view of the buffered writes.
#[verifier::ext_equal]
pub struct PendingIssueV {
    pub title: Seq<char>,
    pub text_content: Seq<char>,
    pub html_content: Seq<char>,
    pub emails: Seq<Seq<char>>,
}

impl View for PendingIssue {
    type V = PendingIssueV;

    open spec fn view(&self) -> PendingIssueV {
        PendingIssueV {
            title: self.title@,
            text_content: self.text_content@,
            html_content: self.html_content@,
            emails: self.emails@.map_values(|e: String| e@),
        }
    }
}

/// The open transaction a winning claim holds. It remembers which pair it
/// claimed and buffers the fan-out until [`save_response`] commits both
/// atomically.
#[derive(Debug)]
pub struct Transaction {
    pub user_id: UserId,
    pub idempotency_key: String,
    pub pending_issue: Option<PendingIssue>,
}

/// Mathematical view of a transaction.
#[verifier::ext_equal]
pub struct TransactionV {
    pub user_id: UserId,
    pub idempotency_key: Seq<char>,
    pub pending_issue: Option<PendingIssueV>,
}

impl View for Transaction {
    type V = TransactionV;

    open spec fn view(&self) -> TransactionV {
        TransactionV {
            user_id: self.user_id,
            idempotency_key: self.idempotency_key@,
            pending_issue: match self.pending_issue {
                Some(ref p) => Some(p@),
                None => None,
            },
        }
    }
}

/// What the caller of [`try_processing`] must do next.
#[derive(Debug)]
pub enum NextAction {
    /// This caller won the claim: execute the guarded operation inside
    /// the transaction and finish with [`save_response`].
    StartProcessing(Transaction),
    /// A prior submission already completed: return this response
    /// verbatim and execute nothing.
    ReturnSavedResponse(SavedResponse),
}

/// The failure [`try_processing`] surfaces rather than running the side
/// effect twice.
#[derive(Debug)]
pub enum IdempotencyError {
    /// A record of the pair exists but no response was saved yet: a
    /// concurrent duplicate is in flight, or a prior attempt crashed
    /// before committing.
    IncompleteClaim,
}

impl IdempotencyError {
    /// The message the failure is reported with.
    pub fn message(&self) -> (r: &'static str)
        ensures
            r@ == "We expected a saved response, we didn't find it."@,
    {
        "We expected a saved response, we didn't find it."
    }
}

/// The transition `try_processing` makes when the pair is unseen: a
/// headerless record is inserted, everything else is untouched.
pub open spec fn claim_begins(pre: StoreV, post: StoreV, user_id: UserId, key: Seq<char>) -> bool {
    &&& !pre.has_record(user_id, key)
    &&& post == (StoreV {
        idempotency: pre.idempotency.push(
            IdempotencyRecordV { user_id, idempotency_key: key, response: None },
        ),
        ..pre
    })
}

/// Claim-or-replay. Inserting the record and the conflict check are one
/// atomic step, so of any number of racing submissions exactly one
/// receives `StartProcessing`.
#[verifier::loop_isolation(false)]
pub fn try_processing(store: &mut Store, idempotency_key: &IdempotencyKey, user_id: UserId) -> (r:
    Result<NextAction, IdempotencyError>)
    requires
        old(store)@.wf(),
    ensures
        final(store)@.wf(),
        match r {
            Ok(NextAction::StartProcessing(txn)) => {
                &&& claim_begins(old(store)@, final(store)@, user_id, idempotency_key@)
                &&& txn@ == (TransactionV {
                    user_id,
                    idempotency_key: idempotency_key@,
                    pending_issue: None,
                })
            },
            Ok(NextAction::ReturnSavedResponse(resp)) => {
                &&& old(store)@.has_record(user_id, idempotency_key@)
                &&& old(store)@.record_of(user_id, idempotency_key@).response == Some(resp@)
                &&& final(store)@ == old(store)@
            },
            Err(IdempotencyError::IncompleteClaim) => {
                &&& old(store)@.has_record(user_id, idempotency_key@)
                &&& old(store)@.record_of(user_id, idempotency_key@).response is None
                &&& final(store)@ == old(store)@
            },
        },
{
    let ghost pre = store@;
    let mut i: usize = 0;
    while i < store.idempotency.len()
        invariant
            i <= store@.idempotency.len(),
            store@ == pre,
            forall|j: int|
                0 <= j < i ==> !record_matches(
                    #[trigger] pre.idempotency[j],
                    user_id,
                    idempotency_key@,
                ),
        decreases store@.idempotency.len() - i,
    {
        if store.idempotency[i].user_id == user_id && store.idempotency[i].idempotency_key
            == idempotency_key.key {
            proof {
                assert(record_matches(pre.idempotency[i as int], user_id, idempotency_key@));
                lemma_record_of_unique(pre, user_id, idempotency_key@, i as int);
            }
            match &store.idempotency[i].response {
                Some(resp) => {
                    let out = resp.duplicate();
                    return Ok(NextAction::ReturnSavedResponse(out));
                },
                None => {
                    return Err(IdempotencyError::IncompleteClaim);
                },
            }
        }
        proof {
            assert(!record_matches(pre.idempotency[i as int], user_id, idempotency_key@));
        }
        i += 1;
    }
    proof {
        assert(!pre.has_record(user_id, idempotency_key@));
    }
    store.idempotency.push(
        IdempotencyRecord {
            user_id,
            idempotency_key: idempotency_key.key.clone(),
            response: None,
        },
    );
    let txn = Transaction {
        user_id,
        idempotency_key: idempotency_key.key.clone(),
        pending_issue: None,
    };
    proof {
        let post = store@;
        assert(post.idempotency =~= pre.idempotency.push(
            IdempotencyRecordV { user_id, idempotency_key: idempotency_key@, response: None },
        ));
        assert(post =~= (StoreV {
            idempotency: pre.idempotency.push(
                IdempotencyRecordV { user_id, idempotency_key: idempotency_key@, response: None },
            ),
            ..pre
        }));
        assert forall|a: int, b: int| 0 <= a < b < post.idempotency.len() implies !record_matches(
            #[trigger] post.idempotency[a],
            (#[trigger] post.idempotency[b]).user_id,
            post.idempotency[b].idempotency_key,
        ) by {
            if b < pre.idempotency.len() {
                assert(!record_matches(pre.idempotency[a], pre.idempotency[b].user_id,
                    pre.idempotency[b].idempotency_key));
            } else {
                assert(!record_matches(pre.idempotency[a], user_id, idempotency_key@));
            }
        }
        crate::store::lemma_wf_same_tables(pre, post);
    }
    Ok(NextAction::StartProcessing(txn))
}

/// The response saved for the pair. The three states of the table are
/// kept apart: `Ok(Some(_))` is a completed pair, `Ok(None)` a pair that
/// was never seen, and `Err` a pair whose claim is still open — a record
/// exists but carries no response yet, which the caller must surface
/// rather than guess at.
#[verifier::loop_isolation(false)]
pub fn get_saved_response(store: &Store, idempotency_key: &IdempotencyKey, user_id: UserId) -> (r:
    Result<Option<SavedResponse>, IdempotencyError>)
    requires
        store@.wf(),
    ensures
        match r {
            Ok(Some(resp)) => store@.has_record(user_id, idempotency_key@) && store@.record_of(
                user_id,
                idempotency_key@,
            ).response == Some(resp@),
            Ok(None) => !store@.has_record(user_id, idempotency_key@),
            Err(IdempotencyError::IncompleteClaim) => store@.has_record(user_id, idempotency_key@)
                && store@.record_of(user_id, idempotency_key@).response is None,
        },
{
    let mut i: usize = 0;
    while i < store.idempotency.len()
        invariant
            i <= store@.idempotency.len(),
            forall|j: int|
                0 <= j < i ==> !record_matches(
                    #[trigger] store@.idempotency[j],
                    user_id,
                    idempotency_key@,
                ),
        decreases store@.idempotency.len() - i,
    {
        if store.idempotency[i].user_id == user_id && store.idempotency[i].idempotency_key
            == idempotency_key.key {
            proof {
                assert(record_matches(store@.idempotency[i as int], user_id, idempotency_key@));
                lemma_record_of_unique(store@, user_id, idempotency_key@, i as int);
            }
            match &store.idempotency[i].response {
                Some(resp) => {
                    return Ok(Some(resp.duplicate()));
                },
                None => {
                    return Err(IdempotencyError::IncompleteClaim);
                },
            }
        }
        proof {
            assert(!record_matches(store@.idempotency[i as int], user_id, idempotency_key@));
        }
        i += 1;
    }
    Ok(None)
}

/// Queue entries fanning one issue out to a list of addresses.
pub open spec fn queue_rows(issue_id: u64, emails: Seq<Seq<char>>) -> Seq<DeliveryQueueEntryV> {
    emails.map_values(
        |e: Seq<char>| DeliveryQueueEntryV {
            newsletter_issue_id: issue_id,
            subscriber_email: e,
            locked: false,
        },
    )
}

/// The unique index of the pair's record (meaningful under
/// `records_unique` when `has_record` holds).
pub open spec fn record_index_of(s: StoreV, user_id: UserId, key: Seq<char>) -> int {
    choose|i: int|
        0 <= i < s.idempotency.len() && record_matches(#[trigger] s.idempotency[i], user_id, key)
}

/// The committed state: the claim's record carries the response, and the
/// buffered issue and its fan-out rows — if the transaction holds any —
/// became visible in the same step.
pub open spec fn commit_spec(s: StoreV, txn: TransactionV, resp: SavedResponseV) -> StoreV {
    let idx = record_index_of(s, txn.user_id, txn.idempotency_key);
    let with_response = s.idempotency.update(
        idx,
        IdempotencyRecordV {
            user_id: txn.user_id,
            idempotency_key: txn.idempotency_key,
            response: Some(resp),
        },
    );
    match txn.pending_issue {
        None => StoreV { idempotency: with_response, ..s },
        Some(p) => StoreV {
            idempotency: with_response,
            newsletter_issues: s.newsletter_issues.push(
                NewsletterIssueV {
                    newsletter_issue_id: s.next_issue_id,
                    title: p.title,
                    text_content: p.text_content,
                    html_content: p.html_content,
                },
            ),
            issue_delivery_queue: s.issue_delivery_queue + queue_rows(s.next_issue_id, p.emails),
            next_issue_id: (s.next_issue_id + 1) as u64,
            ..s
        },
    }
}

/// Commits the claiming transaction: writes the response into the claimed
/// record and makes the buffered fan-out durable, atomically, then hands
/// the response back for the caller to return.
#[verifier::loop_isolation(false)]
pub fn save_response(
    store: &mut Store,
    transaction: Transaction,
    idempotency_key: &IdempotencyKey,
    user_id: UserId,
    http_response: SavedResponse,
) -> (r: SavedResponse)
    requires
        old(store)@.wf(),
        transaction@.user_id == user_id,
        transaction@.idempotency_key == idempotency_key@,
        old(store)@.has_record(user_id, idempotency_key@),
        old(store)@.record_of(user_id, idempotency_key@).response is None,
        old(store)@.next_issue_id < u64::MAX,
        match transaction@.pending_issue {
            Some(p) => emails_distinct(p.emails),
            None => true,
        },
    ensures
        final(store)@.wf(),
        r@ == http_response@,
        final(store)@ == commit_spec(old(store)@, transaction@, http_response@),
{
    let ghost pre = store@;
    let ghost txn_v = transaction@;
    let ghost resp_v = http_response@;
    let Transaction { user_id: txn_user, idempotency_key: txn_key, pending_issue } = transaction;
    let mut i: usize = 0;
    let mut found: Option<usize> = None;
    while i < store.idempotency.len() && found.is_none()
        invariant
            i <= store@.idempotency.len(),
            store@ == pre,
            match found {
                Some(f) => f == i - 1 && i >= 1 && record_matches(
                    pre.idempotency[f as int],
                    user_id,
                    idempotency_key@,
                ),
                None => forall|j: int|
                    0 <= j < i ==> !record_matches(
                        #[trigger] pre.idempotency[j],
                        user_id,
                        idempotency_key@,
                    ),
            },
        decreases store@.idempotency.len() - i,
    {
        if store.idempotency[i].user_id == user_id && store.idempotency[i].idempotency_key
            == txn_key {
            found = Some(i);
        }
        i += 1;
    }
    let idx = match found {
        Some(f) => f,
        None => {
            // unreachable: the claim's record exists by the precondition
            proof {
                assert(!pre.has_record(user_id, idempotency_key@));
                assert(false);
            }
            0
        },
    };
    proof {
        lemma_record_of_unique(pre, user_id, idempotency_key@, idx as int);
        assert(record_index_of(pre, txn_v.user_id, txn_v.idempotency_key) == idx as int) by {
            let c = record_index_of(pre, txn_v.user_id, txn_v.idempotency_key);
            lemma_record_of_unique(pre, user_id, idempotency_key@, c);
            if c != idx as int {
                assert(pre.idempotency[c] == pre.idempotency[idx as int]);
            }
            assert(pre.records_unique());
            if c < (idx as int) {
                assert(!record_matches(pre.idempotency[c], pre.idempotency[idx as int].user_id,
                    pre.idempotency[idx as int].idempotency_key));
            } else if (idx as int) < c {
                assert(!record_matches(pre.idempotency[idx as int], pre.idempotency[c].user_id,
                    pre.idempotency[c].idempotency_key));
            }
        }
    }
    let saved = http_response.duplicate();
    store.idempotency[idx] = IdempotencyRecord {
        user_id: txn_user,
        idempotency_key: txn_key,
        response: Some(saved),
    };
    let ghost mid = store@;
    proof {
        assert(mid.idempotency =~= pre.idempotency.update(
            idx as int,
            IdempotencyRecordV {
                user_id: txn_v.user_id,
                idempotency_key: txn_v.idempotency_key,
                response: Some(resp_v),
            },
        ));
        assert(mid =~= (StoreV { idempotency: mid.idempotency, ..pre }));
        assert forall|a: int, b: int| 0 <= a < b < mid.idempotency.len() implies !record_matches(
            #[trigger] mid.idempotency[a],
            (#[trigger] mid.idempotency[b]).user_id,
            mid.idempotency[b].idempotency_key,
        ) by {
            assert(!record_matches(pre.idempotency[a], pre.idempotency[b].user_id,
                pre.idempotency[b].idempotency_key));
            assert(mid.idempotency[a].user_id == pre.idempotency[a].user_id);
            assert(mid.idempotency[a].idempotency_key == pre.idempotency[a].idempotency_key);
            assert(mid.idempotency[b].user_id == pre.idempotency[b].user_id);
            assert(mid.idempotency[b].idempotency_key == pre.idempotency[b].idempotency_key);
        }
        assert(mid.records_unique());
        crate::store::lemma_wf_same_tables(pre, mid);
    }
    match pending_issue {
        None => {
            proof {
                assert(store@ == commit_spec(pre, txn_v, resp_v));
            }
            http_response
        },
        Some(pending) => {
            let ghost pending_v = pending@;
            let issue_id = store.next_issue_id;
            let PendingIssue { title, text_content, html_content, emails } = pending;
            store.newsletter_issues.push(
                NewsletterIssue {
                    newsletter_issue_id: issue_id,
                    title,
                    text_content,
                    html_content,
                },
            );
            let ghost with_issue = store@;
            proof {
                assert(with_issue.newsletter_issues =~= mid.newsletter_issues.push(
                    NewsletterIssueV {
                        newsletter_issue_id: issue_id,
                        title: pending_v.title,
                        text_content: pending_v.text_content,
                        html_content: pending_v.html_content,
                    },
                ));
                assert(with_issue =~= (StoreV {
                    newsletter_issues: with_issue.newsletter_issues,
                    ..mid
                }));
            }
            let mut k: usize = 0;
            while k < emails.len()
                invariant
                    k <= emails@.len(),
                    emails@.map_values(|e: String| e@) == pending_v.emails,
                    store@ == (StoreV {
                        issue_delivery_queue: with_issue.issue_delivery_queue + queue_rows(
                            issue_id,
                            pending_v.emails.take(k as int),
                        ),
                        ..with_issue
                    }),
                decreases emails@.len() - k,
            {
                let email = emails[k].clone();
                proof {
                    assert(pending_v.emails[k as int] == emails@[k as int]@);
                    assert(email@ == pending_v.emails[k as int]);
                }
                let ghost before = store@;
                store.issue_delivery_queue.push(
                    DeliveryQueueEntry {
                        newsletter_issue_id: issue_id,
                        subscriber_email: email,
                        locked: false,
                    },
                );
                k += 1;
                proof {
                    let entry = DeliveryQueueEntryV {
                        newsletter_issue_id: issue_id,
                        subscriber_email: pending_v.emails[k - 1],
                        locked: false,
                    };
                    assert(store@.issue_delivery_queue =~= before.issue_delivery_queue.push(
                        entry,
                    ));
                    assert(queue_rows(issue_id, pending_v.emails.take(k as int)) =~= queue_rows(
                        issue_id,
                        pending_v.emails.take(k - 1),
                    ).push(entry));
                    assert(store@.issue_delivery_queue =~= with_issue.issue_delivery_queue
                        + queue_rows(issue_id, pending_v.emails.take(k as int)));
                    assert(store@ =~= (StoreV {
                        issue_delivery_queue: store@.issue_delivery_queue,
                        ..with_issue
                    }));
                }
            }
            store.next_issue_id = issue_id + 1;
            proof {
                let post = store@;
                assert(pending_v.emails.take(emails@.len() as int) =~= pending_v.emails);
                assert(post =~= commit_spec(pre, txn_v, resp_v));
                lemma_commit_preserves_wf(pre, mid, post, txn_v, resp_v, issue_id);
            }
            http_response
        },
    }
}

/// Committing a well-formed claim keeps the store well-formed: the new
/// issue id is fresh, and the fan-out rows are pairwise distinct and
/// distinct from every existing row.
proof fn lemma_commit_preserves_wf(
    pre: StoreV,
    mid: StoreV,
    post: StoreV,
    txn: TransactionV,
    resp: SavedResponseV,
    issue_id: u64,
)
    requires
        pre.wf(),
        mid.wf(),
        txn.pending_issue is Some,
        emails_distinct(txn.pending_issue->Some_0.emails),
        issue_id == pre.next_issue_id,
        pre.next_issue_id < u64::MAX,
        mid == (StoreV {
            idempotency: pre.idempotency.update(
                record_index_of(pre, txn.user_id, txn.idempotency_key),
                IdempotencyRecordV {
                    user_id: txn.user_id,
                    idempotency_key: txn.idempotency_key,
                    response: Some(resp),
                },
            ),
            ..pre
        }),
        post == commit_spec(pre, txn, resp),
    ensures
        post.wf(),
{
    let p = txn.pending_issue->Some_0;
    let rows = queue_rows(issue_id, p.emails);
    assert(post.idempotency == mid.idempotency);
    assert(post.newsletter_issues == pre.newsletter_issues.push(
        NewsletterIssueV {
            newsletter_issue_id: issue_id,
            title: p.title,
            text_content: p.text_content,
            html_content: p.html_content,
        },
    ));
    assert(post.issue_delivery_queue == pre.issue_delivery_queue + rows);
    assert(post.records_unique());
    assert(post.issues_wf()) by {
        assert forall|a: int| 0 <= a < post.newsletter_issues.len() implies (
            #[trigger] post.newsletter_issues[a]).newsletter_issue_id < post.next_issue_id by {
            if a < pre.newsletter_issues.len() {
                assert(pre.newsletter_issues[a].newsletter_issue_id < pre.next_issue_id);
            }
        }
        assert forall|a: int, b: int| 0 <= a < b < post.newsletter_issues.len() implies (
            #[trigger] post.newsletter_issues[a]).newsletter_issue_id != (
        #[trigger] post.newsletter_issues[b]).newsletter_issue_id by {
            if b < pre.newsletter_issues.len() {
                assert(pre.newsletter_issues[a].newsletter_issue_id
                    != pre.newsletter_issues[b].newsletter_issue_id);
            } else {
                assert(pre.newsletter_issues[a].newsletter_issue_id < pre.next_issue_id);
            }
        }
    }
    assert forall|a: int| 0 <= a < pre.issue_delivery_queue.len() implies (
        #[trigger] pre.issue_delivery_queue[a]).newsletter_issue_id != issue_id by {
        assert(pre.has_issue(pre.issue_delivery_queue[a].newsletter_issue_id));
        let w = choose|w: int|
            0 <= w < pre.newsletter_issues.len() && (#[trigger] pre.newsletter_issues[w]).newsletter_issue_id
                == pre.issue_delivery_queue[a].newsletter_issue_id;
        assert(pre.newsletter_issues[w].newsletter_issue_id < pre.next_issue_id);
    }
    assert(crate::store::queue_pairs_unique(post.issue_delivery_queue)) by {
        assert forall|a: int, b: int| 0 <= a < b < post.issue_delivery_queue.len() implies !((
        #[trigger] post.issue_delivery_queue[a]).newsletter_issue_id == (
        #[trigger] post.issue_delivery_queue[b]).newsletter_issue_id
            && post.issue_delivery_queue[a].subscriber_email
            == post.issue_delivery_queue[b].subscriber_email) by {
            let n = pre.issue_delivery_queue.len() as int;
            if b < n {
                assert(!(pre.issue_delivery_queue[a].newsletter_issue_id
                    == pre.issue_delivery_queue[b].newsletter_issue_id
                    && pre.issue_delivery_queue[a].subscriber_email
                    == pre.issue_delivery_queue[b].subscriber_email));
            } else if a < n {
                assert(pre.issue_delivery_queue[a].newsletter_issue_id != issue_id);
                assert(post.issue_delivery_queue[b].newsletter_issue_id == issue_id);
            } else {
                assert(post.issue_delivery_queue[a].subscriber_email == p.emails[a - n]);
                assert(post.issue_delivery_queue[b].subscriber_email == p.emails[b - n]);
                assert(p.emails[a - n] != p.emails[b - n]);
            }
        }
    }
    assert(post.queue_refs_wf()) by {
        assert forall|a: int| 0 <= a < post.issue_delivery_queue.len() implies post.has_issue(
            (#[trigger] post.issue_delivery_queue[a]).newsletter_issue_id,
        ) by {
            let n = pre.issue_delivery_queue.len() as int;
            if a < n {
                assert(pre.has_issue(pre.issue_delivery_queue[a].newsletter_issue_id));
                let w = choose|w: int|
                    0 <= w < pre.newsletter_issues.len() && (
                    #[trigger] pre.newsletter_issues[w]).newsletter_issue_id
                        == pre.issue_delivery_queue[a].newsletter_issue_id;
                assert(post.newsletter_issues[w].newsletter_issue_id
                    == post.issue_delivery_queue[a].newsletter_issue_id);
            } else {
                let w = pre.newsletter_issues.len() as int;
                assert(post.newsletter_issues[w].newsletter_issue_id == issue_id);
            }
        }
    }
    assert(post.subscriptions_wf());
    assert(post.tokens_wf());
}

/// A fresh claim keeps records unique and leaves exactly one,
/// incomplete, record for the pair.
pub proof fn lemma_claim_record(pre: StoreV, post: StoreV, user_id: UserId, key: Seq<char>)
    requires
        pre.records_unique(),
        claim_begins(pre, post, user_id, key),
    ensures
        post.records_unique(),
        post.has_record(user_id, key),
        post.record_of(user_id, key) == (IdempotencyRecordV {
            user_id,
            idempotency_key: key,
            response: None,
        }),
        record_index_of(post, user_id, key) == pre.idempotency.len(),
{
    let n = pre.idempotency.len() as int;
    assert forall|a: int, b: int| 0 <= a < b < post.idempotency.len() implies !record_matches(
        #[trigger] post.idempotency[a],
        (#[trigger] post.idempotency[b]).user_id,
        post.idempotency[b].idempotency_key,
    ) by {
        if b < n {
            assert(!record_matches(pre.idempotency[a], pre.idempotency[b].user_id,
                pre.idempotency[b].idempotency_key));
        } else {
            assert(!pre.has_record(user_id, key));
            assert(!record_matches(pre.idempotency[a], user_id, key));
        }
    }
    assert(record_matches(post.idempotency[n], user_id, key));
    lemma_record_of_unique(post, user_id, key, n);
    let c = record_index_of(post, user_id, key);
    assert(record_matches(post.idempotency[c], user_id, key));
    if c < n {
        assert(!record_matches(pre.idempotency[c], user_id, key));
    }
}

/// Committing a transaction completes exactly the claimed record: the
/// pair now replays the committed response, and no other record moved.
pub proof fn lemma_commit_record(s: StoreV, txn: TransactionV, resp: SavedResponseV)
    requires
        s.records_unique(),
        s.has_record(txn.user_id, txn.idempotency_key),
    ensures
        ({
            let post = commit_spec(s, txn, resp);
            &&& post.records_unique()
            &&& post.has_record(txn.user_id, txn.idempotency_key)
            &&& post.record_of(txn.user_id, txn.idempotency_key).response == Some(resp)
            &&& post.idempotency.len() == s.idempotency.len()
        }),
{
    let post = commit_spec(s, txn, resp);
    let idx = record_index_of(s, txn.user_id, txn.idempotency_key);
    assert(0 <= idx < s.idempotency.len() && record_matches(s.idempotency[idx], txn.user_id,
        txn.idempotency_key));
    assert forall|a: int, b: int| 0 <= a < b < post.idempotency.len() implies !record_matches(
        #[trigger] post.idempotency[a],
        (#[trigger] post.idempotency[b]).user_id,
        post.idempotency[b].idempotency_key,
    ) by {
        assert(!record_matches(s.idempotency[a], s.idempotency[b].user_id,
            s.idempotency[b].idempotency_key));
        assert(post.idempotency[a].user_id == s.idempotency[a].user_id);
        assert(post.idempotency[a].idempotency_key == s.idempotency[a].idempotency_key);
        assert(post.idempotency[b].user_id == s.idempotency[b].user_id);
        assert(post.idempotency[b].idempotency_key == s.idempotency[b].idempotency_key);
    }
    assert(record_matches(post.idempotency[idx], txn.user_id, txn.idempotency_key));
    lemma_record_of_unique(post, txn.user_id, txn.idempotency_key, idx);
}

} // verus!
