//! The delivery queue worker.
//!
//! Progress is defined entirely by which queue rows still exist: there is
//! no cursor. One worker step claims one row under a skip-locked read — a
//! row another claimant holds locked is invisible — attempts the send,
//! and removes the row only on a terminal outcome. A row whose stored
//! address fails validation is removed without touching the transport; a
//! transport failure is swallowed and the row removed too, trading
//! per-subscriber retry for queue liveness. A claim that is abandoned
//! (a crashed worker's connection drops) releases its lock and the row
//! becomes claimable again: at-least-once, never zero-once.

use vstd::prelude::*;

use crate::domain::{valid_subscriber_email, SubscriberEmail};
use crate::email_client::{EmailClient, EmailClientV, SentEmailV, TransientError};
use crate::store::{
    lemma_issue_of_unique, seq_issue_of, DeliveryQueueEntry, DeliveryQueueEntryV, NewsletterIssue,
    Store, StoreV,
};

verus! {

/// What one worker step achieved.
#[derive(Clone, Copy, PartialEq, Eq, Structural, Debug)]
pub enum ExecutionOutcome {
    /// One queue row was processed to a terminal outcome and removed.
    TaskCompleted,
    /// No claimable row exists; the caller should back off before polling
    /// again.
    EmptyQueue,
}

/// A claimed queue row. Only [`dequeue_task`] creates one; the claimant
/// must end it with [`delete_task`] (terminal outcome) or
/// [`release_task`] (abandonment).
#[derive(Debug)]
pub struct TaskClaim {
    pub newsletter_issue_id: u64,
    pub subscriber_email: String,
}

/// Mathematical view of a claim.
#[verifier::ext_equal]
pub struct TaskClaimV {
    pub newsletter_issue_id: u64,
    pub subscriber_email: Seq<char>,
}

impl View for TaskClaim {
    type V = TaskClaimV;

    open spec fn view(&self) -> TaskClaimV {
        TaskClaimV {
            newsletter_issue_id: self.newsletter_issue_id,
            subscriber_email: self.subscriber_email@,
        }
    }
}

/// The index of the first row no claimant holds locked.
pub open spec fn first_unlocked(q: Seq<DeliveryQueueEntryV>) -> Option<int>
    decreases q.len(),
{
    if q.len() == 0 {
        None
    } else if !q[0].locked {
        Some(0)
    } else {
        match first_unlocked(q.drop_first()) {
            Some(i) => Some(i + 1),
            None => None,
        }
    }
}

/// What `first_unlocked` returns: the first unlocked index, or nothing
/// when every row is locked.
pub proof fn lemma_first_unlocked(q: Seq<DeliveryQueueEntryV>)
    ensures
        match first_unlocked(q) {
            Some(i) => 0 <= i < q.len() && !q[i].locked && forall|j: int|
                0 <= j < i ==> (#[trigger] q[j]).locked,
            None => forall|j: int| 0 <= j < q.len() ==> (#[trigger] q[j]).locked,
        },
    decreases q.len(),
{
    if q.len() > 0 && q[0].locked {
        lemma_first_unlocked(q.drop_first());
        match first_unlocked(q.drop_first()) {
            Some(i) => {
                assert forall|j: int| 0 <= j < i + 1 implies (#[trigger] q[j]).locked by {
                    if j > 0 {
                        assert(q.drop_first()[j - 1].locked);
                    }
                }
            },
            None => {
                assert forall|j: int| 0 <= j < q.len() implies (#[trigger] q[j]).locked by {
                    if j > 0 {
                        assert(q.drop_first()[j - 1].locked);
                    }
                }
            },
        }
    }
}

/// The converse: an unlocked row behind only locked rows is the one
/// `first_unlocked` returns.
pub proof fn lemma_first_unlocked_at(q: Seq<DeliveryQueueEntryV>, i: int)
    requires
        0 <= i < q.len(),
        !q[i].locked,
        forall|j: int| 0 <= j < i ==> (#[trigger] q[j]).locked,
    ensures
        first_unlocked(q) == Some(i),
    decreases q.len(),
{
    if i > 0 {
        assert(forall|j: int|
            0 <= j < i - 1 ==> (#[trigger] q.drop_first()[j]).locked == q[j + 1].locked);
        lemma_first_unlocked_at(q.drop_first(), i - 1);
    }
}

/// Whether row `row` is the unit of work `c` claims.
pub open spec fn claim_row(row: DeliveryQueueEntryV, c: TaskClaimV) -> bool {
    row.newsletter_issue_id == c.newsletter_issue_id && row.subscriber_email == c.subscriber_email
}

/// The claimant still holds a locked row for `c`.
pub open spec fn holds_claim(s: StoreV, c: TaskClaimV) -> bool {
    exists|i: int|
        0 <= i < s.issue_delivery_queue.len() && claim_row(#[trigger] s.issue_delivery_queue[i], c)
            && s.issue_delivery_queue[i].locked
}

/// The unique index of the claimed row (meaningful under
/// `queue_pairs_unique` when the row exists).
pub open spec fn claim_index(s: StoreV, c: TaskClaimV) -> int {
    choose|i: int|
        0 <= i < s.issue_delivery_queue.len() && claim_row(#[trigger] s.issue_delivery_queue[i], c)
            && s.issue_delivery_queue[i].locked
}

/// Under pair uniqueness, a locked row matching the claim at index `i`
/// is the row `claim_index` denotes.
pub proof fn lemma_claim_index_unique(s: StoreV, c: TaskClaimV, i: int)
    requires
        crate::store::queue_pairs_unique(s.issue_delivery_queue),
        0 <= i < s.issue_delivery_queue.len(),
        claim_row(s.issue_delivery_queue[i], c),
        s.issue_delivery_queue[i].locked,
    ensures
        holds_claim(s, c),
        claim_index(s, c) == i,
{
    assert(holds_claim(s, c));
    let j = claim_index(s, c);
    assert(claim_row(s.issue_delivery_queue[j], c) && s.issue_delivery_queue[j].locked);
    if i < j {
        assert(!(s.issue_delivery_queue[i].newsletter_issue_id
            == s.issue_delivery_queue[j].newsletter_issue_id
            && s.issue_delivery_queue[i].subscriber_email
            == s.issue_delivery_queue[j].subscriber_email));
    } else if j < i {
        assert(!(s.issue_delivery_queue[j].newsletter_issue_id
            == s.issue_delivery_queue[i].newsletter_issue_id
            && s.issue_delivery_queue[j].subscriber_email
            == s.issue_delivery_queue[i].subscriber_email));
    }
}

/// The claim transition: the first available row becomes locked and is
/// handed out; with no available row nothing changes.
pub open spec fn dequeue_spec(s: StoreV) -> (StoreV, Option<TaskClaimV>) {
    match first_unlocked(s.issue_delivery_queue) {
        None => (s, None),
        Some(i) => {
            let row = s.issue_delivery_queue[i];
            (
                StoreV {
                    issue_delivery_queue: s.issue_delivery_queue.update(
                        i,
                        DeliveryQueueEntryV { locked: true, ..row },
                    ),
                    ..s
                },
                Some(
                    TaskClaimV {
                        newsletter_issue_id: row.newsletter_issue_id,
                        subscriber_email: row.subscriber_email,
                    },
                ),
            )
        },
    }
}

/// Locking one row changes no identity and breaks no invariant.
proof fn lemma_lock_preserves_wf(pre: StoreV, post: StoreV, i: int)
    requires
        pre.wf(),
        0 <= i < pre.issue_delivery_queue.len(),
        post == (StoreV {
            issue_delivery_queue: pre.issue_delivery_queue.update(
                i,
                DeliveryQueueEntryV { locked: true, ..pre.issue_delivery_queue[i] },
            ),
            ..pre
        }),
    ensures
        post.wf(),
{
    assert forall|a: int, b: int| 0 <= a < b < post.issue_delivery_queue.len() implies !((
    #[trigger] post.issue_delivery_queue[a]).newsletter_issue_id == (
    #[trigger] post.issue_delivery_queue[b]).newsletter_issue_id
        && post.issue_delivery_queue[a].subscriber_email
        == post.issue_delivery_queue[b].subscriber_email) by {
        assert(!(pre.issue_delivery_queue[a].newsletter_issue_id
            == pre.issue_delivery_queue[b].newsletter_issue_id
            && pre.issue_delivery_queue[a].subscriber_email
            == pre.issue_delivery_queue[b].subscriber_email));
    }
    assert forall|a: int| 0 <= a < post.issue_delivery_queue.len() implies post.has_issue(
        (#[trigger] post.issue_delivery_queue[a]).newsletter_issue_id,
    ) by {
        assert(pre.has_issue(pre.issue_delivery_queue[a].newsletter_issue_id));
        assert(post.issue_delivery_queue[a].newsletter_issue_id
            == pre.issue_delivery_queue[a].newsletter_issue_id);
    }
}

/// Claims one available queue row, skipping rows already locked by other
/// claimants, and locks it. Two claimants therefore never receive the
/// same row.
#[verifier::loop_isolation(false)]
pub fn dequeue_task(store: &mut Store) -> (r: Option<TaskClaim>)
    requires
        old(store)@.wf(),
    ensures
        final(store)@.wf(),
        ({
            let (post, c) = dequeue_spec(old(store)@);
            &&& final(store)@ == post
            &&& match (r, c) {
                (Some(claim), Some(cv)) => claim@ == cv && holds_claim(final(store)@, cv),
                (None, None) => true,
                _ => false,
            }
        }),
{
    let ghost pre = store@;
    let mut i: usize = 0;
    while i < store.issue_delivery_queue.len()
        invariant
            i <= pre.issue_delivery_queue.len(),
            store@ == pre,
            forall|j: int| 0 <= j < i ==> (#[trigger] pre.issue_delivery_queue[j]).locked,
        decreases pre.issue_delivery_queue.len() - i,
    {
        if !store.issue_delivery_queue[i].locked {
            let newsletter_issue_id = store.issue_delivery_queue[i].newsletter_issue_id;
            let subscriber_email = store.issue_delivery_queue[i].subscriber_email.clone();
            proof {
                lemma_first_unlocked_at(pre.issue_delivery_queue, i as int);
            }
            store.issue_delivery_queue[i] = DeliveryQueueEntry {
                newsletter_issue_id,
                subscriber_email: subscriber_email.clone(),
                locked: true,
            };
            let claim = TaskClaim { newsletter_issue_id, subscriber_email };
            proof {
                assert(store@.issue_delivery_queue =~= pre.issue_delivery_queue.update(
                    i as int,
                    DeliveryQueueEntryV { locked: true, ..pre.issue_delivery_queue[i as int] },
                ));
                assert(store@ =~= (StoreV {
                    issue_delivery_queue: store@.issue_delivery_queue,
                    ..pre
                }));
                lemma_lock_preserves_wf(pre, store@, i as int);
                lemma_claim_index_unique(store@, claim@, i as int);
            }
            return Some(claim);
        }
        proof {
            assert(pre.issue_delivery_queue[i as int].locked);
        }
        i += 1;
    }
    proof {
        lemma_first_unlocked(pre.issue_delivery_queue);
        if first_unlocked(pre.issue_delivery_queue) is Some {
            let w = first_unlocked(pre.issue_delivery_queue)->Some_0;
            assert(pre.issue_delivery_queue[w].locked);
        }
    }
    None
}

/// The finalize transition: the claimed row is gone, everything else is
/// untouched.
pub open spec fn delete_spec(s: StoreV, c: TaskClaimV) -> StoreV {
    StoreV { issue_delivery_queue: s.issue_delivery_queue.remove(claim_index(s, c)), ..s }
}

/// Removing one row breaks no invariant.
proof fn lemma_remove_preserves_wf(pre: StoreV, post: StoreV, i: int)
    requires
        pre.wf(),
        0 <= i < pre.issue_delivery_queue.len(),
        post == (StoreV {
            issue_delivery_queue: pre.issue_delivery_queue.remove(i),
            ..pre
        }),
    ensures
        post.wf(),
{
    assert forall|a: int, b: int| 0 <= a < b < post.issue_delivery_queue.len() implies !((
    #[trigger] post.issue_delivery_queue[a]).newsletter_issue_id == (
    #[trigger] post.issue_delivery_queue[b]).newsletter_issue_id
        && post.issue_delivery_queue[a].subscriber_email
        == post.issue_delivery_queue[b].subscriber_email) by {
        let a0 = if a < i { a } else { a + 1 };
        let b0 = if b < i { b } else { b + 1 };
        assert(post.issue_delivery_queue[a] == pre.issue_delivery_queue[a0]);
        assert(post.issue_delivery_queue[b] == pre.issue_delivery_queue[b0]);
        assert(!(pre.issue_delivery_queue[a0].newsletter_issue_id
            == pre.issue_delivery_queue[b0].newsletter_issue_id
            && pre.issue_delivery_queue[a0].subscriber_email
            == pre.issue_delivery_queue[b0].subscriber_email));
    }
    assert forall|a: int| 0 <= a < post.issue_delivery_queue.len() implies post.has_issue(
        (#[trigger] post.issue_delivery_queue[a]).newsletter_issue_id,
    ) by {
        let a0 = if a < i { a } else { a + 1 };
        assert(post.issue_delivery_queue[a] == pre.issue_delivery_queue[a0]);
        assert(pre.has_issue(pre.issue_delivery_queue[a0].newsletter_issue_id));
    }
}

/// Finalizes a claim: deletes the claimed row under the very lock the
/// claim holds, so no other claimant can have processed it, and a crash
/// before this call would have left the row intact for a future
/// claimant.
#[verifier::loop_isolation(false)]
pub fn delete_task(store: &mut Store, claim: TaskClaim)
    requires
        old(store)@.wf(),
        holds_claim(old(store)@, claim@),
    ensures
        final(store)@.wf(),
        final(store)@ == delete_spec(old(store)@, claim@),
        final(store)@.issue_delivery_queue.len() == old(store)@.issue_delivery_queue.len() - 1,
{
    let ghost pre = store@;
    let mut i: usize = 0;
    while i < store.issue_delivery_queue.len()
        invariant
            i <= pre.issue_delivery_queue.len(),
            store@ == pre,
            forall|j: int|
                0 <= j < i ==> !claim_row(#[trigger] pre.issue_delivery_queue[j], claim@),
        decreases pre.issue_delivery_queue.len() - i,
    {
        if store.issue_delivery_queue[i].newsletter_issue_id == claim.newsletter_issue_id
            && store.issue_delivery_queue[i].subscriber_email == claim.subscriber_email {
            proof {
                assert(claim_row(pre.issue_delivery_queue[i as int], claim@));
                let w = claim_index(pre, claim@);
                assert(claim_row(pre.issue_delivery_queue[w], claim@)
                    && pre.issue_delivery_queue[w].locked);
                if (i as int) < w {
                    assert(!(pre.issue_delivery_queue[i as int].newsletter_issue_id
                        == pre.issue_delivery_queue[w].newsletter_issue_id
                        && pre.issue_delivery_queue[i as int].subscriber_email
                        == pre.issue_delivery_queue[w].subscriber_email));
                } else if w < (i as int) {
                    assert(!(pre.issue_delivery_queue[w].newsletter_issue_id
                        == pre.issue_delivery_queue[i as int].newsletter_issue_id
                        && pre.issue_delivery_queue[w].subscriber_email
                        == pre.issue_delivery_queue[i as int].subscriber_email));
                }
                assert(w == i as int);
            }
            store.issue_delivery_queue.remove(i);
            proof {
                assert(store@.issue_delivery_queue =~= pre.issue_delivery_queue.remove(i as int));
                assert(store@ =~= (StoreV {
                    issue_delivery_queue: store@.issue_delivery_queue,
                    ..pre
                }));
                lemma_remove_preserves_wf(pre, store@, i as int);
            }
            return;
        }
        proof {
            assert(!claim_row(pre.issue_delivery_queue[i as int], claim@));
        }
        i += 1;
    }
    proof {
        let w = claim_index(pre, claim@);
        assert(claim_row(pre.issue_delivery_queue[w], claim@));
        assert(false);
    }
}

/// The release transition: the claimed row stays, unlocked.
pub open spec fn release_spec(s: StoreV, c: TaskClaimV) -> StoreV {
    let i = claim_index(s, c);
    StoreV {
        issue_delivery_queue: s.issue_delivery_queue.update(
            i,
            DeliveryQueueEntryV { locked: false, ..s.issue_delivery_queue[i] },
        ),
        ..s
    }
}

/// Abandons a claim without finalizing it: the row becomes claimable
/// again, exactly as when a crashed worker's connection drops and its
/// row lock releases. This is what makes delivery at-least-once rather
/// than zero-once.
#[verifier::loop_isolation(false)]
pub fn release_task(store: &mut Store, claim: TaskClaim)
    requires
        old(store)@.wf(),
        holds_claim(old(store)@, claim@),
    ensures
        final(store)@.wf(),
        final(store)@ == release_spec(old(store)@, claim@),
        final(store)@.issue_delivery_queue.len() == old(store)@.issue_delivery_queue.len(),
{
    let ghost pre = store@;
    let mut i: usize = 0;
    while i < store.issue_delivery_queue.len()
        invariant
            i <= pre.issue_delivery_queue.len(),
            store@ == pre,
            forall|j: int|
                0 <= j < i ==> !claim_row(#[trigger] pre.issue_delivery_queue[j], claim@),
        decreases pre.issue_delivery_queue.len() - i,
    {
        if store.issue_delivery_queue[i].newsletter_issue_id == claim.newsletter_issue_id
            && store.issue_delivery_queue[i].subscriber_email == claim.subscriber_email {
            proof {
                assert(claim_row(pre.issue_delivery_queue[i as int], claim@));
                let w = claim_index(pre, claim@);
                assert(claim_row(pre.issue_delivery_queue[w], claim@)
                    && pre.issue_delivery_queue[w].locked);
                if (i as int) < w {
                    assert(!(pre.issue_delivery_queue[i as int].newsletter_issue_id
                        == pre.issue_delivery_queue[w].newsletter_issue_id
                        && pre.issue_delivery_queue[i as int].subscriber_email
                        == pre.issue_delivery_queue[w].subscriber_email));
                } else if w < (i as int) {
                    assert(!(pre.issue_delivery_queue[w].newsletter_issue_id
                        == pre.issue_delivery_queue[i as int].newsletter_issue_id
                        && pre.issue_delivery_queue[w].subscriber_email
                        == pre.issue_delivery_queue[i as int].subscriber_email));
                }
                assert(w == i as int);
            }
            let newsletter_issue_id = claim.newsletter_issue_id;
            store.issue_delivery_queue[i] = DeliveryQueueEntry {
                newsletter_issue_id,
                subscriber_email: claim.subscriber_email,
                locked: false,
            };
            proof {
                assert(store@.issue_delivery_queue =~= pre.issue_delivery_queue.update(
                    i as int,
                    DeliveryQueueEntryV {
                        locked: false,
                        ..pre.issue_delivery_queue[i as int]
                    },
                ));
                assert(store@ =~= release_spec(pre, claim@));
                assert forall|a: int, b: int|
                    0 <= a < b < store@.issue_delivery_queue.len() implies !((
                #[trigger] store@.issue_delivery_queue[a]).newsletter_issue_id == (
                #[trigger] store@.issue_delivery_queue[b]).newsletter_issue_id
                    && store@.issue_delivery_queue[a].subscriber_email
                    == store@.issue_delivery_queue[b].subscriber_email) by {
                    assert(!(pre.issue_delivery_queue[a].newsletter_issue_id
                        == pre.issue_delivery_queue[b].newsletter_issue_id
                        && pre.issue_delivery_queue[a].subscriber_email
                        == pre.issue_delivery_queue[b].subscriber_email));
                }
                assert forall|a: int|
                    0 <= a < store@.issue_delivery_queue.len() implies store@.has_issue(
                    (#[trigger] store@.issue_delivery_queue[a]).newsletter_issue_id,
                ) by {
                    assert(pre.has_issue(pre.issue_delivery_queue[a].newsletter_issue_id));
                    assert(store@.issue_delivery_queue[a].newsletter_issue_id
                        == pre.issue_delivery_queue[a].newsletter_issue_id);
                }
            }
            return;
        }
        proof {
            assert(!claim_row(pre.issue_delivery_queue[i as int], claim@));
        }
        i += 1;
    }
    proof {
        let w = claim_index(pre, claim@);
        assert(claim_row(pre.issue_delivery_queue[w], claim@));
        assert(false);
    }
}

/// The issue a claimed row points at. Queue rows only ever reference
/// stored issues, so the lookup cannot miss.
#[verifier::loop_isolation(false)]
pub fn get_issue(store: &Store, newsletter_issue_id: u64) -> (r: &NewsletterIssue)
    requires
        store@.wf(),
        store@.has_issue(newsletter_issue_id),
    ensures
        r@ == seq_issue_of(store@.newsletter_issues, newsletter_issue_id),
{
    let mut i: usize = 0;
    while i < store.newsletter_issues.len()
        invariant
            i <= store@.newsletter_issues.len(),
            forall|j: int|
                0 <= j < i ==> (#[trigger] store@.newsletter_issues[j]).newsletter_issue_id
                    != newsletter_issue_id,
        decreases store@.newsletter_issues.len() - i,
    {
        if store.newsletter_issues[i].newsletter_issue_id == newsletter_issue_id {
            proof {
                lemma_issue_of_unique(store@, newsletter_issue_id, i as int);
            }
            return &store.newsletter_issues[i];
        }
        proof {
            assert(store@.newsletter_issues[i as int].newsletter_issue_id != newsletter_issue_id);
        }
        i += 1;
    }
    proof {
        let w = choose|w: int|
            0 <= w < store@.newsletter_issues.len() && (#[trigger] store@.newsletter_issues[w]).newsletter_issue_id
                == newsletter_issue_id;
        assert(false);
    }
    &store.newsletter_issues[0]
}

/// One full worker step as a deterministic transition: claim the first
/// available row, attempt the send if and only if the stored address is
/// valid, and remove the row on either terminal outcome. With no
/// available row, report an empty queue and change nothing.
pub open spec fn try_execute_spec(s: StoreV, c: EmailClientV) -> (StoreV, EmailClientV, ExecutionOutcome) {
    match first_unlocked(s.issue_delivery_queue) {
        None => (s, c, ExecutionOutcome::EmptyQueue),
        Some(i) => {
            let row = s.issue_delivery_queue[i];
            let post_store = StoreV {
                issue_delivery_queue: s.issue_delivery_queue.remove(i),
                ..s
            };
            if valid_subscriber_email(row.subscriber_email) {
                let issue = seq_issue_of(s.newsletter_issues, row.newsletter_issue_id);
                let post_client = EmailClientV {
                    sent: c.sent.push(
                        SentEmailV {
                            recipient: row.subscriber_email,
                            subject: issue.title,
                            html_content: issue.html_content,
                            text_content: issue.text_content,
                        },
                    ),
                    ..c
                };
                (post_store, post_client, ExecutionOutcome::TaskCompleted)
            } else {
                (post_store, c, ExecutionOutcome::TaskCompleted)
            }
        },
    }
}

/// One worker step: the single externally invokable operation, used by
/// the production loop and directly by tests to drain the queue
/// deterministically. A transport failure is swallowed — the row is
/// removed either way — and an invalid stored address never reaches the
/// transport.
pub fn try_execute_task(store: &mut Store, email_client: &mut EmailClient) -> (r: ExecutionOutcome)
    requires
        old(store)@.wf(),
    ensures
        final(store)@.wf(),
        ({
            let (post_store, post_client, outcome) = try_execute_spec(
                old(store)@,
                old(email_client)@,
            );
            &&& final(store)@ == post_store
            &&& final(email_client)@ == post_client
            &&& r == outcome
        }),
{
    let ghost pre = store@;
    let ghost pre_client = email_client@;
    let claim = match dequeue_task(store) {
        None => {
            return ExecutionOutcome::EmptyQueue;
        },
        Some(claim) => claim,
    };
    let ghost locked = store@;
    let ghost i = first_unlocked(pre.issue_delivery_queue)->Some_0;
    proof {
        lemma_first_unlocked(pre.issue_delivery_queue);
        assert(claim_row(locked.issue_delivery_queue[i], claim@)
            && locked.issue_delivery_queue[i].locked);
        lemma_claim_index_unique(locked, claim@, i);
        assert(pre.has_issue(pre.issue_delivery_queue[i].newsletter_issue_id));
        assert(locked.newsletter_issues == pre.newsletter_issues);
        assert(locked.has_issue(claim@.newsletter_issue_id));
    }
    match SubscriberEmail::parse(claim.subscriber_email.clone()) {
        Ok(email) => {
            let issue = get_issue(store, claim.newsletter_issue_id);
            // a transport failure is swallowed by design: retrying one
            // subscriber forever would starve every other row
            match email_client.send_email(
                &email,
                issue.title.as_str(),
                issue.html_content.as_str(),
                issue.text_content.as_str(),
            ) {
                Ok(_) => (),
                Err(_) => (),
            }
        },
        Err(_) => {
            // invalid stored address: terminal for this row, the
            // transport is never invoked
        },
    }
    delete_task(store, claim);
    proof {
        assert(store@.issue_delivery_queue =~= pre.issue_delivery_queue.remove(i));
        assert(store@ =~= try_execute_spec(pre, pre_client).0);
        if valid_subscriber_email(pre.issue_delivery_queue[i].subscriber_email) {
            assert(email_client@ =~= try_execute_spec(pre, pre_client).1);
        }
    }
    ExecutionOutcome::TaskCompleted
}

/// No claimant holds any row.
pub open spec fn all_unlocked(q: Seq<DeliveryQueueEntryV>) -> bool {
    forall|i: int| 0 <= i < q.len() ==> !(#[trigger] q[i]).locked
}

/// With no claim outstanding, a step reports an empty queue exactly when
/// no row is left.
pub proof fn lemma_empty_queue_outcome(s: StoreV, c: EmailClientV)
    requires
        all_unlocked(s.issue_delivery_queue),
    ensures
        (try_execute_spec(s, c).2 is EmptyQueue) <==> s.issue_delivery_queue.len() == 0,
{
    lemma_first_unlocked(s.issue_delivery_queue);
}

/// Iterating the worker step until it reports an empty queue.
pub open spec fn drain(s: StoreV, c: EmailClientV) -> (StoreV, EmailClientV)
    decreases s.issue_delivery_queue.len(),
{
    let (s1, c1, o) = try_execute_spec(s, c);
    if o is EmptyQueue {
        (s, c)
    } else if s1.issue_delivery_queue.len() < s.issue_delivery_queue.len() {
        drain(s1, c1)
    } else {
        (s1, c1)
    }
}

/// The queue drains to empty: repeating the single worker step until it
/// reports an empty queue leaves no claimable row — only rows other
/// worker instances hold claims on, and zero rows when no such claim is
/// outstanding.
pub proof fn lemma_queue_drains(s: StoreV, c: EmailClientV)
    ensures
        forall|j: int|
            0 <= j < drain(s, c).0.issue_delivery_queue.len() ==> (#[trigger] drain(
                s,
                c,
            ).0.issue_delivery_queue[j]).locked,
        all_unlocked(s.issue_delivery_queue) ==> drain(s, c).0.issue_delivery_queue.len() == 0,
        try_execute_spec(drain(s, c).0, drain(s, c).1).2 is EmptyQueue,
    decreases s.issue_delivery_queue.len(),
{
    lemma_first_unlocked(s.issue_delivery_queue);
    let (s1, c1, o) = try_execute_spec(s, c);
    if o is EmptyQueue {
        if all_unlocked(s.issue_delivery_queue) {
            lemma_empty_queue_outcome(s, c);
        }
    } else {
        let i = first_unlocked(s.issue_delivery_queue)->Some_0;
        assert(s1.issue_delivery_queue == s.issue_delivery_queue.remove(i));
        if all_unlocked(s.issue_delivery_queue) {
            assert forall|j: int| 0 <= j < s1.issue_delivery_queue.len() implies !(
            #[trigger] s1.issue_delivery_queue[j]).locked by {
                if j < i {
                    assert(s1.issue_delivery_queue[j] == s.issue_delivery_queue[j]);
                } else {
                    assert(s1.issue_delivery_queue[j] == s.issue_delivery_queue[j + 1]);
                }
            }
        }
        lemma_queue_drains(s1, c1);
    }
}

/// No double claim: whatever rows are already locked, two successive
/// claims — the second taken while the first is still outstanding — never
/// hand out the same unit of work, and both stay held until their owners
/// finalize them.
pub proof fn lemma_no_double_claim(s0: StoreV)
    requires
        s0.wf(),
    ensures
        ({
            let (s1, c1) = dequeue_spec(s0);
            let (s2, c2) = dequeue_spec(s1);
            match (c1, c2) {
                (Some(a), Some(b)) => {
                    &&& !(a.newsletter_issue_id == b.newsletter_issue_id && a.subscriber_email
                        == b.subscriber_email)
                    &&& holds_claim(s2, a)
                    &&& holds_claim(s2, b)
                },
                _ => true,
            }
        }),
{
    let (s1, c1) = dequeue_spec(s0);
    let (s2, c2) = dequeue_spec(s1);
    lemma_first_unlocked(s0.issue_delivery_queue);
    if c1 is Some {
        let i1 = first_unlocked(s0.issue_delivery_queue)->Some_0;
        lemma_first_unlocked(s1.issue_delivery_queue);
        if c2 is Some {
            let i2 = first_unlocked(s1.issue_delivery_queue)->Some_0;
            assert(s1.issue_delivery_queue[i1].locked);
            assert(!s1.issue_delivery_queue[i2].locked);
            assert(i1 != i2);
            assert(s1.issue_delivery_queue[i2] == s0.issue_delivery_queue[i2]);
            if i1 < i2 {
                assert(!(s0.issue_delivery_queue[i1].newsletter_issue_id
                    == s0.issue_delivery_queue[i2].newsletter_issue_id
                    && s0.issue_delivery_queue[i1].subscriber_email
                    == s0.issue_delivery_queue[i2].subscriber_email));
            } else {
                assert(!(s0.issue_delivery_queue[i2].newsletter_issue_id
                    == s0.issue_delivery_queue[i1].newsletter_issue_id
                    && s0.issue_delivery_queue[i2].subscriber_email
                    == s0.issue_delivery_queue[i1].subscriber_email));
            }
            assert(s2.issue_delivery_queue[i1] == s1.issue_delivery_queue[i1]);
            assert(claim_row(s2.issue_delivery_queue[i1], c1->Some_0)
                && s2.issue_delivery_queue[i1].locked);
            assert(claim_row(s2.issue_delivery_queue[i2], c2->Some_0)
                && s2.issue_delivery_queue[i2].locked);
        }
    }
}

/// Invalid address skip: when the claimed row's stored address fails
/// validation, the step removes the row without invoking the transport.
pub proof fn lemma_invalid_address_skip(s: StoreV, c: EmailClientV)
    requires
        first_unlocked(s.issue_delivery_queue) is Some,
        !valid_subscriber_email(
            s.issue_delivery_queue[first_unlocked(s.issue_delivery_queue)->Some_0].subscriber_email,
        ),
    ensures
        ({
            let (post_store, post_client, outcome) = try_execute_spec(s, c);
            &&& outcome is TaskCompleted
            &&& post_client == c
            &&& post_store.issue_delivery_queue.len() == s.issue_delivery_queue.len() - 1
        }),
{
    lemma_first_unlocked(s.issue_delivery_queue);
}

/// How long the production loop pauses after one step, in seconds: a
/// deliberate backpressure pause on an empty queue, a short pause after
/// an unexpected error, none after completed work.
pub fn worker_backoff_seconds(outcome: &Result<ExecutionOutcome, TransientError>) -> (r: u64)
    ensures
        r == match outcome {
            Ok(ExecutionOutcome::TaskCompleted) => 0u64,
            Ok(ExecutionOutcome::EmptyQueue) => 10u64,
            Err(_) => 1u64,
        },
{
    match outcome {
        Ok(ExecutionOutcome::TaskCompleted) => 0,
        Ok(ExecutionOutcome::EmptyQueue) => 10,
        Err(_) => 1,
    }
}

} // verus!
