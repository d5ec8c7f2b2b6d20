//! The durable state of the pipeline, modelled as an explicit state
//! machine.
//!
//! Four tables form the durable contract: the idempotency records, the
//! newsletter issues, the delivery queue and the subscriptions (with
//! their confirmation tokens). The real system keeps them in a relational
//! database; this model keeps them as vectors with the same keys and
//! invariants, so that every transition — claiming an idempotency key,
//! fanning a publish command out, draining the queue — is verified
//! against a mathematical view of the whole state.
//!
//! The `locked` flag on a queue entry models the row lock an open claim
//! holds: a claimed row is invisible to other claimants until the claim
//! is finalized or released, which is what lets several workers drain one
//! queue safely.

use vstd::prelude::*;

use crate::authentication::UserId;
use crate::response::{SavedResponse, SavedResponseV};

verus! {

/// One row of the idempotency table. The response stays `None` from the
/// moment the key is claimed until the guarded operation commits.
pub struct IdempotencyRecord {
    pub user_id: UserId,
    pub idempotency_key: String,
    pub response: Option<SavedResponse>,
}

/// Mathematical view of an idempotency record.
#[verifier::ext_equal]
pub struct IdempotencyRecordV {
    pub user_id: UserId,
    pub idempotency_key: Seq<char>,
    pub response: Option<SavedResponseV>,
}

impl View for IdempotencyRecord {
    type V = IdempotencyRecordV;

    open spec fn view(&self) -> IdempotencyRecordV {
        IdempotencyRecordV {
            user_id: self.user_id,
            idempotency_key: self.idempotency_key@,
            response: match self.response {
                Some(r) => Some(r@),
                None => None,
            },
        }
    }
}

/// One newsletter issue: written once, read-only afterwards.
pub struct NewsletterIssue {
    pub newsletter_issue_id: u64,
    pub title: String,
    pub text_content: String,
    pub html_content: String,
}

/// Mathematical view of an issue.
#[verifier::ext_equal]
pub struct NewsletterIssueV {
    pub newsletter_issue_id: u64,
    pub title: Seq<char>,
    pub text_content: Seq<char>,
    pub html_content: Seq<char>,
}

impl View for NewsletterIssue {
    type V = NewsletterIssueV;

    open spec fn view(&self) -> NewsletterIssueV {
        NewsletterIssueV {
            newsletter_issue_id: self.newsletter_issue_id,
            title: self.title@,
            text_content: self.text_content@,
            html_content: self.html_content@,
        }
    }
}

/// One unit of delivery work: (issue, subscriber address) is the
/// compound identity, `locked` models the row lock of an open claim.
pub struct DeliveryQueueEntry {
    pub newsletter_issue_id: u64,
    pub subscriber_email: String,
    pub locked: bool,
}

/// Mathematical view of a queue entry.
#[verifier::ext_equal]
pub struct DeliveryQueueEntryV {
    pub newsletter_issue_id: u64,
    pub subscriber_email: Seq<char>,
    pub locked: bool,
}

impl View for DeliveryQueueEntry {
    type V = DeliveryQueueEntryV;

    open spec fn view(&self) -> DeliveryQueueEntryV {
        DeliveryQueueEntryV {
            newsletter_issue_id: self.newsletter_issue_id,
            subscriber_email: self.subscriber_email@,
            locked: self.locked,
        }
    }
}

/// Whether a subscription has been confirmed by its owner.
#[derive(Clone, Copy, PartialEq, Eq, Structural, Debug)]
pub enum SubscriptionStatus {
    PendingConfirmation,
    Confirmed,
}

/// One subscription row.
pub struct Subscription {
    pub id: u64,
    pub email: String,
    pub status: SubscriptionStatus,
}

/// Mathematical view of a subscription.
#[verifier::ext_equal]
pub struct SubscriptionV {
    pub id: u64,
    pub email: Seq<char>,
    pub status: SubscriptionStatus,
}

impl View for Subscription {
    type V = SubscriptionV;

    open spec fn view(&self) -> SubscriptionV {
        SubscriptionV { id: self.id, email: self.email@, status: self.status }
    }
}

/// A confirmation token, pointing at the subscription it can confirm.
pub struct SubscriptionToken {
    pub subscription_token: String,
    pub subscriber_id: u64,
}

/// Mathematical view of a token row.
#[verifier::ext_equal]
pub struct SubscriptionTokenV {
    pub subscription_token: Seq<char>,
    pub subscriber_id: u64,
}

impl View for SubscriptionToken {
    type V = SubscriptionTokenV;

    open spec fn view(&self) -> SubscriptionTokenV {
        SubscriptionTokenV {
            subscription_token: self.subscription_token@,
            subscriber_id: self.subscriber_id,
        }
    }
}

/// Mathematical view of the whole durable state.
#[verifier::ext_equal]
pub struct StoreV {
    pub idempotency: Seq<IdempotencyRecordV>,
    pub newsletter_issues: Seq<NewsletterIssueV>,
    pub issue_delivery_queue: Seq<DeliveryQueueEntryV>,
    pub subscriptions: Seq<SubscriptionV>,
    pub subscription_tokens: Seq<SubscriptionTokenV>,
    pub next_issue_id: u64,
    pub next_subscriber_id: u64,
}

/// Some issue in the table carries this identifier.
pub open spec fn seq_has_issue(issues: Seq<NewsletterIssueV>, issue_id: u64) -> bool {
    exists|i: int|
        0 <= i < issues.len() && (#[trigger] issues[i]).newsletter_issue_id == issue_id
}

/// The issue in the table with this identifier (meaningful when
/// `seq_has_issue` holds).
pub open spec fn seq_issue_of(issues: Seq<NewsletterIssueV>, issue_id: u64) -> NewsletterIssueV {
    issues[choose|i: int|
        0 <= i < issues.len() && (#[trigger] issues[i]).newsletter_issue_id == issue_id]
}

/// Whether record `r` belongs to the (principal, key) pair.
pub open spec fn record_matches(r: IdempotencyRecordV, user_id: UserId, key: Seq<char>) -> bool {
    r.user_id == user_id && r.idempotency_key == key
}

/// The addresses of the subscriptions that are confirmed, in table order.
pub open spec fn confirmed_emails(subs: Seq<SubscriptionV>) -> Seq<Seq<char>>
    decreases subs.len(),
{
    if subs.len() == 0 {
        Seq::empty()
    } else if subs.last().status is Confirmed {
        confirmed_emails(subs.drop_last()).push(subs.last().email)
    } else {
        confirmed_emails(subs.drop_last())
    }
}

/// No two queue entries share the (issue, address) identity.
pub open spec fn queue_pairs_unique(q: Seq<DeliveryQueueEntryV>) -> bool {
    forall|i: int, j: int|
        0 <= i < j < q.len() ==> !((#[trigger] q[i]).newsletter_issue_id == (#[trigger] q[j]).newsletter_issue_id
            && q[i].subscriber_email == q[j].subscriber_email)
}

impl StoreV {
    /// One idempotency row per (principal, key) pair.
    pub open spec fn records_unique(self) -> bool {
        forall|i: int, j: int|
            0 <= i < j < self.idempotency.len() ==> !record_matches(
                #[trigger] self.idempotency[i],
                (#[trigger] self.idempotency[j]).user_id,
                self.idempotency[j].idempotency_key,
            )
    }

    /// Some record belongs to the pair.
    pub open spec fn has_record(self, user_id: UserId, key: Seq<char>) -> bool {
        exists|i: int|
            0 <= i < self.idempotency.len() && record_matches(
                #[trigger] self.idempotency[i],
                user_id,
                key,
            )
    }

    /// The record of the pair (meaningful when `has_record` holds; under
    /// `records_unique` there is exactly one).
    pub open spec fn record_of(self, user_id: UserId, key: Seq<char>) -> IdempotencyRecordV {
        self.idempotency[choose|i: int|
            0 <= i < self.idempotency.len() && record_matches(
                #[trigger] self.idempotency[i],
                user_id,
                key,
            )]
    }

    /// Issue identifiers are unique and below the allocation counter.
    pub open spec fn issues_wf(self) -> bool {
        &&& forall|i: int|
            0 <= i < self.newsletter_issues.len() ==> (#[trigger] self.newsletter_issues[i]).newsletter_issue_id
                < self.next_issue_id
        &&& forall|i: int, j: int|
            0 <= i < j < self.newsletter_issues.len() ==> (#[trigger] self.newsletter_issues[i]).newsletter_issue_id
                != (#[trigger] self.newsletter_issues[j]).newsletter_issue_id
    }

    /// Some issue carries this identifier.
    pub open spec fn has_issue(self, issue_id: u64) -> bool {
        seq_has_issue(self.newsletter_issues, issue_id)
    }

    /// The issue with this identifier (meaningful when `has_issue` holds).
    pub open spec fn issue_of(self, issue_id: u64) -> NewsletterIssueV {
        seq_issue_of(self.newsletter_issues, issue_id)
    }

    /// Every queue entry points at a stored issue.
    pub open spec fn queue_refs_wf(self) -> bool {
        forall|i: int|
            0 <= i < self.issue_delivery_queue.len() ==> self.has_issue(
                (#[trigger] self.issue_delivery_queue[i]).newsletter_issue_id,
            )
    }

    /// Subscription ids and addresses are unique; ids stay below the
    /// allocation counter.
    pub open spec fn subscriptions_wf(self) -> bool {
        &&& forall|i: int|
            0 <= i < self.subscriptions.len() ==> (#[trigger] self.subscriptions[i]).id
                < self.next_subscriber_id
        &&& forall|i: int, j: int|
            0 <= i < j < self.subscriptions.len() ==> (#[trigger] self.subscriptions[i]).id
                != (#[trigger] self.subscriptions[j]).id
        &&& forall|i: int, j: int|
            0 <= i < j < self.subscriptions.len() ==> (#[trigger] self.subscriptions[i]).email
                != (#[trigger] self.subscriptions[j]).email
    }

    /// Token strings are unique.
    pub open spec fn tokens_wf(self) -> bool {
        forall|i: int, j: int|
            0 <= i < j < self.subscription_tokens.len() ==> (#[trigger] self.subscription_tokens[i]).subscription_token
                != (#[trigger] self.subscription_tokens[j]).subscription_token
    }

    /// The invariant every operation preserves.
    pub open spec fn wf(self) -> bool {
        &&& self.records_unique()
        &&& self.issues_wf()
        &&& queue_pairs_unique(self.issue_delivery_queue)
        &&& self.queue_refs_wf()
        &&& self.subscriptions_wf()
        &&& self.tokens_wf()
    }

    /// Some subscription uses this address.
    pub open spec fn email_taken(self, email: Seq<char>) -> bool {
        exists|i: int|
            0 <= i < self.subscriptions.len() && (#[trigger] self.subscriptions[i]).email == email
    }

    /// Some token row uses this token string.
    pub open spec fn token_taken(self, token: Seq<char>) -> bool {
        exists|i: int|
            0 <= i < self.subscription_tokens.len()
                && (#[trigger] self.subscription_tokens[i]).subscription_token == token
    }
}

/// The durable state. Every verified operation requires and preserves
/// [`StoreV::wf`]; a store built by [`Store::new`] satisfies it from the
/// start.
pub struct Store {
    pub idempotency: Vec<IdempotencyRecord>,
    pub newsletter_issues: Vec<NewsletterIssue>,
    pub issue_delivery_queue: Vec<DeliveryQueueEntry>,
    pub subscriptions: Vec<Subscription>,
    pub subscription_tokens: Vec<SubscriptionToken>,
    pub next_issue_id: u64,
    pub next_subscriber_id: u64,
}

impl View for Store {
    type V = StoreV;

    open spec fn view(&self) -> StoreV {
        StoreV {
            idempotency: self.idempotency@.map_values(|r: IdempotencyRecord| r@),
            newsletter_issues: self.newsletter_issues@.map_values(|r: NewsletterIssue| r@),
            issue_delivery_queue: self.issue_delivery_queue@.map_values(
                |r: DeliveryQueueEntry| r@,
            ),
            subscriptions: self.subscriptions@.map_values(|r: Subscription| r@),
            subscription_tokens: self.subscription_tokens@.map_values(|r: SubscriptionToken| r@),
            next_issue_id: self.next_issue_id,
            next_subscriber_id: self.next_subscriber_id,
        }
    }
}

/// Why a new subscription was rejected.
#[derive(Clone, Copy, PartialEq, Eq, Structural, Debug)]
pub enum InsertSubscriberError {
    /// Another subscription already uses the address.
    DuplicateEmail,
    /// Another subscription already uses the token.
    DuplicateToken,
}

impl Store {
    /// An empty store.
    pub fn new() -> (r: Store)
        ensures
            r@.wf(),
            r@.idempotency.len() == 0,
            r@.newsletter_issues.len() == 0,
            r@.issue_delivery_queue.len() == 0,
            r@.subscriptions.len() == 0,
            r@.subscription_tokens.len() == 0,
            r@.next_issue_id == 0,
            r@.next_subscriber_id == 0,
    {
        let r = Store {
            idempotency: Vec::new(),
            newsletter_issues: Vec::new(),
            issue_delivery_queue: Vec::new(),
            subscriptions: Vec::new(),
            subscription_tokens: Vec::new(),
            next_issue_id: 0,
            next_subscriber_id: 0,
        };
        proof {
            assert(r@.idempotency =~= Seq::<IdempotencyRecordV>::empty());
            assert(r@.newsletter_issues =~= Seq::<NewsletterIssueV>::empty());
            assert(r@.issue_delivery_queue =~= Seq::<DeliveryQueueEntryV>::empty());
            assert(r@.subscriptions =~= Seq::<SubscriptionV>::empty());
            assert(r@.subscription_tokens =~= Seq::<SubscriptionTokenV>::empty());
        }
        r
    }

    /// Registers a pending subscription together with its confirmation
    /// token and returns the new subscription's id.
    #[verifier::loop_isolation(false)]
    pub fn insert_subscriber(&mut self, email: String, subscription_token: String) -> (r: Result<
        u64,
        InsertSubscriberError,
    >)
        requires
            old(self)@.wf(),
            old(self)@.next_subscriber_id < u64::MAX,
        ensures
            final(self)@.wf(),
            match r {
                Ok(id) => {
                    &&& !old(self)@.email_taken(email@)
                    &&& !old(self)@.token_taken(subscription_token@)
                    &&& id == old(self)@.next_subscriber_id
                    &&& final(self)@ == (StoreV {
                        subscriptions: old(self)@.subscriptions.push(
                            SubscriptionV {
                                id,
                                email: email@,
                                status: SubscriptionStatus::PendingConfirmation,
                            },
                        ),
                        subscription_tokens: old(self)@.subscription_tokens.push(
                            SubscriptionTokenV {
                                subscription_token: subscription_token@,
                                subscriber_id: id,
                            },
                        ),
                        next_subscriber_id: (old(self)@.next_subscriber_id + 1) as u64,
                        ..old(self)@
                    })
                },
                Err(InsertSubscriberError::DuplicateEmail) => old(self)@.email_taken(email@)
                    && final(self)@ == old(self)@,
                Err(InsertSubscriberError::DuplicateToken) => !old(self)@.email_taken(email@)
                    && old(self)@.token_taken(subscription_token@) && final(self)@ == old(self)@,
            },
    {
        let ghost pre = self@;
        let ghost email_v = email@;
        let ghost token_v = subscription_token@;
        let mut i: usize = 0;
        while i < self.subscriptions.len()
            invariant
                i <= self@.subscriptions.len(),
                self@ == pre,
                forall|j: int| 0 <= j < i ==> (#[trigger] self@.subscriptions[j]).email != email_v,
            decreases self@.subscriptions.len() - i,
        {
            if self.subscriptions[i].email == email {
                proof {
                    assert(pre.subscriptions[i as int].email == email_v);
                }
                return Err(InsertSubscriberError::DuplicateEmail);
            }
            proof {
                assert(self@.subscriptions[i as int].email != email_v);
            }
            i += 1;
        }
        proof {
            assert(!pre.email_taken(email_v));
        }
        let mut i: usize = 0;
        while i < self.subscription_tokens.len()
            invariant
                i <= self@.subscription_tokens.len(),
                self@ == pre,
                forall|j: int|
                    0 <= j < i ==> (#[trigger] self@.subscription_tokens[j]).subscription_token
                        != token_v,
            decreases self@.subscription_tokens.len() - i,
        {
            if self.subscription_tokens[i].subscription_token == subscription_token {
                proof {
                    assert(pre.subscription_tokens[i as int].subscription_token == token_v);
                }
                return Err(InsertSubscriberError::DuplicateToken);
            }
            proof {
                assert(self@.subscription_tokens[i as int].subscription_token != token_v);
            }
            i += 1;
        }
        proof {
            assert(!pre.token_taken(token_v));
        }
        let id = self.next_subscriber_id;
        self.subscriptions.push(
            Subscription { id, email, status: SubscriptionStatus::PendingConfirmation },
        );
        self.subscription_tokens.push(
            SubscriptionToken { subscription_token, subscriber_id: id },
        );
        self.next_subscriber_id = id + 1;
        proof {
            let post = self@;
            let subv = SubscriptionV {
                id,
                email: email_v,
                status: SubscriptionStatus::PendingConfirmation,
            };
            let tokv = SubscriptionTokenV { subscription_token: token_v, subscriber_id: id };
            assert(post.subscriptions =~= pre.subscriptions.push(subv));
            assert(post.subscription_tokens =~= pre.subscription_tokens.push(tokv));
            assert(post =~= (StoreV {
                subscriptions: pre.subscriptions.push(subv),
                subscription_tokens: pre.subscription_tokens.push(tokv),
                next_subscriber_id: (pre.next_subscriber_id + 1) as u64,
                ..pre
            }));
            assert forall|a: int| 0 <= a < post.subscriptions.len() implies (
                #[trigger] post.subscriptions[a]).id < post.next_subscriber_id by {
                if a < pre.subscriptions.len() {
                    assert(pre.subscriptions[a].id < pre.next_subscriber_id);
                }
            }
            assert forall|a: int, b: int| 0 <= a < b < post.subscriptions.len() implies (
                #[trigger] post.subscriptions[a]).id != (#[trigger] post.subscriptions[b]).id by {
                if b < pre.subscriptions.len() {
                    assert(pre.subscriptions[a].id != pre.subscriptions[b].id);
                } else {
                    assert(pre.subscriptions[a].id < pre.next_subscriber_id);
                }
            }
            assert forall|a: int, b: int| 0 <= a < b < post.subscriptions.len() implies (
                #[trigger] post.subscriptions[a]).email != (
            #[trigger] post.subscriptions[b]).email by {
                if b < pre.subscriptions.len() {
                    assert(pre.subscriptions[a].email != pre.subscriptions[b].email);
                } else {
                    assert(pre.subscriptions[a].email != email_v);
                }
            }
            assert forall|a: int, b: int| 0 <= a < b < post.subscription_tokens.len() implies (
                #[trigger] post.subscription_tokens[a]).subscription_token != (
            #[trigger] post.subscription_tokens[b]).subscription_token by {
                if b < pre.subscription_tokens.len() {
                    assert(pre.subscription_tokens[a].subscription_token
                        != pre.subscription_tokens[b].subscription_token);
                } else {
                    assert(pre.subscription_tokens[a].subscription_token != token_v);
                }
            }
            assert forall|a: int| 0 <= a < post.issue_delivery_queue.len() implies post.has_issue(
                (#[trigger] post.issue_delivery_queue[a]).newsletter_issue_id,
            ) by {
                let id_a = pre.issue_delivery_queue[a].newsletter_issue_id;
                assert(pre.has_issue(id_a));
                let w = choose|w: int|
                    0 <= w < pre.newsletter_issues.len() && (#[trigger] pre.newsletter_issues[w]).newsletter_issue_id
                        == id_a;
                assert(post.newsletter_issues[w].newsletter_issue_id == id_a);
            }
            assert(post.wf());
        }
        Ok(id)
    }

    /// How many delivery queue entries exist, across all issues.
    pub fn delivery_queue_len(&self) -> (r: usize)
        ensures
            r == self@.issue_delivery_queue.len(),
    {
        self.issue_delivery_queue.len()
    }

    /// How many queue entries belong to one issue.
    #[verifier::loop_isolation(false)]
    pub fn delivery_queue_len_for_issue(&self, newsletter_issue_id: u64) -> (r: usize)
        ensures
            r == entries_for_issue(self@.issue_delivery_queue, newsletter_issue_id).len(),
    {
        let mut count: usize = 0;
        let mut i: usize = 0;
        while i < self.issue_delivery_queue.len()
            invariant
                i <= self@.issue_delivery_queue.len(),
                count == entries_for_issue(
                    self@.issue_delivery_queue.take(i as int),
                    newsletter_issue_id,
                ).len(),
                count <= i,
            decreases self@.issue_delivery_queue.len() - i,
        {
            proof {
                assert(self@.issue_delivery_queue.take(i + 1).drop_last()
                    =~= self@.issue_delivery_queue.take(i as int));
            }
            if self.issue_delivery_queue[i].newsletter_issue_id == newsletter_issue_id {
                count += 1;
            }
            i += 1;
        }
        proof {
            assert(self@.issue_delivery_queue.take(self@.issue_delivery_queue.len() as int)
                =~= self@.issue_delivery_queue);
        }
        count
    }

    /// Whether the queue holds an entry for this (issue, address) pair.
    #[verifier::loop_isolation(false)]
    pub fn delivery_queue_contains(&self, newsletter_issue_id: u64, subscriber_email: &String) -> (
        r: bool)
        ensures
            r == exists|i: int|
                0 <= i < self@.issue_delivery_queue.len() && (#[trigger] self@.issue_delivery_queue[i]).newsletter_issue_id
                    == newsletter_issue_id && self@.issue_delivery_queue[i].subscriber_email
                    == subscriber_email@,
    {
        let mut i: usize = 0;
        while i < self.issue_delivery_queue.len()
            invariant
                i <= self@.issue_delivery_queue.len(),
                forall|j: int|
                    0 <= j < i ==> !((#[trigger] self@.issue_delivery_queue[j]).newsletter_issue_id
                        == newsletter_issue_id && self@.issue_delivery_queue[j].subscriber_email
                        == subscriber_email@),
            decreases self@.issue_delivery_queue.len() - i,
        {
            if self.issue_delivery_queue[i].newsletter_issue_id == newsletter_issue_id
                && self.issue_delivery_queue[i].subscriber_email == *subscriber_email {
                proof {
                    assert(self@.issue_delivery_queue[i as int].newsletter_issue_id
                        == newsletter_issue_id && self@.issue_delivery_queue[i as int].subscriber_email
                        == subscriber_email@);
                }
                return true;
            }
            proof {
                assert(!(self@.issue_delivery_queue[i as int].newsletter_issue_id
                    == newsletter_issue_id && self@.issue_delivery_queue[i as int].subscriber_email
                    == subscriber_email@));
            }
            i += 1;
        }
        false
    }

    /// The status of the subscription with this id, if it exists.
    #[verifier::loop_isolation(false)]
    pub fn subscription_status(&self, id: u64) -> (r: Option<SubscriptionStatus>)
        ensures
            match r {
                Some(status) => exists|i: int|
                    0 <= i < self@.subscriptions.len() && (#[trigger] self@.subscriptions[i]).id
                        == id && self@.subscriptions[i].status == status,
                None => forall|i: int|
                    0 <= i < self@.subscriptions.len() ==> (#[trigger] self@.subscriptions[i]).id
                        != id,
            },
    {
        let mut i: usize = 0;
        while i < self.subscriptions.len()
            invariant
                i <= self@.subscriptions.len(),
                forall|j: int| 0 <= j < i ==> (#[trigger] self@.subscriptions[j]).id != id,
            decreases self@.subscriptions.len() - i,
        {
            if self.subscriptions[i].id == id {
                let status = self.subscriptions[i].status;
                proof {
                    assert(self@.subscriptions[i as int].id == id && self@.subscriptions[i as int].status
                        == status);
                }
                return Some(status);
            }
            proof {
                assert(self@.subscriptions[i as int].id != id);
            }
            i += 1;
        }
        None
    }
}

/// Under `records_unique`, a record that matches the pair at index `i`
/// is the record `record_of` denotes.
pub proof fn lemma_record_of_unique(s: StoreV, user_id: UserId, key: Seq<char>, i: int)
    requires
        s.records_unique(),
        0 <= i < s.idempotency.len(),
        record_matches(s.idempotency[i], user_id, key),
    ensures
        s.has_record(user_id, key),
        s.record_of(user_id, key) == s.idempotency[i],
{
    assert(s.has_record(user_id, key));
    let j = choose|j: int|
        0 <= j < s.idempotency.len() && record_matches(#[trigger] s.idempotency[j], user_id, key);
    if i < j {
        assert(!record_matches(s.idempotency[i], s.idempotency[j].user_id,
            s.idempotency[j].idempotency_key));
    } else if j < i {
        assert(!record_matches(s.idempotency[j], s.idempotency[i].user_id,
            s.idempotency[i].idempotency_key));
    }
}

/// Under `issues_wf`, an issue that carries `issue_id` at index `i` is
/// the issue `issue_of` denotes.
pub proof fn lemma_issue_of_unique(s: StoreV, issue_id: u64, i: int)
    requires
        s.issues_wf(),
        0 <= i < s.newsletter_issues.len(),
        s.newsletter_issues[i].newsletter_issue_id == issue_id,
    ensures
        s.has_issue(issue_id),
        s.issue_of(issue_id) == s.newsletter_issues[i],
{
    assert(s.has_issue(issue_id));
    let j = choose|j: int|
        0 <= j < s.newsletter_issues.len() && (#[trigger] s.newsletter_issues[j]).newsletter_issue_id
            == issue_id;
    if i < j {
        assert(s.newsletter_issues[i].newsletter_issue_id
            != s.newsletter_issues[j].newsletter_issue_id);
    } else if j < i {
        assert(s.newsletter_issues[j].newsletter_issue_id
            != s.newsletter_issues[i].newsletter_issue_id);
    }
}

/// Well-formedness carries over to a state that changed only its
/// idempotency records, as long as those stayed unique.
pub proof fn lemma_wf_same_tables(pre: StoreV, post: StoreV)
    requires
        pre.wf(),
        post.records_unique(),
        post.newsletter_issues == pre.newsletter_issues,
        post.issue_delivery_queue == pre.issue_delivery_queue,
        post.subscriptions == pre.subscriptions,
        post.subscription_tokens == pre.subscription_tokens,
        post.next_issue_id == pre.next_issue_id,
        post.next_subscriber_id == pre.next_subscriber_id,
    ensures
        post.wf(),
{
    assert forall|a: int| 0 <= a < post.issue_delivery_queue.len() implies post.has_issue(
        (#[trigger] post.issue_delivery_queue[a]).newsletter_issue_id,
    ) by {
        assert(pre.has_issue(pre.issue_delivery_queue[a].newsletter_issue_id));
        let w = choose|w: int|
            0 <= w < pre.newsletter_issues.len() && (#[trigger] pre.newsletter_issues[w]).newsletter_issue_id
                == pre.issue_delivery_queue[a].newsletter_issue_id;
        assert(post.newsletter_issues[w].newsletter_issue_id
            == post.issue_delivery_queue[a].newsletter_issue_id);
    }
}

/// No address appears twice.
pub open spec fn emails_distinct(emails: Seq<Seq<char>>) -> bool {
    forall|i: int, j: int| 0 <= i < j < emails.len() ==> emails[i] != emails[j]
}

/// Some confirmed subscription carries the address.
pub open spec fn confirmed_address(subs: Seq<SubscriptionV>, email: Seq<char>) -> bool {
    exists|i: int|
        0 <= i < subs.len() && (#[trigger] subs[i]).status is Confirmed && subs[i].email == email
}

/// Every confirmed address comes from some confirmed subscription.
pub proof fn lemma_confirmed_emails_membership(subs: Seq<SubscriptionV>)
    ensures
        forall|k: int|
            0 <= k < confirmed_emails(subs).len() ==> confirmed_address(
                subs,
                #[trigger] confirmed_emails(subs)[k],
            ),
    decreases subs.len(),
{
    if subs.len() > 0 {
        let dl = subs.drop_last();
        lemma_confirmed_emails_membership(dl);
        let front = confirmed_emails(dl);
        assert forall|k: int| 0 <= k < confirmed_emails(subs).len() implies confirmed_address(
            subs,
            #[trigger] confirmed_emails(subs)[k],
        ) by {
            if k < front.len() {
                assert(confirmed_address(dl, front[k]));
                let w = choose|i: int|
                    0 <= i < dl.len() && (#[trigger] dl[i]).status is Confirmed && dl[i].email
                        == front[k];
                assert(subs[w] == dl[w]);
                assert(subs[w].status is Confirmed && subs[w].email == confirmed_emails(subs)[k]);
            } else {
                let w = subs.len() - 1;
                assert(subs[w].status is Confirmed && subs[w].email == confirmed_emails(subs)[k]);
            }
        }
    } else {
        assert(confirmed_emails(subs).len() == 0);
    }
}

/// When subscription addresses are unique, the confirmed snapshot holds
/// no duplicates.
pub proof fn lemma_confirmed_emails_distinct(subs: Seq<SubscriptionV>)
    requires
        forall|i: int, j: int|
            0 <= i < j < subs.len() ==> (#[trigger] subs[i]).email != (#[trigger] subs[j]).email,
    ensures
        emails_distinct(confirmed_emails(subs)),
    decreases subs.len(),
{
    if subs.len() > 0 {
        let dl = subs.drop_last();
        lemma_confirmed_emails_distinct(dl);
        lemma_confirmed_emails_membership(dl);
        let front = confirmed_emails(dl);
        let all = confirmed_emails(subs);
        assert forall|a: int, b: int| 0 <= a < b < all.len() implies all[a] != all[b] by {
            if b < front.len() {
                assert(front[a] != front[b]);
            } else if subs.last().status is Confirmed && b == front.len() {
                assert(confirmed_address(dl, front[a]));
                let w = choose|i: int|
                    0 <= i < dl.len() && (#[trigger] dl[i]).status is Confirmed && dl[i].email
                        == front[a];
                assert(subs[w].email != subs[subs.len() - 1].email);
                assert(all[b] == subs.last().email);
            }
        }
    }
}

/// Well-formedness carries over to a state that changed only its
/// subscriptions, as long as those stayed well-formed on their own.
pub proof fn lemma_wf_same_tables_subscriptions(pre: StoreV, post: StoreV)
    requires
        pre.wf(),
        post.subscriptions_wf(),
        post.idempotency == pre.idempotency,
        post.newsletter_issues == pre.newsletter_issues,
        post.issue_delivery_queue == pre.issue_delivery_queue,
        post.subscription_tokens == pre.subscription_tokens,
        post.next_issue_id == pre.next_issue_id,
    ensures
        post.wf(),
{
    assert forall|a: int| 0 <= a < post.issue_delivery_queue.len() implies post.has_issue(
        (#[trigger] post.issue_delivery_queue[a]).newsletter_issue_id,
    ) by {
        assert(pre.has_issue(pre.issue_delivery_queue[a].newsletter_issue_id));
    }
}

/// The queue entries that belong to one issue, in queue order.
pub open spec fn entries_for_issue(q: Seq<DeliveryQueueEntryV>, issue_id: u64) -> Seq<
    DeliveryQueueEntryV,
>
    decreases q.len(),
{
    if q.len() == 0 {
        Seq::empty()
    } else if q.last().newsletter_issue_id == issue_id {
        entries_for_issue(q.drop_last(), issue_id).push(q.last())
    } else {
        entries_for_issue(q.drop_last(), issue_id)
    }
}

/// `entries_for_issue` distributes over concatenation.
pub proof fn lemma_entries_for_issue_concat(a: Seq<DeliveryQueueEntryV>, b: Seq<DeliveryQueueEntryV>, issue_id: u64)
    ensures
        entries_for_issue(a + b, issue_id) == entries_for_issue(a, issue_id) + entries_for_issue(
            b,
            issue_id,
        ),
    decreases b.len(),
{
    if b.len() == 0 {
        assert(a + b =~= a);
        assert(entries_for_issue(a, issue_id) + entries_for_issue(b, issue_id)
            =~= entries_for_issue(a, issue_id));
    } else {
        lemma_entries_for_issue_concat(a, b.drop_last(), issue_id);
        assert((a + b).drop_last() =~= a + b.drop_last());
        assert((a + b).last() == b.last());
        if b.last().newsletter_issue_id == issue_id {
            assert(entries_for_issue(b, issue_id) =~= entries_for_issue(b.drop_last(), issue_id)
                .push(b.last()));
            assert(entries_for_issue(a + b, issue_id) =~= entries_for_issue(a, issue_id)
                + entries_for_issue(b, issue_id));
        } else {
            assert(entries_for_issue(a + b, issue_id) =~= entries_for_issue(a, issue_id)
                + entries_for_issue(b, issue_id));
        }
    }
}

/// A queue without entries of the issue contributes nothing.
pub proof fn lemma_entries_for_issue_none(q: Seq<DeliveryQueueEntryV>, issue_id: u64)
    requires
        forall|i: int|
            0 <= i < q.len() ==> (#[trigger] q[i]).newsletter_issue_id != issue_id,
    ensures
        entries_for_issue(q, issue_id) == Seq::<DeliveryQueueEntryV>::empty(),
    decreases q.len(),
{
    if q.len() > 0 {
        assert(forall|i: int|
            0 <= i < q.drop_last().len() ==> (#[trigger] q.drop_last()[i]).newsletter_issue_id
                != issue_id);
        lemma_entries_for_issue_none(q.drop_last(), issue_id);
    }
}

/// A queue made only of entries of the issue is returned whole.
pub proof fn lemma_entries_for_issue_all(q: Seq<DeliveryQueueEntryV>, issue_id: u64)
    requires
        forall|i: int|
            0 <= i < q.len() ==> (#[trigger] q[i]).newsletter_issue_id == issue_id,
    ensures
        entries_for_issue(q, issue_id) == q,
    decreases q.len(),
{
    if q.len() > 0 {
        assert(forall|i: int|
            0 <= i < q.drop_last().len() ==> (#[trigger] q.drop_last()[i]).newsletter_issue_id
                == issue_id);
        lemma_entries_for_issue_all(q.drop_last(), issue_id);
        assert(entries_for_issue(q, issue_id) =~= q);
    }
}

} // verus!
