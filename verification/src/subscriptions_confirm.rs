//! Confirming a pending subscription by token.
//!
//! A confirmation link carries the token; the handler resolves it to a
//! subscription and marks that subscription confirmed. Only confirmed
//! subscriptions are snapshotted by the fan-out, so this is the one
//! transition that grows the fan-out of later submits.

use vstd::prelude::*;

use crate::response::{HeaderPairV, SavedResponse};
use crate::store::{Store, StoreV, SubscriptionStatus, SubscriptionV};

verus! {

/// The query parameters of a confirmation request.
#[derive(Debug)]
pub struct Parameters {
    pub subscription_token: String,
}

/// The subscriber the token points at, if the token is known.
pub open spec fn token_subscriber(s: StoreV, token: Seq<char>) -> Option<u64> {
    if exists|i: int|
        0 <= i < s.subscription_tokens.len() && (#[trigger] s.subscription_tokens[i]).subscription_token
            == token {
        Some(
            s.subscription_tokens[choose|i: int|
                0 <= i < s.subscription_tokens.len() && (#[trigger] s.subscription_tokens[i]).subscription_token
                    == token].subscriber_id,
        )
    } else {
        None
    }
}

/// Looks a confirmation token up.
#[verifier::loop_isolation(false)]
pub fn get_subscriber_id_from_token(store: &Store, subscription_token: &String) -> (r: Option<u64>)
    requires
        store@.wf(),
    ensures
        r == token_subscriber(store@, subscription_token@),
{
    let mut i: usize = 0;
    while i < store.subscription_tokens.len()
        invariant
            i <= store@.subscription_tokens.len(),
            forall|j: int|
                0 <= j < i ==> (#[trigger] store@.subscription_tokens[j]).subscription_token
                    != subscription_token@,
        decreases store@.subscription_tokens.len() - i,
    {
        if store.subscription_tokens[i].subscription_token == *subscription_token {
            let id = store.subscription_tokens[i].subscriber_id;
            proof {
                assert(store@.subscription_tokens[i as int].subscription_token
                    == subscription_token@);
                let w = choose|w: int|
                    0 <= w < store@.subscription_tokens.len() && (
                    #[trigger] store@.subscription_tokens[w]).subscription_token
                        == subscription_token@;
                if w < i as int {
                    assert(store@.subscription_tokens[w].subscription_token
                        != store@.subscription_tokens[i as int].subscription_token);
                } else if (i as int) < w {
                    assert(store@.subscription_tokens[i as int].subscription_token
                        != store@.subscription_tokens[w].subscription_token);
                }
                assert(w == i as int);
            }
            return Some(id);
        }
        proof {
            assert(store@.subscription_tokens[i as int].subscription_token
                != subscription_token@);
        }
        i += 1;
    }
    None
}

/// The state with one subscription marked confirmed: every subscription
/// carrying the id is confirmed, everything else is untouched.
pub open spec fn confirm_subscriber_spec(s: StoreV, subscriber_id: u64) -> StoreV {
    StoreV {
        subscriptions: s.subscriptions.map_values(
            |sub: SubscriptionV| if sub.id == subscriber_id {
                SubscriptionV { status: SubscriptionStatus::Confirmed, ..sub }
            } else {
                sub
            },
        ),
        ..s
    }
}

/// Marks the subscription confirmed. An id no subscription carries
/// changes nothing, as an update that matches no row.
#[verifier::loop_isolation(false)]
pub fn confirm_subscriber(store: &mut Store, subscriber_id: u64)
    requires
        old(store)@.wf(),
    ensures
        final(store)@.wf(),
        final(store)@ == confirm_subscriber_spec(old(store)@, subscriber_id),
{
    let ghost pre = store@;
    let ghost target = confirm_subscriber_spec(pre, subscriber_id);
    let mut i: usize = 0;
    while i < store.subscriptions.len()
        invariant
            i <= pre.subscriptions.len(),
            store@.subscriptions.len() == pre.subscriptions.len(),
            forall|j: int|
                0 <= j < i ==> #[trigger] store@.subscriptions[j] == target.subscriptions[j],
            forall|j: int|
                i <= j < pre.subscriptions.len() ==> #[trigger] store@.subscriptions[j]
                    == pre.subscriptions[j],
            store@ == (StoreV { subscriptions: store@.subscriptions, ..pre }),
        decreases pre.subscriptions.len() - i,
    {
        let ghost snap = store@;
        if store.subscriptions[i].id == subscriber_id {
            let email = store.subscriptions[i].email.clone();
            let id = store.subscriptions[i].id;
            store.subscriptions[i] = crate::store::Subscription {
                id,
                email,
                status: SubscriptionStatus::Confirmed,
            };
            proof {
                assert(store@.subscriptions =~= snap.subscriptions.update(
                    i as int,
                    SubscriptionV {
                        status: SubscriptionStatus::Confirmed,
                        ..snap.subscriptions[i as int]
                    },
                ));
                assert(store@ =~= (StoreV { subscriptions: store@.subscriptions, ..snap }));
            }
        }
        proof {
            assert(store@.subscriptions[i as int] == target.subscriptions[i as int]);
        }
        i += 1;
    }
    proof {
        assert(store@.subscriptions =~= target.subscriptions);
        assert(store@ =~= target);
        assert forall|a: int| 0 <= a < store@.subscriptions.len() implies (
            #[trigger] store@.subscriptions[a]).id < store@.next_subscriber_id by {
            assert(pre.subscriptions[a].id < pre.next_subscriber_id);
        }
        assert forall|a: int, b: int| 0 <= a < b < store@.subscriptions.len() implies (
            #[trigger] store@.subscriptions[a]).id != (#[trigger] store@.subscriptions[b]).id by {
            assert(pre.subscriptions[a].id != pre.subscriptions[b].id);
        }
        assert forall|a: int, b: int| 0 <= a < b < store@.subscriptions.len() implies (
            #[trigger] store@.subscriptions[a]).email != (
        #[trigger] store@.subscriptions[b]).email by {
            assert(pre.subscriptions[a].email != pre.subscriptions[b].email);
        }
        crate::store::lemma_wf_same_tables_subscriptions(pre, store@);
    }
}

/// Handles a confirmation request: an unknown token is refused, a known
/// one confirms its subscription.
pub fn confirm(store: &mut Store, parameters: &Parameters) -> (r: SavedResponse)
    requires
        old(store)@.wf(),
    ensures
        final(store)@.wf(),
        r@.headers == Seq::<HeaderPairV>::empty(),
        r@.body == Seq::<u8>::empty(),
        match token_subscriber(old(store)@, parameters.subscription_token@) {
            None => r@.status_code == 401 && final(store)@ == old(store)@,
            Some(subscriber_id) => r@.status_code == 200 && final(store)@
                == confirm_subscriber_spec(old(store)@, subscriber_id),
        },
{
    let id = match get_subscriber_id_from_token(store, &parameters.subscription_token) {
        Some(id) => id,
        None => {
            let r = SavedResponse { status_code: 401, headers: Vec::new(), body: Vec::new() };
            proof {
                assert(r@.headers =~= Seq::<HeaderPairV>::empty());
                assert(r@.body =~= Seq::<u8>::empty());
            }
            return r;
        },
    };
    confirm_subscriber(store, id);
    let r = SavedResponse { status_code: 200, headers: Vec::new(), body: Vec::new() };
    proof {
        assert(r@.headers =~= Seq::<HeaderPairV>::empty());
        assert(r@.body =~= Seq::<u8>::empty());
    }
    r
}

} // verus!
