//! Laws of the registry: properties that relate several operations.
//!
//! Each proof function below states, over the registry's observations, how
//! the outcome cases of one operation's contract carry over to a later call.

use vstd::prelude::*;

use crate::router::PathwayKey;
use crate::router::Router;

verus! {

/// Sender registrations under distinct identities succeed independently,
/// and a repeated registration finds its identity occupied.
///
/// Let `mid` be a state as `register_sender`'s contract describes it after a
/// successful registration at `e1`: `e1` holds a sender and every other
/// identity is as it was in `pre`. Then in `mid` a registration at `e2`
/// still meets the contract's success case (`e2` holds no sender), while a
/// second registration at `e1` meets exactly its `DuplicateRegistration`
/// case (`e1` holds one).
pub proof fn lemma_sender_registrations_independent<B>(
    pre: Router<B>,
    mid: Router<B>,
    e1: u64,
    e2: u64,
)
    requires
        !pre.has_sender(e1),
        !pre.has_sender(e2),
        e1 != e2,
        mid.has_sender(e1),
        Router::senders_preserved_except(pre, mid, e1),
    ensures
        mid.has_sender(e1),
        !mid.has_sender(e2),
{
    assert(mid.has_sender(e2) == pre.has_sender(e2));
}

/// A registered receiver is claimed exactly once.
///
/// `take_receiver`'s contract returns the consumer handle exactly when the
/// claim slot under the identity is unclaimed, and leaves it claimed. This
/// lemma adds that claimedness persists: every registry operation either
/// touches only another identity `other` — and then, by its preservation
/// clause, `id` stays registered and claimed, so a further claim on `id`
/// meets exactly the `AlreadyClaimed` case — or addresses `id` itself, and
/// then its contract fails without changing the registry, since `id` is
/// occupied and claimed.
pub proof fn lemma_claimed_stays_claimed<B>(s1: Router<B>, s2: Router<B>, id: u64, other: u64)
    requires
        s1.has_receiver(id),
        !s1.is_unclaimed(id),
        other != id,
        Router::receivers_preserved_except(s1, s2, other),
    ensures
        s2.has_receiver(id),
        !s2.is_unclaimed(id),
        s2.receiver_tag(id) == s1.receiver_tag(id),
{
    assert(s2.has_receiver(id) == s1.has_receiver(id));
}

/// Within one link a message type resolves to at most one pathway, but the
/// same message type may be mapped under two different links independently.
///
/// Let `mid` be a state as `register_pathway`'s contract describes it after
/// `tag` was mapped under link `l1` through the key `key`. Then in `mid` a
/// further registration of `tag` under `l1` meets exactly the contract's
/// `AmbiguousDispatch` case, while a registration of the same `tag` under a
/// different link `l2` still meets its success case.
pub proof fn lemma_link_type_mappings_independent<B>(
    pre: Router<B>,
    mid: Router<B>,
    l1: u64,
    l2: u64,
    tag: u64,
    key: PathwayKey,
)
    requires
        !pre.link_carries(l1, tag),
        !pre.link_carries(l2, tag),
        l1 != l2,
        key.link == l1,
        mid.link_carries(l1, tag),
        Router::pathways_preserved_except(pre, mid, key, l1, tag),
    ensures
        mid.link_carries(l1, tag),
        !mid.link_carries(l2, tag),
{
    assert(mid.link_carries(l2, tag) == pre.link_carries(l2, tag));
}

} // verus!
