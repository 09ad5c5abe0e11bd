//! Declarative construction of one link: two endpoints, two pathways.

use vstd::prelude::*;

use crate::envelope::Envelope;
use crate::pathway;
use crate::router::PathwayKey;
use crate::router::Router;

verus! {

/// One side of a link: the endpoint's name within the link, the identities
/// its two endpoint registrations stand under, and the type tag of the one
/// message type it sends (and the opposite endpoint receives).
#[derive(Clone, Copy, Debug)]
pub struct EndpointPlan {
    /// The endpoint's name, used in the dispatch keys of the link.
    pub name: u64,
    /// The endpoint identity its sending endpoint is registered under.
    pub sender_id: u64,
    /// The endpoint identity its receiving endpoint is registered under.
    pub receiver_id: u64,
    /// The type tag of the message type this endpoint sends.
    pub sends_tag: u64,
}

/// A declarative description of one link: a logical name, two endpoints that
/// each send one message type to the other, and the capacity of the two
/// underlying pathways.
#[derive(Clone, Copy, Debug)]
pub struct LinkPlan {
    /// The link identity.
    pub link_id: u64,
    /// The endpoint that sends `first.sends_tag` and receives
    /// `second.sends_tag`.
    pub first: EndpointPlan,
    /// The endpoint that sends `second.sends_tag` and receives
    /// `first.sends_tag`.
    pub second: EndpointPlan,
    /// The capacity of each of the two pathways.
    pub capacity: usize,
}

impl LinkPlan {
    /// The dispatch key of the pathway carrying `first.sends_tag`.
    pub open spec fn forward_key(self) -> PathwayKey {
        PathwayKey { link: self.link_id, source: self.first.name, target: self.second.name }
    }

    /// The dispatch key of the pathway carrying `second.sends_tag`.
    pub open spec fn backward_key(self) -> PathwayKey {
        PathwayKey { link: self.link_id, source: self.second.name, target: self.first.name }
    }

    /// The plan names distinct endpoints, identities and tags, so that its
    /// six registrations cannot collide with one another, and asks for a
    /// capacity its pathways can be built with (positive, and within the
    /// limit of the pathways' underlying semaphore).
    pub open spec fn internally_consistent(self) -> bool {
        &&& self.first.name != self.second.name
        &&& self.first.sender_id != self.second.sender_id
        &&& self.first.receiver_id != self.second.receiver_id
        &&& self.first.sends_tag != self.second.sends_tag
        &&& 1 <= self.capacity <= usize::MAX >> 3
    }

    /// Nothing the plan would register is already present in `router`.
    pub open spec fn fresh_in<B>(self, router: Router<B>) -> bool {
        &&& !router.has_sender(self.first.sender_id)
        &&& !router.has_sender(self.second.sender_id)
        &&& !router.has_receiver(self.first.receiver_id)
        &&& !router.has_receiver(self.second.receiver_id)
        &&& !router.has_pathway(self.forward_key())
        &&& !router.has_pathway(self.backward_key())
        &&& !router.link_carries(self.link_id, self.first.sends_tag)
        &&& !router.link_carries(self.link_id, self.second.sends_tag)
    }
}

/// Builds the two pathways of `plan` and performs its six registrations:
/// under the identity scheme a sending and a receiving endpoint per side,
/// and under the link scheme one pathway per direction.
///
/// The first endpoint sends messages tagged `plan.first.sends_tag` towards
/// the second, which receives them under `plan.second.receiver_id`, and the
/// other way round. A message sent on the link selects its direction by its
/// tag. The preconditions rule out exactly the collisions on which a
/// registration would fail, so every registration succeeds.
pub fn setup_link<B>(router: &mut Router<B>, plan: &LinkPlan)
    requires
        old(router).well_formed(),
        plan.internally_consistent(),
        plan.fresh_in(*old(router)),
    ensures
        final(router).well_formed(),
        final(router).has_sender(plan.first.sender_id),
        final(router).sender_tag(plan.first.sender_id) == plan.first.sends_tag,
        final(router).has_sender(plan.second.sender_id),
        final(router).sender_tag(plan.second.sender_id) == plan.second.sends_tag,
        final(router).has_receiver(plan.second.receiver_id),
        final(router).receiver_tag(plan.second.receiver_id) == plan.first.sends_tag,
        final(router).is_unclaimed(plan.second.receiver_id),
        final(router).has_receiver(plan.first.receiver_id),
        final(router).receiver_tag(plan.first.receiver_id) == plan.second.sends_tag,
        final(router).is_unclaimed(plan.first.receiver_id),
        final(router).has_pathway(plan.forward_key()),
        final(router).has_pathway(plan.backward_key()),
        final(router).link_present(plan.link_id),
        final(router).link_carries(plan.link_id, plan.first.sends_tag),
        final(router).route_key(plan.link_id, plan.first.sends_tag) == plan.forward_key(),
        final(router).link_carries(plan.link_id, plan.second.sends_tag),
        final(router).route_key(plan.link_id, plan.second.sends_tag) == plan.backward_key(),
        forall|x: u64|
            x != plan.first.sender_id && x != plan.second.sender_id
                ==> #[trigger] final(router).has_sender(x) == old(router).has_sender(x),
        forall|x: u64|
            x != plan.first.receiver_id && x != plan.second.receiver_id
                ==> #[trigger] final(router).has_receiver(x) == old(router).has_receiver(x),
        forall|k: PathwayKey|
            k != plan.forward_key() && k != plan.backward_key()
                ==> #[trigger] final(router).has_pathway(k) == old(router).has_pathway(k),
{
    let forward: (
        tokio::sync::mpsc::Sender<Envelope<B>>,
        tokio::sync::mpsc::Receiver<Envelope<B>>,
    ) = pathway::new_pathway(plan.capacity);
    let backward: (
        tokio::sync::mpsc::Sender<Envelope<B>>,
        tokio::sync::mpsc::Receiver<Envelope<B>>,
    ) = pathway::new_pathway(plan.capacity);
    let (forward_tx, forward_rx) = forward;
    let (backward_tx, backward_rx) = backward;
    let forward_tx_link = pathway::clone_producer(&forward_tx);
    let backward_tx_link = pathway::clone_producer(&backward_tx);

    // Under the preconditions each registration meets its contract's success
    // case, so the returned results carry no information.
    let _ = router.register_sender(plan.first.sender_id, plan.first.sends_tag, forward_tx);
    let _ = router.register_receiver(plan.first.receiver_id, plan.second.sends_tag, backward_rx);
    proof {
        assert(router.has_sender(plan.first.sender_id) && router.sender_tag(plan.first.sender_id)
            == plan.first.sends_tag);
    }
    let _ = router.register_sender(plan.second.sender_id, plan.second.sends_tag, backward_tx);
    proof {
        assert(router.has_sender(plan.first.sender_id) && router.sender_tag(plan.first.sender_id)
            == plan.first.sends_tag);
        assert(router.has_receiver(plan.first.receiver_id) && router.receiver_tag(
            plan.first.receiver_id,
        ) == plan.second.sends_tag && router.is_unclaimed(plan.first.receiver_id));
    }
    let _ = router.register_receiver(plan.second.receiver_id, plan.first.sends_tag, forward_rx);
    proof {
        assert(router.has_sender(plan.first.sender_id) && router.sender_tag(plan.first.sender_id)
            == plan.first.sends_tag);
        assert(router.has_sender(plan.second.sender_id) && router.sender_tag(
            plan.second.sender_id,
        ) == plan.second.sends_tag);
        assert(router.has_receiver(plan.first.receiver_id) && router.receiver_tag(
            plan.first.receiver_id,
        ) == plan.second.sends_tag && router.is_unclaimed(plan.first.receiver_id));
    }
    let _ = router.register_pathway(
        plan.link_id,
        plan.first.name,
        plan.second.name,
        plan.first.sends_tag,
        forward_tx_link,
    );
    proof {
        assert(router.has_sender(plan.first.sender_id) && router.sender_tag(plan.first.sender_id)
            == plan.first.sends_tag);
        assert(router.has_sender(plan.second.sender_id) && router.sender_tag(
            plan.second.sender_id,
        ) == plan.second.sends_tag);
        assert(router.has_receiver(plan.first.receiver_id) && router.receiver_tag(
            plan.first.receiver_id,
        ) == plan.second.sends_tag && router.is_unclaimed(plan.first.receiver_id));
        assert(router.has_receiver(plan.second.receiver_id) && router.receiver_tag(
            plan.second.receiver_id,
        ) == plan.first.sends_tag && router.is_unclaimed(plan.second.receiver_id));
    }
    let _ = router.register_pathway(
        plan.link_id,
        plan.second.name,
        plan.first.name,
        plan.second.sends_tag,
        backward_tx_link,
    );
}

} // verus!
