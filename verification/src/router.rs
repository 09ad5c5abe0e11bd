//! The dispatch core: registries of sending and receiving endpoints.

use vstd::prelude::*;

use crate::envelope::Envelope;
use crate::error::CommsError;
use crate::pathway;
use crate::pathway::TryPush;

verus! {

/// The key a pathway stands under in the link-addressed scheme, derived
/// deterministically from the link identity and the two endpoint names.
/// Distinct (link, source, target) triples give distinct keys.
#[derive(Clone, Copy, Debug, PartialEq, Eq, Structural)]
pub struct PathwayKey {
    /// The link identity the pathway belongs to.
    pub link: u64,
    /// The name of the endpoint that produces into the pathway.
    pub source: u64,
    /// The name of the endpoint that consumes from the pathway.
    pub target: u64,
}

/// A sending endpoint stored under an endpoint identity.
#[verifier::reject_recursive_types(B)]
struct SenderEntry<B> {
    id: u64,
    tag: u64,
    tx: tokio::sync::mpsc::Sender<Envelope<B>>,
}

/// A receiving endpoint stored under an endpoint identity, behind a claim
/// slot: `Some` while unclaimed, `None` once taken.
#[verifier::reject_recursive_types(B)]
struct ReceiverEntry<B> {
    id: u64,
    tag: u64,
    slot: Option<tokio::sync::mpsc::Receiver<Envelope<B>>>,
}

/// A sending endpoint stored under a dispatch key in the link-addressed
/// scheme; `tag` is the one message type the pathway carries, and within one
/// link each tag resolves to at most one pathway.
#[verifier::reject_recursive_types(B)]
struct PathwayEntry<B> {
    key: PathwayKey,
    tag: u64,
    tx: tokio::sync::mpsc::Sender<Envelope<B>>,
}

/// The registry mapping endpoint identities, and dispatch keys of the
/// link-addressed scheme, to type-tagged endpoints.
///
/// All registration happens during a single-threaded setup phase; afterwards
/// `send` resolves endpoints read-only and `take_receiver` transfers each
/// registered consumer handle to exactly one claimant (exclusivity comes from
/// the `&mut` receiver it takes).
#[verifier::reject_recursive_types(B)]
pub struct Router<B> {
    senders: Vec<SenderEntry<B>>,
    receivers: Vec<ReceiverEntry<B>>,
    pathways: Vec<PathwayEntry<B>>,
}

impl<B> Router<B> {
    /// No identity is registered twice, no dispatch key is registered twice,
    /// and within one link no message type is mapped twice.
    pub closed spec fn well_formed(self) -> bool {
        &&& forall|i: int, j: int|
            0 <= i < j < self.senders@.len() ==> #[trigger] self.senders@[i].id != #[trigger] self.senders@[j].id
        &&& forall|i: int, j: int|
            0 <= i < j < self.receivers@.len() ==> #[trigger] self.receivers@[i].id
                != #[trigger] self.receivers@[j].id
        &&& forall|i: int, j: int|
            0 <= i < j < self.pathways@.len() ==> #[trigger] self.pathways@[i].key
                != #[trigger] self.pathways@[j].key
        &&& forall|i: int, j: int|
            0 <= i < j < self.pathways@.len() ==> !(#[trigger] self.pathways@[i].key.link
                == #[trigger] self.pathways@[j].key.link && self.pathways@[i].tag
                == self.pathways@[j].tag)
    }

    /// A sending endpoint is registered under identity `id`.
    pub closed spec fn has_sender(self, id: u64) -> bool {
        exists|i: int| 0 <= i < self.senders@.len() && (#[trigger] self.senders@[i]).id == id
    }

    /// The index of the sending endpoint registered under `id`.
    spec fn sender_index(self, id: u64) -> int {
        choose|i: int| 0 <= i < self.senders@.len() && (#[trigger] self.senders@[i]).id == id
    }

    /// The type tag the sending endpoint under `id` was registered for.
    pub closed spec fn sender_tag(self, id: u64) -> u64
        recommends
            self.has_sender(id),
    {
        self.senders@[self.sender_index(id)].tag
    }

    /// The producer handle stored under `id`.
    pub closed spec fn sender_handle(self, id: u64) -> tokio::sync::mpsc::Sender<Envelope<B>>
        recommends
            self.has_sender(id),
    {
        self.senders@[self.sender_index(id)].tx
    }

    /// A receiving endpoint is registered under identity `id`.
    pub closed spec fn has_receiver(self, id: u64) -> bool {
        exists|i: int| 0 <= i < self.receivers@.len() && (#[trigger] self.receivers@[i]).id == id
    }

    /// The index of the receiving endpoint registered under `id`.
    spec fn receiver_index(self, id: u64) -> int {
        choose|i: int| 0 <= i < self.receivers@.len() && (#[trigger] self.receivers@[i]).id == id
    }

    /// The type tag the receiving endpoint under `id` was registered for.
    pub closed spec fn receiver_tag(self, id: u64) -> u64
        recommends
            self.has_receiver(id),
    {
        self.receivers@[self.receiver_index(id)].tag
    }

    /// The receiving endpoint under `id` is still unclaimed.
    pub closed spec fn is_unclaimed(self, id: u64) -> bool
        recommends
            self.has_receiver(id),
    {
        self.receivers@[self.receiver_index(id)].slot is Some
    }

    /// The consumer handle waiting in the claim slot under `id`.
    pub closed spec fn receiver_handle(self, id: u64) -> tokio::sync::mpsc::Receiver<Envelope<B>>
        recommends
            self.has_receiver(id),
            self.is_unclaimed(id),
    {
        self.receivers@[self.receiver_index(id)].slot->0
    }

    /// A pathway is registered under the dispatch key `key`.
    pub closed spec fn has_pathway(self, key: PathwayKey) -> bool {
        exists|i: int| 0 <= i < self.pathways@.len() && (#[trigger] self.pathways@[i]).key == key
    }

    /// Some pathway is registered under the link identity `link`.
    pub closed spec fn link_present(self, link: u64) -> bool {
        exists|i: int|
            0 <= i < self.pathways@.len() && (#[trigger] self.pathways@[i]).key.link == link
    }

    /// Within link `link`, message type `tag` is mapped to a pathway.
    pub closed spec fn link_carries(self, link: u64, tag: u64) -> bool {
        exists|i: int|
            0 <= i < self.pathways@.len() && (#[trigger] self.pathways@[i]).key.link == link
                && self.pathways@[i].tag == tag
    }

    /// The index of the pathway that (link, tag) resolves to.
    spec fn route_index(self, link: u64, tag: u64) -> int {
        choose|i: int|
            0 <= i < self.pathways@.len() && (#[trigger] self.pathways@[i]).key.link == link
                && self.pathways@[i].tag == tag
    }

    /// The dispatch key that (link, tag) resolves to.
    pub closed spec fn route_key(self, link: u64, tag: u64) -> PathwayKey
        recommends
            self.link_carries(link, tag),
    {
        self.pathways@[self.route_index(link, tag)].key
    }

    /// The producer handle that (link, tag) resolves to.
    pub closed spec fn route_handle(self, link: u64, tag: u64) -> tokio::sync::mpsc::Sender<
        Envelope<B>,
    >
        recommends
            self.link_carries(link, tag),
    {
        self.pathways@[self.route_index(link, tag)].tx
    }

    /// The sender registry of `post` agrees with `pre` everywhere but
    /// possibly at `id`.
    pub open spec fn senders_preserved_except(pre: Router<B>, post: Router<B>, id: u64) -> bool {
        forall|x: u64|
            x != id ==> {
                &&& #[trigger] post.has_sender(x) == pre.has_sender(x)
                &&& pre.has_sender(x) ==> post.sender_tag(x) == pre.sender_tag(x)
                    && post.sender_handle(x) == pre.sender_handle(x)
            }
    }

    /// The receiver registry of `post` agrees with `pre` everywhere but
    /// possibly at `id`.
    pub open spec fn receivers_preserved_except(pre: Router<B>, post: Router<B>, id: u64) -> bool {
        forall|x: u64|
            x != id ==> {
                &&& #[trigger] post.has_receiver(x) == pre.has_receiver(x)
                &&& pre.has_receiver(x) ==> {
                    &&& post.receiver_tag(x) == pre.receiver_tag(x)
                    &&& post.is_unclaimed(x) == pre.is_unclaimed(x)
                    &&& pre.is_unclaimed(x) ==> post.receiver_handle(x) == pre.receiver_handle(x)
                }
            }
    }

    /// The sender registry of `post` is that of `pre`.
    pub open spec fn senders_unchanged(pre: Router<B>, post: Router<B>) -> bool {
        forall|x: u64|
            {
                &&& #[trigger] post.has_sender(x) == pre.has_sender(x)
                &&& pre.has_sender(x) ==> post.sender_tag(x) == pre.sender_tag(x)
                    && post.sender_handle(x) == pre.sender_handle(x)
            }
    }

    /// The receiver registry of `post` is that of `pre`.
    pub open spec fn receivers_unchanged(pre: Router<B>, post: Router<B>) -> bool {
        forall|x: u64|
            {
                &&& #[trigger] post.has_receiver(x) == pre.has_receiver(x)
                &&& pre.has_receiver(x) ==> {
                    &&& post.receiver_tag(x) == pre.receiver_tag(x)
                    &&& post.is_unclaimed(x) == pre.is_unclaimed(x)
                    &&& pre.is_unclaimed(x) ==> post.receiver_handle(x) == pre.receiver_handle(x)
                }
            }
    }

    /// The pathway registry of `post` agrees with `pre` on every dispatch key
    /// but possibly `key`, and on every (link, tag) route but possibly
    /// (link, tag).
    pub open spec fn pathways_preserved_except(
        pre: Router<B>,
        post: Router<B>,
        key: PathwayKey,
        link: u64,
        tag: u64,
    ) -> bool {
        &&& forall|k: PathwayKey| k != key ==> #[trigger] post.has_pathway(k) == pre.has_pathway(k)
        &&& forall|l: u64, t: u64|
            !(l == link && t == tag) ==> {
                &&& #[trigger] post.link_carries(l, t) == pre.link_carries(l, t)
                &&& pre.link_carries(l, t) ==> post.route_key(l, t) == pre.route_key(l, t)
                    && post.route_handle(l, t) == pre.route_handle(l, t)
            }
    }

    /// The pathway registry of `post` is that of `pre`.
    pub open spec fn pathways_unchanged(pre: Router<B>, post: Router<B>) -> bool {
        &&& forall|k: PathwayKey| #[trigger] post.has_pathway(k) == pre.has_pathway(k)
        &&& forall|l: u64| #[trigger] post.link_present(l) == pre.link_present(l)
        &&& forall|l: u64, t: u64|
            {
                &&& #[trigger] post.link_carries(l, t) == pre.link_carries(l, t)
                &&& pre.link_carries(l, t) ==> post.route_key(l, t) == pre.route_key(l, t)
                    && post.route_handle(l, t) == pre.route_handle(l, t)
            }
    }

    /// An empty registry: nothing registered under any identity, key or link.
    pub fn new() -> (r: Router<B>)
        ensures
            r.well_formed(),
            forall|x: u64| !(#[trigger] r.has_sender(x)),
            forall|x: u64| !(#[trigger] r.has_receiver(x)),
            forall|k: PathwayKey| !(#[trigger] r.has_pathway(k)),
            forall|l: u64| !(#[trigger] r.link_present(l)),
            forall|l: u64, t: u64| !(#[trigger] r.link_carries(l, t)),
    {
        Router { senders: Vec::new(), receivers: Vec::new(), pathways: Vec::new() }
    }

    /// An entry observed at index `i` determines the lookup: under
    /// well-formedness, `id` is registered and resolves to exactly that index.
    proof fn lemma_sender_at(self, i: int, id: u64)
        requires
            self.well_formed(),
            0 <= i < self.senders@.len(),
            self.senders@[i].id == id,
        ensures
            self.has_sender(id),
            self.sender_index(id) == i,
    {
        assert(self.has_sender(id));
        let j = self.sender_index(id);
        assert(0 <= j < self.senders@.len() && self.senders@[j].id == id);
        if j < i {
            assert(self.senders@[j].id != self.senders@[i].id);
        } else if i < j {
            assert(self.senders@[i].id != self.senders@[j].id);
        }
    }

    /// As `lemma_sender_at`, for the receiver registry.
    proof fn lemma_receiver_at(self, i: int, id: u64)
        requires
            self.well_formed(),
            0 <= i < self.receivers@.len(),
            self.receivers@[i].id == id,
        ensures
            self.has_receiver(id),
            self.receiver_index(id) == i,
    {
        assert(self.has_receiver(id));
        let j = self.receiver_index(id);
        assert(0 <= j < self.receivers@.len() && self.receivers@[j].id == id);
        if j < i {
            assert(self.receivers@[j].id != self.receivers@[i].id);
        } else if i < j {
            assert(self.receivers@[i].id != self.receivers@[j].id);
        }
    }

    /// As `lemma_sender_at`, for the link-addressed registry resolved by
    /// (link, tag).
    proof fn lemma_route_at(self, i: int, link: u64, tag: u64)
        requires
            self.well_formed(),
            0 <= i < self.pathways@.len(),
            self.pathways@[i].key.link == link,
            self.pathways@[i].tag == tag,
        ensures
            self.link_carries(link, tag),
            self.route_index(link, tag) == i,
    {
        assert(self.link_carries(link, tag));
        let j = self.route_index(link, tag);
        assert(0 <= j < self.pathways@.len() && self.pathways@[j].key.link == link
            && self.pathways@[j].tag == tag);
        if j < i {
            assert(!(self.pathways@[j].key.link == self.pathways@[i].key.link
                && self.pathways@[j].tag == self.pathways@[i].tag));
        } else if i < j {
            assert(!(self.pathways@[i].key.link == self.pathways@[j].key.link
                && self.pathways@[i].tag == self.pathways@[j].tag));
        }
    }

    /// The index of the sending endpoint registered under `id`, if any.
    fn find_sender(&self, id: u64) -> (r: Option<usize>)
        ensures
            match r {
                Some(i) => i < self.senders@.len() && self.senders@[i as int].id == id,
                None => !self.has_sender(id),
            },
    {
        let mut i: usize = 0;
        while i < self.senders.len()
            invariant
                i <= self.senders@.len(),
                forall|k: int| 0 <= k < i ==> (#[trigger] self.senders@[k]).id != id,
            decreases self.senders@.len() - i,
        {
            if self.senders[i].id == id {
                return Some(i);
            }
            i = i + 1;
        }
        None
    }

    /// The index of the receiving endpoint registered under `id`, if any.
    fn find_receiver(&self, id: u64) -> (r: Option<usize>)
        ensures
            match r {
                Some(i) => i < self.receivers@.len() && self.receivers@[i as int].id == id,
                None => !self.has_receiver(id),
            },
    {
        let mut i: usize = 0;
        while i < self.receivers.len()
            invariant
                i <= self.receivers@.len(),
                forall|k: int| 0 <= k < i ==> (#[trigger] self.receivers@[k]).id != id,
            decreases self.receivers@.len() - i,
        {
            if self.receivers[i].id == id {
                return Some(i);
            }
            i = i + 1;
        }
        None
    }

    /// Registers a sending endpoint under `id` for messages tagged `tag`.
    ///
    /// Fails with `DuplicateRegistration`, leaving the registry as it was,
    /// exactly when `id` already holds a sending endpoint; otherwise inserts
    /// and has no further effect.
    pub fn register_sender(
        &mut self,
        id: u64,
        tag: u64,
        tx: tokio::sync::mpsc::Sender<Envelope<B>>,
    ) -> (r: Result<(), CommsError>)
        requires
            old(self).well_formed(),
        ensures
            final(self).well_formed(),
            old(self).has_sender(id) ==> r == Err::<(), CommsError>(
                CommsError::DuplicateRegistration,
            ) && *final(self) == *old(self),
            !old(self).has_sender(id) ==> {
                &&& r == Ok::<(), CommsError>(())
                &&& final(self).has_sender(id)
                &&& final(self).sender_tag(id) == tag
                &&& final(self).sender_handle(id) == tx
            },
            Self::senders_preserved_except(*old(self), *final(self), id),
            Self::receivers_unchanged(*old(self), *final(self)),
            Self::pathways_unchanged(*old(self), *final(self)),
    {
        if self.find_sender(id).is_some() {
            return Err(CommsError::DuplicateRegistration);
        }
        let ghost pre = *self;
        self.senders.push(SenderEntry { id, tag, tx });
        proof {
            let n = pre.senders@.len() as int;
            assert(self.senders@ == pre.senders@.push(
                SenderEntry { id, tag, tx },
            ));
            assert forall|k: int| 0 <= k < n implies self.senders@[k] == pre.senders@[k] by {}
            assert(self.well_formed());
            self.lemma_sender_at(n, id);
            assert forall|x: u64| x != id implies #[trigger] self.has_sender(x)
                == pre.has_sender(x) && (pre.has_sender(x) ==> self.sender_tag(x)
                == pre.sender_tag(x) && self.sender_handle(x) == pre.sender_handle(x)) by {
                if pre.has_sender(x) {
                    let i = pre.sender_index(x);
                    assert(0 <= i < n && pre.senders@[i].id == x);
                    pre.lemma_sender_at(i, x);
                    self.lemma_sender_at(i, x);
                }
                if self.has_sender(x) {
                    let w = self.sender_index(x);
                    assert(0 <= w < n + 1 && self.senders@[w].id == x);
                    assert(w < n);
                    assert(pre.senders@[w].id == x);
                    assert(pre.has_sender(x));
                }
            }
            lemma_same_receivers(pre, *self);
            lemma_same_pathways(pre, *self);
        }
        Ok(())
    }

    /// Registers a receiving endpoint under `id` for messages tagged `tag`,
    /// with its claim slot unclaimed.
    ///
    /// Fails with `DuplicateRegistration`, leaving the registry as it was,
    /// exactly when `id` already holds a receiving endpoint; otherwise
    /// inserts and has no further effect.
    pub fn register_receiver(
        &mut self,
        id: u64,
        tag: u64,
        rx: tokio::sync::mpsc::Receiver<Envelope<B>>,
    ) -> (r: Result<(), CommsError>)
        requires
            old(self).well_formed(),
        ensures
            final(self).well_formed(),
            old(self).has_receiver(id) ==> r == Err::<(), CommsError>(
                CommsError::DuplicateRegistration,
            ) && *final(self) == *old(self),
            !old(self).has_receiver(id) ==> {
                &&& r == Ok::<(), CommsError>(())
                &&& final(self).has_receiver(id)
                &&& final(self).receiver_tag(id) == tag
                &&& final(self).is_unclaimed(id)
                &&& final(self).receiver_handle(id) == rx
            },
            Self::receivers_preserved_except(*old(self), *final(self), id),
            Self::senders_unchanged(*old(self), *final(self)),
            Self::pathways_unchanged(*old(self), *final(self)),
    {
        if self.find_receiver(id).is_some() {
            return Err(CommsError::DuplicateRegistration);
        }
        let ghost pre = *self;
        self.receivers.push(ReceiverEntry { id, tag, slot: Some(rx) });
        proof {
            let n = pre.receivers@.len() as int;
            assert forall|k: int| 0 <= k < n implies self.receivers@[k] == pre.receivers@[k] by {}
            assert(self.well_formed());
            self.lemma_receiver_at(n, id);
            assert forall|x: u64| x != id implies #[trigger] self.has_receiver(x)
                == pre.has_receiver(x) && (pre.has_receiver(x) ==> self.receiver_tag(x)
                == pre.receiver_tag(x) && self.is_unclaimed(x) == pre.is_unclaimed(x) && (
            pre.is_unclaimed(x) ==> self.receiver_handle(x) == pre.receiver_handle(x))) by {
                if pre.has_receiver(x) {
                    let i = pre.receiver_index(x);
                    assert(0 <= i < n && pre.receivers@[i].id == x);
                    pre.lemma_receiver_at(i, x);
                    self.lemma_receiver_at(i, x);
                }
                if self.has_receiver(x) {
                    let w = self.receiver_index(x);
                    assert(0 <= w < n + 1 && self.receivers@[w].id == x);
                    assert(w < n);
                    assert(pre.receivers@[w].id == x);
                    assert(pre.has_receiver(x));
                }
            }
            lemma_same_senders(pre, *self);
            lemma_same_pathways(pre, *self);
        }
        Ok(())
    }

    /// The index of the pathway registered under dispatch key `key`, if any.
    fn find_pathway(&self, key: PathwayKey) -> (r: Option<usize>)
        ensures
            match r {
                Some(i) => i < self.pathways@.len() && self.pathways@[i as int].key == key,
                None => !self.has_pathway(key),
            },
    {
        let mut i: usize = 0;
        while i < self.pathways.len()
            invariant
                i <= self.pathways@.len(),
                forall|k: int| 0 <= k < i ==> (#[trigger] self.pathways@[k]).key != key,
            decreases self.pathways@.len() - i,
        {
            if self.pathways[i].key == key {
                return Some(i);
            }
            i = i + 1;
        }
        None
    }

    /// The index of the pathway that (link, tag) resolves to, if any, and
    /// whether some pathway carries the link at all.
    fn find_route(&self, link: u64, tag: u64) -> (r: (Option<usize>, bool))
        ensures
            match r.0 {
                Some(i) => i < self.pathways@.len() && self.pathways@[i as int].key.link == link
                    && self.pathways@[i as int].tag == tag,
                None => !self.link_carries(link, tag),
            },
            r.1 == self.link_present(link),
    {
        let mut i: usize = 0;
        let mut seen_link = false;
        while i < self.pathways.len()
            invariant
                i <= self.pathways@.len(),
                forall|k: int|
                    0 <= k < i ==> !((#[trigger] self.pathways@[k]).key.link == link
                        && self.pathways@[k].tag == tag),
                seen_link == exists|k: int|
                    0 <= k < i && (#[trigger] self.pathways@[k]).key.link == link,
            decreases self.pathways@.len() - i,
        {
            if self.pathways[i].key.link == link {
                if self.pathways[i].tag == tag {
                    proof {
                        if !seen_link {
                            assert(self.pathways@[i as int].key.link == link);
                        }
                    }
                    return (Some(i), true);
                }
                seen_link = true;
            }
            i = i + 1;
        }
        (None, seen_link)
    }

    /// Registers, under the link-addressed scheme, a sending endpoint for
    /// messages tagged `tag` travelling from `source` to `target` within the
    /// link `link`. The dispatch key is derived from the triple.
    ///
    /// Fails with `DuplicateRegistration` when that key is already taken, and
    /// with `AmbiguousDispatch` when `tag` is already mapped anywhere within
    /// `link` — each (link, type) pair must resolve unambiguously. Either
    /// failure leaves the registry as it was.
    pub fn register_pathway(
        &mut self,
        link: u64,
        source: u64,
        target: u64,
        tag: u64,
        tx: tokio::sync::mpsc::Sender<Envelope<B>>,
    ) -> (r: Result<(), CommsError>)
        requires
            old(self).well_formed(),
        ensures
            final(self).well_formed(),
            old(self).has_pathway(PathwayKey { link, source, target }) ==> r == Err::<
                (),
                CommsError,
            >(CommsError::DuplicateRegistration) && *final(self) == *old(self),
            !old(self).has_pathway(PathwayKey { link, source, target }) && old(self).link_carries(
                link,
                tag,
            ) ==> r == Err::<(), CommsError>(CommsError::AmbiguousDispatch) && *final(self)
                == *old(self),
            !old(self).has_pathway(PathwayKey { link, source, target }) && !old(
                self,
            ).link_carries(link, tag) ==> {
                &&& r == Ok::<(), CommsError>(())
                &&& final(self).has_pathway(PathwayKey { link, source, target })
                &&& final(self).link_present(link)
                &&& final(self).link_carries(link, tag)
                &&& final(self).route_key(link, tag) == PathwayKey { link, source, target }
                &&& final(self).route_handle(link, tag) == tx
            },
            Self::pathways_preserved_except(
                *old(self),
                *final(self),
                PathwayKey { link, source, target },
                link,
                tag,
            ),
            Self::senders_unchanged(*old(self), *final(self)),
            Self::receivers_unchanged(*old(self), *final(self)),
    {
        let key = PathwayKey { link, source, target };
        if self.find_pathway(key).is_some() {
            return Err(CommsError::DuplicateRegistration);
        }
        if self.find_route(link, tag).0.is_some() {
            return Err(CommsError::AmbiguousDispatch);
        }
        let ghost pre = *self;
        self.pathways.push(PathwayEntry { key, tag, tx });
        proof {
            let n = pre.pathways@.len() as int;
            assert forall|k: int| 0 <= k < n implies self.pathways@[k] == pre.pathways@[k] by {}
            assert(self.well_formed());
            assert(self.pathways@[n].key == key);
            self.lemma_route_at(n, link, tag);
            assert forall|k: PathwayKey| k != key implies #[trigger] self.has_pathway(k)
                == pre.has_pathway(k) by {
                if pre.has_pathway(k) {
                    let i = choose|i: int|
                        0 <= i < pre.pathways@.len() && (#[trigger] pre.pathways@[i]).key == k;
                    assert(self.pathways@[i].key == k);
                }
                if self.has_pathway(k) {
                    let w = choose|i: int|
                        0 <= i < self.pathways@.len() && (#[trigger] self.pathways@[i]).key == k;
                    assert(w < n);
                    assert(pre.pathways@[w].key == k);
                }
            }
            assert forall|l: u64, t: u64| !(l == link && t == tag) implies {
                &&& #[trigger] self.link_carries(l, t) == pre.link_carries(l, t)
                &&& pre.link_carries(l, t) ==> self.route_key(l, t) == pre.route_key(l, t)
                    && self.route_handle(l, t) == pre.route_handle(l, t)
            } by {
                if pre.link_carries(l, t) {
                    let i = pre.route_index(l, t);
                    assert(0 <= i < n && pre.pathways@[i].key.link == l && pre.pathways@[i].tag
                        == t);
                    pre.lemma_route_at(i, l, t);
                    self.lemma_route_at(i, l, t);
                }
                if self.link_carries(l, t) {
                    let w = self.route_index(l, t);
                    assert(0 <= w < n + 1 && self.pathways@[w].key.link == l
                        && self.pathways@[w].tag == t);
                    assert(w < n);
                    assert(pre.pathways@[w].key.link == l && pre.pathways@[w].tag == t);
                    assert(pre.link_carries(l, t));
                }
            }
            lemma_same_senders(pre, *self);
            lemma_same_receivers(pre, *self);
        }
        Ok(())
    }

    /// What a suspending send returns for each outcome of its pathway push:
    /// a value accepted into the pathway is success, and one handed back by
    /// a closed pathway is `SendFailed`.
    pub fn classify_delivery(outcome: Result<(), Envelope<B>>) -> (r: Result<(), CommsError>)
        ensures
            outcome is Ok ==> r == Ok::<(), CommsError>(()),
            outcome is Err ==> r == Err::<(), CommsError>(CommsError::SendFailed),
    {
        match outcome {
            Ok(()) => Ok(()),
            Err(_) => Err(CommsError::SendFailed),
        }
    }

    /// What a non-suspending send returns for each outcome of its pathway
    /// push: delivery is success, a pathway at capacity is `PathwayFull`,
    /// and a closed pathway is `SendFailed`.
    pub fn classify_try_delivery(outcome: TryPush<Envelope<B>>) -> (r: Result<(), CommsError>)
        ensures
            outcome is Delivered ==> r == Ok::<(), CommsError>(()),
            outcome is Full ==> r == Err::<(), CommsError>(CommsError::PathwayFull),
            outcome is Closed ==> r == Err::<(), CommsError>(CommsError::SendFailed),
    {
        match outcome {
            TryPush::Delivered => Ok(()),
            TryPush::Full(_) => Err(CommsError::PathwayFull),
            TryPush::Closed(_) => Err(CommsError::SendFailed),
        }
    }

    /// Sends `msg` through the sending endpoint registered under `id`,
    /// suspending the calling task while the pathway is at capacity.
    ///
    /// Must be called from synchronous code: it waits by blocking the
    /// calling thread, and tokio panics when such a wait is entered within
    /// an asynchronous execution context. From such a context, run it on a
    /// blocking-capable thread, or use `try_send`, which never waits.
    ///
    /// Fails with `PathwayNotFound` exactly when no sending endpoint holds
    /// `id`, and with `InternalInconsistency` exactly when the endpoint's
    /// registered tag differs from the message's — the erasure check that a
    /// correct setup makes unreachable. A correctly addressed message is
    /// accepted into the pathway, or rejected with `SendFailed` once the
    /// pathway's consumer side is gone; nothing is enqueued on any failure.
    pub fn send(&self, id: u64, msg: Envelope<B>) -> (r: Result<(), CommsError>)
        requires
            self.well_formed(),
        ensures
            !self.has_sender(id) ==> r == Err::<(), CommsError>(CommsError::PathwayNotFound),
            self.has_sender(id) && self.sender_tag(id) != msg.type_tag ==> r == Err::<
                (),
                CommsError,
            >(CommsError::InternalInconsistency),
            self.has_sender(id) && self.sender_tag(id) == msg.type_tag ==> r == Ok::<
                (),
                CommsError,
            >(()) || r == Err::<(), CommsError>(CommsError::SendFailed),
    {
        match self.find_sender(id) {
            None => Err(CommsError::PathwayNotFound),
            Some(i) => {
                proof {
                    self.lemma_sender_at(i as int, id);
                }
                if self.senders[i].tag != msg.type_tag {
                    return Err(CommsError::InternalInconsistency);
                }
                Self::classify_delivery(pathway::push_blocking(&self.senders[i].tx, msg))
            },
        }
    }

    /// As `send`, but never suspends: a pathway at capacity is reported as
    /// `PathwayFull`, with the message not enqueued, instead of being waited
    /// on.
    pub fn try_send(&self, id: u64, msg: Envelope<B>) -> (r: Result<(), CommsError>)
        requires
            self.well_formed(),
        ensures
            !self.has_sender(id) ==> r == Err::<(), CommsError>(CommsError::PathwayNotFound),
            self.has_sender(id) && self.sender_tag(id) != msg.type_tag ==> r == Err::<
                (),
                CommsError,
            >(CommsError::InternalInconsistency),
            self.has_sender(id) && self.sender_tag(id) == msg.type_tag ==> r == Ok::<
                (),
                CommsError,
            >(()) || r == Err::<(), CommsError>(CommsError::SendFailed) || r == Err::<
                (),
                CommsError,
            >(CommsError::PathwayFull),
    {
        match self.find_sender(id) {
            None => Err(CommsError::PathwayNotFound),
            Some(i) => {
                proof {
                    self.lemma_sender_at(i as int, id);
                }
                if self.senders[i].tag != msg.type_tag {
                    return Err(CommsError::InternalInconsistency);
                }
                Self::classify_try_delivery(pathway::push_now(&self.senders[i].tx, msg))
            },
        }
    }

    /// Sends `msg` under the link-addressed scheme: within link `link`, the
    /// message's type tag selects the pathway, and with it the direction.
    /// Suspends while that pathway is at capacity.
    ///
    /// As `send`, it must be called from synchronous code: it waits by
    /// blocking the calling thread, which tokio refuses, by panicking,
    /// within an asynchronous execution context.
    ///
    /// Fails with `LinkNotFound` exactly when no pathway at all is registered
    /// under `link`, and with `PathwayNotFound` exactly when the link exists
    /// but carries no pathway for the message's tag. The resolved endpoint's
    /// tag equals the message's by the registry's well-formedness, so the
    /// erasure check cannot fail here.
    pub fn send_on_link(&self, link: u64, msg: Envelope<B>) -> (r: Result<(), CommsError>)
        requires
            self.well_formed(),
        ensures
            !self.link_present(link) ==> r == Err::<(), CommsError>(CommsError::LinkNotFound),
            self.link_present(link) && !self.link_carries(link, msg.type_tag) ==> r == Err::<
                (),
                CommsError,
            >(CommsError::PathwayNotFound),
            self.link_carries(link, msg.type_tag) ==> r == Ok::<(), CommsError>(()) || r == Err::<
                (),
                CommsError,
            >(CommsError::SendFailed),
    {
        let (found, link_seen) = self.find_route(link, msg.type_tag);
        match found {
            None => {
                if link_seen {
                    Err(CommsError::PathwayNotFound)
                } else {
                    Err(CommsError::LinkNotFound)
                }
            },
            Some(i) => {
                proof {
                    self.lemma_route_at(i as int, link, msg.type_tag);
                }
                Self::classify_delivery(pathway::push_blocking(&self.pathways[i].tx, msg))
            },
        }
    }

    /// Claims the receiving endpoint registered under `id`, moving its
    /// consumer handle out of the registry.
    ///
    /// Fails with `PathwayNotFound` exactly when no receiving endpoint holds
    /// `id`, with `TypeMismatch` exactly when the stored tag differs from
    /// `expected_tag`, and with `AlreadyClaimed` exactly when the slot was
    /// cleared by an earlier claim; each failure leaves the registry as it
    /// was. On success the very handle registered under `id` is returned and
    /// the slot reads claimed from then on, so a claim succeeds at most once
    /// per identity.
    pub fn take_receiver(&mut self, id: u64, expected_tag: u64) -> (r: Result<
        tokio::sync::mpsc::Receiver<Envelope<B>>,
        CommsError,
    >)
        requires
            old(self).well_formed(),
        ensures
            final(self).well_formed(),
            !old(self).has_receiver(id) ==> r == Err::<
                tokio::sync::mpsc::Receiver<Envelope<B>>,
                CommsError,
            >(CommsError::PathwayNotFound) && *final(self) == *old(self),
            old(self).has_receiver(id) && old(self).receiver_tag(id) != expected_tag ==> r
                == Err::<tokio::sync::mpsc::Receiver<Envelope<B>>, CommsError>(
                CommsError::TypeMismatch,
            ) && *final(self) == *old(self),
            old(self).has_receiver(id) && old(self).receiver_tag(id) == expected_tag && !old(
                self,
            ).is_unclaimed(id) ==> r == Err::<
                tokio::sync::mpsc::Receiver<Envelope<B>>,
                CommsError,
            >(CommsError::AlreadyClaimed) && *final(self) == *old(self),
            old(self).has_receiver(id) && old(self).receiver_tag(id) == expected_tag && old(
                self,
            ).is_unclaimed(id) ==> {
                &&& r == Ok::<tokio::sync::mpsc::Receiver<Envelope<B>>, CommsError>(
                    old(self).receiver_handle(id),
                )
                &&& final(self).has_receiver(id)
                &&& final(self).receiver_tag(id) == expected_tag
                &&& !final(self).is_unclaimed(id)
            },
            Self::receivers_preserved_except(*old(self), *final(self), id),
            Self::senders_unchanged(*old(self), *final(self)),
            Self::pathways_unchanged(*old(self), *final(self)),
    {
        match self.find_receiver(id) {
            None => Err(CommsError::PathwayNotFound),
            Some(i) => {
                proof {
                    old(self).lemma_receiver_at(i as int, id);
                }
                if self.receivers[i].tag != expected_tag {
                    return Err(CommsError::TypeMismatch);
                }
                if self.receivers[i].slot.is_none() {
                    return Err(CommsError::AlreadyClaimed);
                }
                let ghost pre = *self;
                let entry = &mut self.receivers[i];
                let taken = entry.slot.take();
                proof {
                    let n = pre.receivers@.len() as int;
                    assert(self.receivers@ == pre.receivers@.update(
                        i as int,
                        ReceiverEntry { id, tag: expected_tag, slot: None },
                    ));
                    assert forall|k: int| 0 <= k < n && k != i implies self.receivers@[k]
                        == pre.receivers@[k] by {}
                    assert(self.well_formed());
                    self.lemma_receiver_at(i as int, id);
                    assert forall|x: u64| x != id implies #[trigger] self.has_receiver(x)
                        == pre.has_receiver(x) && (pre.has_receiver(x) ==> self.receiver_tag(x)
                        == pre.receiver_tag(x) && self.is_unclaimed(x) == pre.is_unclaimed(x) && (
                    pre.is_unclaimed(x) ==> self.receiver_handle(x) == pre.receiver_handle(
                        x,
                    ))) by {
                        if pre.has_receiver(x) {
                            let k = pre.receiver_index(x);
                            assert(0 <= k < n && pre.receivers@[k].id == x);
                            pre.lemma_receiver_at(k, x);
                            assert(k != i);
                            self.lemma_receiver_at(k, x);
                        }
                        if self.has_receiver(x) {
                            let w = self.receiver_index(x);
                            assert(0 <= w < n && self.receivers@[w].id == x);
                            assert(w != i);
                            assert(pre.receivers@[w].id == x);
                            assert(pre.has_receiver(x));
                        }
                    }
                    lemma_same_senders(pre, *self);
                    lemma_same_pathways(pre, *self);
                }
                Ok(taken.unwrap())
            },
        }
    }

    /// Whether a sending endpoint is registered under `id`.
    pub fn sender_registered(&self, id: u64) -> (r: bool)
        ensures
            r == self.has_sender(id),
    {
        self.find_sender(id).is_some()
    }

    /// Whether a receiving endpoint is registered under `id`.
    pub fn receiver_registered(&self, id: u64) -> (r: bool)
        ensures
            r == self.has_receiver(id),
    {
        self.find_receiver(id).is_some()
    }

    /// Whether a receiving endpoint is registered under `id` and still
    /// unclaimed.
    pub fn receiver_claimable(&self, id: u64) -> (r: bool)
        requires
            self.well_formed(),
        ensures
            r == (self.has_receiver(id) && self.is_unclaimed(id)),
    {
        match self.find_receiver(id) {
            None => false,
            Some(i) => {
                proof {
                    self.lemma_receiver_at(i as int, id);
                }
                self.receivers[i].slot.is_some()
            },
        }
    }

    /// Whether a pathway is registered under the dispatch key `key`.
    pub fn pathway_registered(&self, key: PathwayKey) -> (r: bool)
        ensures
            r == self.has_pathway(key),
    {
        self.find_pathway(key).is_some()
    }

    /// Whether some pathway is registered under the link identity `link`.
    pub fn link_registered(&self, link: u64) -> (r: bool)
        ensures
            r == self.link_present(link),
    {
        let mut i: usize = 0;
        while i < self.pathways.len()
            invariant
                i <= self.pathways@.len(),
                forall|k: int| 0 <= k < i ==> (#[trigger] self.pathways@[k]).key.link != link,
            decreases self.pathways@.len() - i,
        {
            if self.pathways[i].key.link == link {
                return true;
            }
            i = i + 1;
        }
        false
    }

    /// Whether, within link `link`, the message type `tag` is mapped to a
    /// pathway.
    pub fn link_tag_mapped(&self, link: u64, tag: u64) -> (r: bool)
        ensures
            r == self.link_carries(link, tag),
    {
        self.find_route(link, tag).0.is_some()
    }
}

impl<B> Default for Router<B> {
    /// An empty registry, as `new` builds it.
    fn default() -> (r: Router<B>)
        ensures
            r.well_formed(),
            forall|x: u64| !(#[trigger] r.has_sender(x)),
            forall|x: u64| !(#[trigger] r.has_receiver(x)),
            forall|k: PathwayKey| !(#[trigger] r.has_pathway(k)),
            forall|l: u64| !(#[trigger] r.link_present(l)),
            forall|l: u64, t: u64| !(#[trigger] r.link_carries(l, t)),
    {
        Router::new()
    }
}

/// Two routers with the same receiver registry agree on every receiver
/// observation.
proof fn lemma_same_receivers<B>(pre: Router<B>, post: Router<B>)
    requires
        pre.well_formed(),
        post.well_formed(),
        post.receivers@ == pre.receivers@,
    ensures
        Router::receivers_unchanged(pre, post),
{
    assert forall|x: u64| #[trigger] post.has_receiver(x) == pre.has_receiver(x) && (
    pre.has_receiver(x) ==> post.receiver_tag(x) == pre.receiver_tag(x) && post.is_unclaimed(x)
        == pre.is_unclaimed(x) && (pre.is_unclaimed(x) ==> post.receiver_handle(x)
        == pre.receiver_handle(x))) by {
        if pre.has_receiver(x) {
            let i = pre.receiver_index(x);
            assert(0 <= i < pre.receivers@.len() && pre.receivers@[i].id == x);
            post.lemma_receiver_at(i, x);
        }
        if post.has_receiver(x) {
            let w = post.receiver_index(x);
            assert(0 <= w < post.receivers@.len() && post.receivers@[w].id == x);
            assert(pre.receivers@[w].id == x);
            assert(pre.has_receiver(x));
        }
    }
}

/// Two routers with the same link-addressed registry agree on every pathway
/// observation.
proof fn lemma_same_pathways<B>(pre: Router<B>, post: Router<B>)
    requires
        pre.well_formed(),
        post.well_formed(),
        post.pathways@ == pre.pathways@,
    ensures
        Router::pathways_unchanged(pre, post),
{
    assert forall|k: PathwayKey| #[trigger] post.has_pathway(k) == pre.has_pathway(k) by {
        if pre.has_pathway(k) {
            let i = choose|i: int|
                0 <= i < pre.pathways@.len() && (#[trigger] pre.pathways@[i]).key == k;
            assert(post.pathways@[i].key == k);
        }
        if post.has_pathway(k) {
            let i = choose|i: int|
                0 <= i < post.pathways@.len() && (#[trigger] post.pathways@[i]).key == k;
            assert(pre.pathways@[i].key == k);
        }
    }
    assert forall|l: u64| #[trigger] post.link_present(l) == pre.link_present(l) by {
        if pre.link_present(l) {
            let i = choose|i: int|
                0 <= i < pre.pathways@.len() && (#[trigger] pre.pathways@[i]).key.link == l;
            assert(post.pathways@[i].key.link == l);
        }
        if post.link_present(l) {
            let i = choose|i: int|
                0 <= i < post.pathways@.len() && (#[trigger] post.pathways@[i]).key.link == l;
            assert(pre.pathways@[i].key.link == l);
        }
    }
    assert forall|l: u64, t: u64| #[trigger] post.link_carries(l, t) == pre.link_carries(l, t) && (
    pre.link_carries(l, t) ==> post.route_key(l, t) == pre.route_key(l, t) && post.route_handle(
        l,
        t,
    ) == pre.route_handle(l, t)) by {
        if pre.link_carries(l, t) {
            let i = pre.route_index(l, t);
            assert(0 <= i < pre.pathways@.len() && pre.pathways@[i].key.link == l
                && pre.pathways@[i].tag == t);
            post.lemma_route_at(i, l, t);
        }
        if post.link_carries(l, t) {
            let w = post.route_index(l, t);
            assert(0 <= w < post.pathways@.len() && post.pathways@[w].key.link == l
                && post.pathways@[w].tag == t);
            assert(pre.pathways@[w].key.link == l && pre.pathways@[w].tag == t);
            assert(pre.link_carries(l, t));
        }
    }
}

/// Two routers with the same sender registry agree on every sender
/// observation.
proof fn lemma_same_senders<B>(pre: Router<B>, post: Router<B>)
    requires
        pre.well_formed(),
        post.well_formed(),
        post.senders@ == pre.senders@,
    ensures
        Router::senders_unchanged(pre, post),
{
    assert forall|x: u64| #[trigger] post.has_sender(x) == pre.has_sender(x) && (pre.has_sender(x)
        ==> post.sender_tag(x) == pre.sender_tag(x) && post.sender_handle(x)
        == pre.sender_handle(x)) by {
        if pre.has_sender(x) {
            let i = pre.sender_index(x);
            assert(0 <= i < pre.senders@.len() && pre.senders@[i].id == x);
            post.lemma_sender_at(i, x);
        }
        if post.has_sender(x) {
            let w = post.sender_index(x);
            assert(0 <= w < post.senders@.len() && post.senders@[w].id == x);
            assert(pre.senders@[w].id == x);
            assert(pre.has_sender(x));
        }
    }
}

} // verus!
