//! The tagged envelope every message travels in.

use vstd::prelude::*;

verus! {

/// A message together with the runtime identity of its payload type.
///
/// The routing core is generic over the payload `B`; an application encloses
/// all the payload types it exchanges in one such type and assigns each of
/// them a distinct tag. The tag plays the role a reflective type identity
/// would: endpoints are registered for one tag, and dispatch compares the tag
/// carried by the envelope with the tag stored at registration.
pub struct Envelope<B> {
    /// The discriminant of the payload's concrete type.
    pub type_tag: u64,
    /// The payload itself.
    pub body: B,
}

impl<B> Envelope<B> {
    /// Encloses `body` under the type tag `type_tag`.
    pub fn new(type_tag: u64, body: B) -> (r: Envelope<B>)
        ensures
            r.type_tag == type_tag,
            r.body == body,
    {
        Envelope { type_tag, body }
    }
}

} // verus!
