//! Typed message routing over bounded in-process pathways.
//!
//! A [`Router`](router::Router) stores type-erased sending endpoints and
//! claimable receiving endpoints, keyed by endpoint identity. Payloads travel
//! inside a tagged [`Envelope`](envelope::Envelope); the router checks at run
//! time that the tag of a message matches the tag its endpoint was registered
//! for, and hands each registered receiver out exactly once.

pub mod envelope;
pub mod error;
pub mod laws;
pub mod link;
pub mod pathway;
pub mod router;

pub use envelope::Envelope;
pub use error::CommsError;
pub use router::Router;
