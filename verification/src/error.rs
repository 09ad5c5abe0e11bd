//! The error taxonomy of the routing core.

use vstd::prelude::*;

verus! {

/// Every failure a routing operation can report.
///
/// Registration failures (`DuplicateRegistration`, `AmbiguousDispatch`) arise
/// only during the single-threaded setup phase and indicate a structural
/// misconfiguration. The remaining variants are runtime outcomes returned to
/// the caller; the core itself never panics.
#[derive(Clone, Copy, Debug, PartialEq, Eq, Structural)]
pub enum CommsError {
    /// A pathway could not accept the message: its consumer side is gone.
    SendFailed,
    /// A non-suspending send found the pathway at capacity.
    PathwayFull,
    /// An identity or dispatch key was registered twice.
    DuplicateRegistration,
    /// A message type was mapped twice under one link identity.
    AmbiguousDispatch,
    /// No registration exists for the identity or (link, type) pair used.
    PathwayNotFound,
    /// No pathway at all is registered under the link identity used.
    LinkNotFound,
    /// The stored type tag differs from the expected one.
    TypeMismatch,
    /// The receiver for this identity was already claimed.
    AlreadyClaimed,
    /// An erasure invariant was violated after registration-time checks:
    /// a resolved sending endpoint carries a tag other than the message's.
    InternalInconsistency,
}

impl CommsError {
    /// A short human-readable account of the error, for diagnostics.
    pub fn describe(&self) -> &'static str {
        match self {
            CommsError::SendFailed => "send failed: consumer side dropped",
            CommsError::PathwayFull => "pathway at capacity",
            CommsError::DuplicateRegistration => "identity or key registered twice",
            CommsError::AmbiguousDispatch => "message type mapped twice for one link",
            CommsError::PathwayNotFound => "no registration under this identity",
            CommsError::LinkNotFound => "no pathway under this link identity",
            CommsError::TypeMismatch => "stored type tag differs from expected",
            CommsError::AlreadyClaimed => "receiver already claimed",
            CommsError::InternalInconsistency => "endpoint tag differs from message tag",
        }
    }
}

} // verus!
