//! The error taxonomy of the registry. Every failure is terminal for the
//! call that produced it: no operation partially commits.

use vstd::prelude::*;

verus! {

/// Why a registry operation was rejected.
#[derive(Clone, Copy, Debug, PartialEq, Eq, Structural)]
pub enum Error {
    /// `initialize` was called on a registry that already has an admin.
    AlreadyInitialized,
    /// The operation needs an admin (or an admin public key) and none is set.
    NotInitialized,
    /// The caller did not demonstrate that it acts as the stored admin.
    Unauthorized,
    /// A wrap record already exists for this (user, period) key.
    WrapAlreadyExists,
    /// The detached signature does not verify against the admin public key.
    InvalidSignature,
    /// Wrap records are soulbound: transfer, approval and burn are rejected.
    TransferNotAllowed,
}

} // verus!
