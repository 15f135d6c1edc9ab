//! A registry that issues at most one non-transferable "wrap" record per
//! (user, period), gated by a single administrative authority.
//!
//! Authorization for a mint is granted either directly (the host authenticates
//! the caller as the stored admin) or indirectly (the admin pre-signs a
//! canonical payload with an Ed25519 key, and the user submits the detached
//! signature).

mod canonical;
mod errors;
mod records;
mod registry;
mod sig;

pub use canonical::be_bytes;
pub use canonical::canonical_bytes;
pub use canonical::canonical_payload;
pub use canonical::lemma_canonical_injective;
pub use errors::Error;
pub use records::CountEntry;
pub use records::MintAuth;
pub use records::MintEvent;
pub use records::RecordModel;
pub use records::WrapEntry;
pub use records::WrapRecord;
pub use registry::StellarWrapContract;
pub use sig::ed25519_verifies;
