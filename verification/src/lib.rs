use vstd::prelude::*;

pub mod cli;
pub mod envelope;
pub mod identity_store;
pub mod keys;
pub mod recipients;
pub mod record;
pub mod timefmt;
pub mod vault;

verus! {

/// Error kinds surfaced by the identity store and the vault.
#[derive(Clone, Copy, Debug, PartialEq, Eq, Structural)]
pub enum VaultError {
    /// An identity with the requested name is already registered.
    AlreadyExists,
    /// No identity or secret with the requested name exists.
    NotFound,
    /// The identity may not be deleted while its key is an active recipient.
    InUse,
    /// Key material did not parse as exactly one X25519 private key.
    MalformedKey,
    /// An envelope failed integrity verification on decrypt.
    Corrupted,
    /// The supplied private key is not among the envelope's recipients.
    AccessDenied,
    /// Encrypting against an empty recipient set was refused.
    EmptyRecipientSet,
    /// The backing directories are missing or unwritable.
    StorageUnavailable,
    /// An identity record holds a key of a kind other than a native X25519 key.
    UnsupportedKeyKind,
}

} // verus!
