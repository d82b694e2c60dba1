//! Error kinds surfaced by the secure-bootstrap pipeline.

use vstd::prelude::*;

verus! {

/// Every failure of the pipeline, each kind distinct so callers can tell
/// "re-prompt for the passphrase" from "reconfigure the locator".
#[derive(Clone, Copy, Debug, PartialEq, Eq, Structural)]
pub enum LairError {
    /// Protected memory could not be allocated.
    Allocation,
    /// The entropy source failed.
    Randomness,
    /// A hash, KDF, or keypair-derivation step failed
    /// (for example: invalid cost parameters).
    Derivation,
    /// Authenticated encryption of a secret failed.
    Encryption,
    /// Authenticated decryption failed: wrong passphrase or corrupted
    /// record, deliberately not distinguished.
    Decryption,
    /// A fixed-length value was presented with the wrong length.
    SizeMismatch,
    /// The connection locator has no `k` query parameter.
    MissingServerPubKey,
    /// The connection locator has a `k` query parameter, but its value is
    /// not a valid fixed-length key encoding.
    InvalidServerPubKey,
    /// The connection locator cannot be parsed, or does not resolve to a
    /// usable path.
    MalformedLocator,
    /// The configuration document does not parse as the expected format.
    Serialization,
    /// The root storage directory could not be resolved to a canonical
    /// absolute path.
    Filesystem,
}

/// Result type used across the crate.
pub type LairResult<T> = Result<T, LairError>;

} // verus!
