//! An embeddable append-only ledger: a single-writer chain of
//! cryptographically linked blocks, where each block holds a batch of
//! individually signed user records bound together by a Merkle root and a
//! hash link to the previous block.

use vstd::prelude::*;

pub mod block;
pub mod chain;
pub mod codec;
pub mod crypto;
pub mod data;
pub mod merkle;
pub mod record;
pub mod store;

pub use crypto::AuthKeyPair;
pub use crypto::DigitalSignature;
pub use crypto::KeyPairAlgorithm;
pub use crypto::PublicKey;
pub use crypto::generate_ed25519_key_pair;

verus! {

/// Canonical serialization or deserialization failed.
#[derive(Debug, Clone, Copy, PartialEq, Eq, Structural)]
pub enum CodecError {
    /// The bytes do not form a canonical encoding of any value.
    Malformed,
}

/// The signing step could not produce a signature.
#[derive(Debug, Clone, Copy, PartialEq, Eq, Structural)]
pub enum SigningError {
    /// The canonical serialization of the value failed.
    SerdeError(CodecError),
    /// The private key bytes do not form a usable signing key.
    KeyUnusable,
}

/// A signature did not verify, or the check itself could not run.
#[derive(Debug, Clone, Copy, PartialEq, Eq, Structural)]
pub enum VerificationError {
    /// The canonical serialization of the value failed.
    SerdeError(CodecError),
    /// The signature does not match the message under the given key.
    SignatureMismatch,
}

} // verus!
