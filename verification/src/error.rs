//! Errors reported by the engine.

use vstd::prelude::*;

verus! {

/// The rule that a transaction broke.
#[derive(Clone, Copy, Debug, PartialEq, Eq, Structural)]
pub enum ValidationFailure {
    /// Two inputs of the transaction carry the same key image.
    DuplicateInput,
    /// A membership proof has no elements, or the proofs do not end in one
    /// common root.
    ProofMismatch,
    /// The ring signature or the range proof does not verify.
    BadSignature,
    /// The value that the transaction leaves as its fee is not positive.
    NonPositiveValue,
    /// A key image of the transaction is already in the ledger.
    SpentKeyImage,
    /// The target block lies beyond the transaction's tombstone block.
    StaleTombstone,
}

/// Every way in which a call into the engine can fail.
#[derive(Clone, Copy, Debug, PartialEq, Eq, Structural)]
pub enum Error {
    /// The peer's public key is not known to this node.
    IdentityUnknown,
    /// A handshake message was malformed, replayed or failed to authenticate.
    HandshakeRejected,
    /// The session was closed, or never existed.
    SessionClosed,
    /// The submitted bytes are not a transaction.
    MalformedTransaction,
    /// The blob does not open to a transaction.
    DecryptionFailed,
    /// The transaction broke the named rule.
    TransactionValidationFailed(ValidationFailure),
    /// The membership proofs of a batch do not agree on exactly one root.
    InconsistentMembershipRoot,
    /// The sealed key material is corrupt.
    SealOperationFailed,
}

} // verus!
