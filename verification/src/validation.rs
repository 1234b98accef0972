//! The rules that a transaction must meet before it may enter a block.
//!
//! Two findings come from outside this crate: whether the ring signature and
//! range proof verify, and whether the ledger has already seen one of the key
//! images. Everything else is decided here, in a fixed order, so that a
//! transaction that breaks several rules is always rejected for the same one.

use vstd::prelude::*;
use crate::error::ValidationFailure;
use crate::tx::{KeyImage, ProofView, Tx, TxOutMembershipElement, TxOutMembershipProof, TxView};
use crate::wire::{array32_eq, views};

verus! {

/// What the signature verifier and the ledger report about one transaction.
#[derive(Clone, Copy, Debug, PartialEq, Eq)]
pub struct ExternalChecks {
    /// The ring signature and the range proof both verify.
    pub signature_valid: bool,
    /// The ledger already holds one of the transaction's key images.
    pub key_image_spent: bool,
}

/// Whether some key image occurs at two positions.
pub open spec fn has_duplicate(images: Seq<KeyImage>) -> bool {
    exists|i: int, j: int| 0 <= i < j < images.len() && images[i] == images[j]
}

/// Whether every proof claims a root, and all claim the same one.
pub open spec fn proofs_agree(proofs: Seq<ProofView>) -> bool {
    forall|i: int|
        0 <= i < proofs.len() ==> (#[trigger] proofs[i]).root().is_some() && proofs[i].root()
            == proofs[0].root()
}

/// The first rule that `tx` breaks when aimed at block `block_index`, or
/// `None` when it breaks none.
pub open spec fn validation_outcome(
    tx: TxView,
    block_index: u64,
    proofs: Seq<ProofView>,
    checks: ExternalChecks,
) -> Option<ValidationFailure> {
    if has_duplicate(tx.key_images) {
        Some(ValidationFailure::DuplicateInput)
    } else if !proofs_agree(proofs) {
        Some(ValidationFailure::ProofMismatch)
    } else if !checks.signature_valid {
        Some(ValidationFailure::BadSignature)
    } else if tx.fee == 0 {
        Some(ValidationFailure::NonPositiveValue)
    } else if checks.key_image_spent {
        Some(ValidationFailure::SpentKeyImage)
    } else if block_index > tx.tombstone_block {
        Some(ValidationFailure::StaleTombstone)
    } else {
        None
    }
}

/// Whether two proof elements are the same.
pub fn same_element(a: &TxOutMembershipElement, b: &TxOutMembershipElement) -> (same: bool)
    ensures
        same == (*a == *b),
{
    a.range_from == b.range_from && a.range_to == b.range_to && array32_eq(&a.hash, &b.hash)
}

/// Whether some key image occurs twice in `images`.
pub fn contains_duplicate(images: &Vec<KeyImage>) -> (found: bool)
    ensures
        found == has_duplicate(images@),
{
    let n = images.len();
    let mut i: usize = 0;
    while i < n
        invariant
            i <= n,
            n == images@.len(),
            forall|a: int, b: int| 0 <= a < b < n && a < i ==> images@[a] != images@[b],
        decreases n - i,
    {
        let mut j: usize = i + 1;
        while j < n
            invariant
                i < j <= n,
                n == images@.len(),
                forall|a: int, b: int| 0 <= a < b < n && a < i ==> images@[a] != images@[b],
                forall|b: int| i < b < j ==> images@[i as int] != images@[b],
            decreases n - j,
        {
            if array32_eq(&images[i].bytes, &images[j].bytes) {
                assert(images@[i as int] == images@[j as int]);
                return true;
            }
            j += 1;
        }
        i += 1;
    }
    false
}

/// Whether every proof has a last element and all last elements are equal.
pub fn roots_agree(proofs: &Vec<TxOutMembershipProof>) -> (agree: bool)
    ensures
        agree == proofs_agree(views(proofs@)),
{
    let ghost all = views(proofs@);
    let n = proofs.len();
    let mut i: usize = 0;
    while i < n
        invariant
            i <= n,
            n == proofs@.len(),
            all == views(proofs@),
            forall|k: int|
                0 <= k < i ==> (#[trigger] all[k]).root().is_some() && all[k].root()
                    == all[0].root(),
        decreases n - i,
    {
        let elements = &proofs[i].elements;
        assert(all[i as int] == proofs@[i as int]@);
        if elements.len() == 0 {
            assert(all[i as int].root().is_none());
            return false;
        }
        let first = &proofs[0].elements;
        assert(all[0] == proofs@[0]@);
        if !same_element(&elements[elements.len() - 1], &first[first.len() - 1]) {
            assert(all[i as int].root() != all[0].root());
            return false;
        }
        i += 1;
    }
    true
}

/// Checks `tx` against every rule, for inclusion in block `block_index`.
///
/// Returns the first broken rule in the order of [`validation_outcome`].
pub fn validate(
    tx: &Tx,
    block_index: u64,
    proofs: &Vec<TxOutMembershipProof>,
    checks: &ExternalChecks,
) -> (r: Result<(), ValidationFailure>)
    ensures
        match r {
            Ok(()) => validation_outcome(tx@, block_index, views(proofs@), *checks).is_none(),
            Err(failure) => validation_outcome(tx@, block_index, views(proofs@), *checks)
                == Some(failure),
        },
{
    if contains_duplicate(&tx.key_images) {
        return Err(ValidationFailure::DuplicateInput);
    }
    if !roots_agree(proofs) {
        return Err(ValidationFailure::ProofMismatch);
    }
    if !checks.signature_valid {
        return Err(ValidationFailure::BadSignature);
    }
    if tx.fee == 0 {
        return Err(ValidationFailure::NonPositiveValue);
    }
    if checks.key_image_spent {
        return Err(ValidationFailure::SpentKeyImage);
    }
    if block_index > tx.tombstone_block {
        return Err(ValidationFailure::StaleTombstone);
    }
    Ok(())
}

} // verus!
