use consensus_enclave::error::ValidationFailure;
use consensus_enclave::tx::{
    KeyImage, Tx, TxIn, TxOut, TxOutMembershipElement, TxOutMembershipProof,
};
use consensus_enclave::validation::{
    contains_duplicate, roots_agree, same_element, validate, ExternalChecks,
};

fn element(tag: u8) -> TxOutMembershipElement {
    TxOutMembershipElement { range_from: 0, range_to: 15, hash: [tag; 32] }
}

fn proof_of(elements: Vec<TxOutMembershipElement>) -> TxOutMembershipProof {
    TxOutMembershipProof { index: 1, highest_index: 15, elements }
}

fn good_tx() -> Tx {
    Tx {
        inputs: vec![TxIn { ring: vec![], proofs: vec![] }],
        outputs: vec![TxOut {
            commitment: [1; 32],
            masked_value: 5,
            target_key: [2; 32],
            public_key: [3; 32],
        }],
        fee: 1,
        tombstone_block: 20,
        key_images: vec![KeyImage { bytes: [1; 32] }, KeyImage { bytes: [2; 32] }],
        signature: vec![],
    }
}

fn good_proofs() -> Vec<TxOutMembershipProof> {
    vec![proof_of(vec![element(1), element(9)]), proof_of(vec![element(9)])]
}

fn good_checks() -> ExternalChecks {
    ExternalChecks { signature_valid: true, key_image_spent: false }
}

#[test]
fn sound_transaction_passes() {
    assert_eq!(validate(&good_tx(), 20, &good_proofs(), &good_checks()), Ok(()));
    assert_eq!(validate(&good_tx(), 0, &vec![], &good_checks()), Ok(()));
}

#[test]
fn duplicate_key_image_is_rejected() {
    let mut tx = good_tx();
    tx.key_images.push(KeyImage { bytes: [1; 32] });
    assert_eq!(
        validate(&tx, 20, &good_proofs(), &good_checks()),
        Err(ValidationFailure::DuplicateInput)
    );
}

#[test]
fn proofs_with_different_roots_are_rejected() {
    let proofs = vec![proof_of(vec![element(9)]), proof_of(vec![element(9), element(8)])];
    assert_eq!(
        validate(&good_tx(), 20, &proofs, &good_checks()),
        Err(ValidationFailure::ProofMismatch)
    );
}

#[test]
fn proof_without_elements_is_rejected() {
    let proofs = vec![proof_of(vec![element(9)]), proof_of(vec![])];
    assert_eq!(
        validate(&good_tx(), 20, &proofs, &good_checks()),
        Err(ValidationFailure::ProofMismatch)
    );
}

#[test]
fn bad_signature_is_rejected() {
    let checks = ExternalChecks { signature_valid: false, key_image_spent: false };
    assert_eq!(
        validate(&good_tx(), 20, &good_proofs(), &checks),
        Err(ValidationFailure::BadSignature)
    );
}

#[test]
fn zero_fee_is_rejected() {
    let mut tx = good_tx();
    tx.fee = 0;
    assert_eq!(
        validate(&tx, 20, &good_proofs(), &good_checks()),
        Err(ValidationFailure::NonPositiveValue)
    );
}

#[test]
fn spent_key_image_is_rejected() {
    let checks = ExternalChecks { signature_valid: true, key_image_spent: true };
    assert_eq!(
        validate(&good_tx(), 20, &good_proofs(), &checks),
        Err(ValidationFailure::SpentKeyImage)
    );
}

#[test]
fn block_beyond_tombstone_is_rejected() {
    assert_eq!(
        validate(&good_tx(), 21, &good_proofs(), &good_checks()),
        Err(ValidationFailure::StaleTombstone)
    );
    assert_eq!(
        validate(&good_tx(), u64::MAX, &good_proofs(), &good_checks()),
        Err(ValidationFailure::StaleTombstone)
    );
}

#[test]
fn rules_are_tried_in_a_fixed_order() {
    let mut tx = good_tx();
    tx.fee = 0;
    tx.tombstone_block = 0;
    let bad = ExternalChecks { signature_valid: false, key_image_spent: true };
    let split = vec![proof_of(vec![element(1)]), proof_of(vec![element(2)])];
    let mut doubled = tx.clone();
    doubled.key_images = vec![KeyImage { bytes: [7; 32] }, KeyImage { bytes: [7; 32] }];
    assert_eq!(validate(&doubled, 9, &split, &bad), Err(ValidationFailure::DuplicateInput));
    assert_eq!(validate(&tx, 9, &split, &bad), Err(ValidationFailure::ProofMismatch));
    assert_eq!(validate(&tx, 9, &good_proofs(), &bad), Err(ValidationFailure::BadSignature));
    let spent = ExternalChecks { signature_valid: true, key_image_spent: true };
    assert_eq!(
        validate(&tx, 9, &good_proofs(), &spent),
        Err(ValidationFailure::NonPositiveValue)
    );
    tx.fee = 3;
    assert_eq!(validate(&tx, 9, &good_proofs(), &spent), Err(ValidationFailure::SpentKeyImage));
    assert_eq!(
        validate(&tx, 9, &good_proofs(), &good_checks()),
        Err(ValidationFailure::StaleTombstone)
    );
}

#[test]
fn duplicates_are_found_anywhere() {
    let image = |tag: u8| KeyImage { bytes: [tag; 32] };
    assert!(!contains_duplicate(&vec![]));
    assert!(!contains_duplicate(&vec![image(1)]));
    assert!(!contains_duplicate(&vec![image(1), image(2), image(3)]));
    assert!(contains_duplicate(&vec![image(1), image(2), image(1)]));
    assert!(contains_duplicate(&vec![image(3), image(2), image(2)]));
    let mut near = image(1);
    near.bytes[31] = 0;
    assert!(!contains_duplicate(&vec![image(1), near]));
}

#[test]
fn elements_are_compared_in_every_field() {
    let base = element(4);
    assert!(same_element(&base, &element(4)));
    assert!(!same_element(&base, &element(5)));
    assert!(!same_element(&base, &TxOutMembershipElement { range_from: 1, ..base }));
    assert!(!same_element(&base, &TxOutMembershipElement { range_to: 16, ..base }));
}

#[test]
fn roots_agree_on_last_elements_only() {
    assert!(roots_agree(&vec![]));
    assert!(roots_agree(&good_proofs()));
    assert!(!roots_agree(&vec![proof_of(vec![])]));
    assert!(!roots_agree(&vec![proof_of(vec![element(9), element(1)]), proof_of(vec![element(9)])]));
}
