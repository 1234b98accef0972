use consensus_enclave::context::{LocallyEncryptedTx, WellFormedTxContext};
use consensus_enclave::enclave::ConsensusServiceMockEnclave;
use consensus_enclave::error::{Error, ValidationFailure};
use consensus_enclave::serial::encode;
use consensus_enclave::tx::{
    KeyImage, Tx, TxIn, TxOut, TxOutMembershipElement, TxOutMembershipProof,
};
use consensus_enclave::validation::ExternalChecks;

fn output(tag: u8) -> TxOut {
    TxOut { commitment: [tag; 32], masked_value: 9, target_key: [tag; 32], public_key: [tag; 32] }
}

fn proof_at(highest_index: u64, root: u8) -> TxOutMembershipProof {
    TxOutMembershipProof {
        index: 0,
        highest_index,
        elements: vec![TxOutMembershipElement { range_from: 0, range_to: 3, hash: [root; 32] }],
    }
}

fn tx() -> Tx {
    Tx {
        inputs: vec![
            TxIn { ring: vec![output(1), output(2)], proofs: vec![proof_at(3, 1), proof_at(5, 1)] },
            TxIn { ring: vec![output(3)], proofs: vec![proof_at(8, 1)] },
        ],
        outputs: vec![output(4), output(5)],
        fee: 12,
        tombstone_block: 40,
        key_images: vec![KeyImage { bytes: [0xa1; 32] }, KeyImage { bytes: [0xa2; 32] }],
        signature: vec![0xff; 10],
    }
}

fn passed() -> ExternalChecks {
    ExternalChecks { signature_valid: true, key_image_spent: false }
}

fn blake2b_256(data: &[u8]) -> [u8; 32] {
    <blake2::Blake2b<blake2::digest::consts::U32> as blake2::Digest>::digest(data).into()
}

#[test]
fn context_summarizes_the_transaction() {
    let tx = tx();
    let context = ConsensusServiceMockEnclave::tx_to_tx_context(&tx);
    assert_eq!(context.locally_encrypted_tx, LocallyEncryptedTx(encode(&tx)));
    assert_eq!(context.tx_hash, blake2b_256(&encode(&tx)));
    assert_eq!(context.tx_hash, tx.tx_hash());
    assert_eq!(context.highest_indices, vec![3, 5, 8]);
    assert_eq!(context.key_images, tx.key_images);
    assert_eq!(context.output_public_keys, vec![[4u8; 32], [5u8; 32]]);
}

#[test]
fn ingested_transaction_passes_the_check_with_its_summary() {
    let tx = tx();
    let enclave = ConsensusServiceMockEnclave::default();
    let context = ConsensusServiceMockEnclave::tx_to_tx_context(&tx);
    let blob = context.locally_encrypted_tx.clone();
    let proofs = vec![proof_at(3, 7), proof_at(5, 7), proof_at(8, 7)];
    let (well_formed, summary) =
        enclave.tx_is_well_formed(blob.clone(), 40, proofs, passed()).unwrap();
    assert_eq!(well_formed.0, blob.0);
    assert_eq!(
        summary,
        WellFormedTxContext {
            fee: 12,
            ring_size: 2,
            tombstone_block: 40,
            key_images: tx.key_images.clone(),
        }
    );
    assert_eq!(summary, WellFormedTxContext::from_tx(&tx));
}

#[test]
fn blob_that_does_not_open_is_reported() {
    let enclave = ConsensusServiceMockEnclave::default();
    let mut bytes = encode(&tx());
    bytes.pop();
    assert_eq!(
        enclave.tx_is_well_formed(LocallyEncryptedTx(bytes), 1, vec![], passed()),
        Err(Error::DecryptionFailed)
    );
    assert_eq!(
        enclave.tx_is_well_formed(LocallyEncryptedTx(vec![]), 1, vec![], passed()),
        Err(Error::DecryptionFailed)
    );
}

#[test]
fn broken_rule_is_reported_with_its_reason() {
    let enclave = ConsensusServiceMockEnclave::default();
    let blob = LocallyEncryptedTx(encode(&tx()));
    assert_eq!(
        enclave.tx_is_well_formed(blob.clone(), 41, vec![], passed()),
        Err(Error::TransactionValidationFailed(ValidationFailure::StaleTombstone))
    );
    assert_eq!(
        enclave.tx_is_well_formed(blob.clone(), 1, vec![proof_at(1, 1), proof_at(1, 2)], passed()),
        Err(Error::TransactionValidationFailed(ValidationFailure::ProofMismatch))
    );
    let unsigned = ExternalChecks { signature_valid: false, key_image_spent: false };
    assert_eq!(
        enclave.tx_is_well_formed(blob, 1, vec![], unsigned),
        Err(Error::TransactionValidationFailed(ValidationFailure::BadSignature))
    );
}
