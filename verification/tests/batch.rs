use consensus_enclave::block::{
    collect_contents, collect_roots, form_block_from, is_single_root, validate_batch, Block,
    Candidate, BLOCK_VERSION,
};
use consensus_enclave::enclave::ConsensusServiceMockEnclave;
use consensus_enclave::error::{Error, ValidationFailure};
use consensus_enclave::keys::Ed25519Pair;
use consensus_enclave::tx::{KeyImage, Tx, TxOut, TxOutMembershipElement, TxOutMembershipProof};
use consensus_enclave::validation::ExternalChecks;

fn element(tag: u8) -> TxOutMembershipElement {
    TxOutMembershipElement { range_from: 0, range_to: 31, hash: [tag; 32] }
}

fn path(tags: &[u8]) -> TxOutMembershipProof {
    TxOutMembershipProof {
        index: 2,
        highest_index: 31,
        elements: tags.iter().map(|tag| element(*tag)).collect(),
    }
}

fn candidate(tag: u8, proofs: Vec<TxOutMembershipProof>) -> Candidate {
    Candidate {
        tx: Tx {
            inputs: vec![],
            outputs: vec![TxOut {
                commitment: [tag; 32],
                masked_value: tag as u64,
                target_key: [tag; 32],
                public_key: [tag; 32],
            }],
            fee: 2,
            tombstone_block: 10,
            key_images: vec![KeyImage { bytes: [tag; 32] }, KeyImage { bytes: [tag + 100; 32] }],
            signature: vec![],
        },
        proofs,
        checks: ExternalChecks { signature_valid: true, key_image_spent: false },
    }
}

fn genesis() -> Block {
    Block {
        version: BLOCK_VERSION,
        parent_hash: [0; 32],
        index: 0,
        root_element: element(0),
        contents_hash: [0; 32],
    }
}

#[test]
fn roots_are_collected_in_order() {
    let batch = vec![
        candidate(1, vec![path(&[1, 2, 3]), path(&[4])]),
        candidate(2, vec![]),
        candidate(3, vec![path(&[5, 6])]),
    ];
    assert_eq!(collect_roots(&batch), Some(vec![element(3), element(4), element(6)]));
    assert_eq!(collect_roots(&vec![]), Some(vec![]));
    let hollow = vec![candidate(1, vec![path(&[1]), path(&[])])];
    assert_eq!(collect_roots(&hollow), None);
}

#[test]
fn single_root_needs_one_and_only_one() {
    assert!(!is_single_root(&vec![]));
    assert!(is_single_root(&vec![element(1)]));
    assert!(is_single_root(&vec![element(1), element(1), element(1)]));
    assert!(!is_single_root(&vec![element(1), element(1), element(2)]));
    assert!(!is_single_root(&vec![element(2), element(1)]));
}

#[test]
fn contents_are_gathered_in_order() {
    let batch = vec![candidate(1, vec![]), candidate(2, vec![])];
    let contents = collect_contents(&batch);
    let image = |tag: u8| KeyImage { bytes: [tag; 32] };
    assert_eq!(contents.key_images, vec![image(1), image(101), image(2), image(102)]);
    assert_eq!(contents.outputs, vec![batch[0].tx.outputs[0], batch[1].tx.outputs[0]]);
    let nothing = collect_contents(&vec![]);
    assert!(nothing.key_images.is_empty() && nothing.outputs.is_empty());
}

#[test]
fn batch_stops_at_the_first_failure() {
    let mut spent = candidate(2, vec![]);
    spent.checks.key_image_spent = true;
    let mut unsigned = candidate(3, vec![]);
    unsigned.checks.signature_valid = false;
    let batch = vec![candidate(1, vec![]), spent, unsigned];
    assert_eq!(validate_batch(&batch, 10), Err(ValidationFailure::SpentKeyImage));
    assert_eq!(validate_batch(&batch[..1].to_vec(), 10), Ok(()));
    assert_eq!(validate_batch(&batch[..1].to_vec(), 11), Err(ValidationFailure::StaleTombstone));
    assert_eq!(validate_batch(&vec![], 11), Ok(()));
}

#[test]
fn batch_with_several_proofs_per_transaction_forms_a_block() {
    let pair = Ed25519Pair::from_seed([9; 32]);
    let batch = vec![
        candidate(1, vec![path(&[1, 7]), path(&[2, 3, 7])]),
        candidate(2, vec![]),
        candidate(3, vec![path(&[7])]),
    ];
    let (block, contents, signature) = form_block_from(&pair, &genesis(), &batch).ok().unwrap();
    assert_eq!(block.index, 1);
    assert_eq!(block.parent_hash, genesis().hash());
    assert_eq!(block.root_element, element(7));
    assert_eq!(block.contents_hash, contents.hash());
    assert_eq!(contents, collect_contents(&batch));
    assert_eq!(signature.signer, pair.public_key());
    assert!(signature.verify(&block));
}

#[test]
fn third_root_anywhere_rejects_the_batch() {
    let pair = Ed25519Pair::from_seed([9; 32]);
    let batch = vec![
        candidate(1, vec![path(&[7])]),
        candidate(2, vec![path(&[7])]),
        candidate(3, vec![path(&[7, 8])]),
    ];
    assert_eq!(
        form_block_from(&pair, &genesis(), &batch).err(),
        Some(Error::InconsistentMembershipRoot)
    );
    let torn = vec![candidate(1, vec![path(&[7]), path(&[8])]), candidate(2, vec![path(&[7])])];
    assert_eq!(
        form_block_from(&pair, &genesis(), &torn).err(),
        Some(Error::TransactionValidationFailed(ValidationFailure::ProofMismatch))
    );
}

#[test]
fn same_batch_gives_the_same_block() {
    let pair = Ed25519Pair::from_seed([9; 32]);
    let batch = vec![candidate(1, vec![path(&[7])])];
    let first = form_block_from(&pair, &genesis(), &batch).ok().unwrap();
    let second = form_block_from(&pair.clone(), &genesis(), &batch.clone()).ok().unwrap();
    assert_eq!(first, second);
}

#[test]
fn copy_of_the_engine_has_its_identity_and_channels() {
    let mut enclave = ConsensusServiceMockEnclave::default();
    assert!(enclave.clients.register([1; 32]));
    let copy = enclave.clone();
    assert_eq!(copy.get_signer(), enclave.get_signer());
    assert!(copy.clients.is_open(&[1; 32]));
    enclave.clients.close(&[1; 32]);
    assert!(copy.clients.is_open(&[1; 32]));
    assert!(!enclave.clients.is_open(&[1; 32]));
}
