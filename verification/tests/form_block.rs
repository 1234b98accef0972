use consensus_enclave::block::{Block, BlockContents, BlockSignature, BLOCK_VERSION};
use consensus_enclave::context::WellFormedEncryptedTx;
use consensus_enclave::enclave::{BlockEntry, ConsensusServiceMockEnclave};
use consensus_enclave::error::{Error, ValidationFailure};
use consensus_enclave::serial::encode;
use consensus_enclave::tx::{
    KeyImage, Tx, TxIn, TxOut, TxOutMembershipElement, TxOutMembershipProof,
};
use consensus_enclave::validation::ExternalChecks;

fn root(tag: u8) -> TxOutMembershipElement {
    TxOutMembershipElement { range_from: 0, range_to: 7, hash: [tag; 32] }
}

fn output(tag: u8) -> TxOut {
    TxOut {
        commitment: [tag; 32],
        masked_value: 1000 + tag as u64,
        target_key: [tag.wrapping_add(1); 32],
        public_key: [tag.wrapping_add(2); 32],
    }
}

fn proof_ending_in(root: TxOutMembershipElement) -> TxOutMembershipProof {
    TxOutMembershipProof { index: 3, highest_index: 7, elements: vec![root] }
}

fn transaction(tag: u8) -> Tx {
    Tx {
        inputs: vec![TxIn {
            ring: vec![output(tag), output(tag.wrapping_add(10))],
            proofs: vec![proof_ending_in(root(0xaa)), proof_ending_in(root(0xaa))],
        }],
        outputs: vec![output(tag.wrapping_add(20)), output(tag.wrapping_add(30))],
        fee: 10,
        tombstone_block: 100,
        key_images: vec![KeyImage { bytes: [tag; 32] }],
        signature: vec![tag, 1, 2, 3],
    }
}

fn passed() -> ExternalChecks {
    ExternalChecks { signature_valid: true, key_image_spent: false }
}

fn entry(tx: &Tx, proofs: Vec<TxOutMembershipProof>) -> BlockEntry {
    (WellFormedEncryptedTx(encode(tx)), proofs, passed())
}

fn parent_at(index: u64) -> Block {
    Block {
        version: BLOCK_VERSION,
        parent_hash: [9; 32],
        index,
        root_element: root(0x11),
        contents_hash: [7; 32],
    }
}

fn form(entries: &[BlockEntry]) -> Result<(Block, BlockContents, BlockSignature), Error> {
    ConsensusServiceMockEnclave::default().form_block(&parent_at(5), entries)
}

#[test]
fn two_transactions_with_one_root_form_block_six() {
    let t1 = transaction(1);
    let t2 = transaction(2);
    let r = root(0xaa);
    let entries = vec![
        entry(&t1, vec![proof_ending_in(r)]),
        entry(&t2, vec![proof_ending_in(r)]),
    ];
    let (block, contents, signature) = form(&entries).unwrap();
    assert_eq!(block.index, 6);
    assert_eq!(block.version, BLOCK_VERSION);
    assert_eq!(block.parent_hash, parent_at(5).hash());
    assert_eq!(block.root_element, r);
    assert_eq!(block.contents_hash, contents.hash());
    let mut images = t1.key_images.clone();
    images.extend(t2.key_images.clone());
    assert_eq!(contents.key_images, images);
    let mut outputs = t1.outputs.clone();
    outputs.extend(t2.outputs.clone());
    assert_eq!(contents.outputs, outputs);
    assert!(signature.verify(&block));
    assert_eq!(signature.signer, ConsensusServiceMockEnclave::default().get_signer().unwrap());
}

#[test]
fn second_root_rejects_the_batch() {
    let t1 = transaction(1);
    let t2 = transaction(2);
    let entries = vec![
        entry(&t1, vec![proof_ending_in(root(0xaa))]),
        entry(&t2, vec![proof_ending_in(root(0xbb))]),
    ];
    assert_eq!(form(&entries), Err(Error::InconsistentMembershipRoot));
}

#[test]
fn empty_batch_has_no_root() {
    assert_eq!(form(&[]), Err(Error::InconsistentMembershipRoot));
}

#[test]
fn batch_without_proofs_has_no_root() {
    let entries = vec![entry(&transaction(1), vec![])];
    assert_eq!(form(&entries), Err(Error::InconsistentMembershipRoot));
}

#[test]
fn blob_that_is_no_transaction_is_reported() {
    let mut bytes = encode(&transaction(1));
    bytes.push(0);
    let entries = vec![
        entry(&transaction(2), vec![proof_ending_in(root(0xaa))]),
        (WellFormedEncryptedTx(bytes), vec![proof_ending_in(root(0xaa))], passed()),
    ];
    assert_eq!(form(&entries), Err(Error::DecryptionFailed));
}

#[test]
fn first_failing_transaction_decides_the_error() {
    let mut stale = transaction(1);
    stale.tombstone_block = 5;
    let mut free = transaction(2);
    free.fee = 0;
    let entries = vec![
        entry(&stale, vec![proof_ending_in(root(0xaa))]),
        entry(&free, vec![proof_ending_in(root(0xbb))]),
    ];
    assert_eq!(
        form(&entries),
        Err(Error::TransactionValidationFailed(ValidationFailure::StaleTombstone))
    );
}

#[test]
fn altered_header_no_longer_verifies() {
    let entries = vec![entry(&transaction(1), vec![proof_ending_in(root(0xaa))])];
    let (block, _contents, signature) = form(&entries).unwrap();
    assert!(signature.verify(&block));
    let mut altered = block;
    altered.index += 1;
    assert!(!signature.verify(&altered));
    let mut altered = block;
    altered.contents_hash[31] ^= 1;
    assert!(!signature.verify(&altered));
    let mut forged = signature;
    forged.signature[0] ^= 1;
    assert!(!forged.verify(&block));
}

#[test]
fn duplicate_key_images_across_transactions_are_kept() {
    let t1 = transaction(1);
    let mut t2 = transaction(2);
    t2.key_images = t1.key_images.clone();
    let entries = vec![
        entry(&t1, vec![proof_ending_in(root(0xaa))]),
        entry(&t2, vec![proof_ending_in(root(0xaa))]),
    ];
    let (_block, contents, _signature) = form(&entries).unwrap();
    assert_eq!(contents.key_images, vec![t1.key_images[0], t1.key_images[0]]);
}
