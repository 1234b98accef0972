use consensus_enclave::block::{Block, BlockContents, BlockSignature, BLOCK_VERSION};
use consensus_enclave::enclave::ConsensusServiceMockEnclave;
use consensus_enclave::error::Error;
use consensus_enclave::handshake::ResponderId;
use consensus_enclave::keys::Ed25519Pair;
use consensus_enclave::tx::{KeyImage, TxOut, TxOutMembershipElement};

fn hex(text: &str) -> Vec<u8> {
    let digits: Vec<u8> = text.bytes().map(|c| (c as char).to_digit(16).unwrap() as u8).collect();
    digits.chunks(2).map(|pair| pair[0] * 16 + pair[1]).collect()
}

fn array32(bytes: &[u8]) -> [u8; 32] {
    let mut out = [0u8; 32];
    out.copy_from_slice(bytes);
    out
}

fn node(name: &str) -> ResponderId {
    ResponderId(String::from(name))
}

const SECRET: &str = "9d61b19deffd5a60ba844af492ec2cc44449c5697b326919703bac031cae7f60";
const PUBLIC: &str = "d75a980182b10ab7d54bfed3c964073a0ee172f3daa62325af021a68f707511a";
const SIGNATURE_OF_NOTHING: &str = "e5564300c360ac729086e2cc806e828a84877f1eb8e5d974d873e06522490155\
5fb8821590a33bacc61e39701cf9b46bd25bf5f0595bbe24655141438e7a100b";

#[test]
fn public_key_is_derived_from_the_secret() {
    let pair = Ed25519Pair::from_seed(array32(&hex(SECRET)));
    assert_eq!(pair.public_key().to_vec(), hex(PUBLIC));
}

#[test]
fn signature_matches_the_known_answer() {
    let pair = Ed25519Pair::from_seed(array32(&hex(SECRET)));
    let signature = pair.sign(&[]);
    assert_eq!(signature.to_vec(), hex(SIGNATURE_OF_NOTHING));
    let key = ed25519_dalek::VerifyingKey::from_bytes(&pair.public_key()).unwrap();
    let parsed = ed25519_dalek::Signature::from_bytes(&signature);
    assert!(ed25519_dalek::Verifier::verify(&key, &[], &parsed).is_ok());
}

#[test]
fn default_identity_is_the_same_on_every_run() {
    let first = ConsensusServiceMockEnclave::default().get_signer().unwrap();
    let second = ConsensusServiceMockEnclave::default().get_signer().unwrap();
    assert_eq!(first, second);
    let mut csprng = <rand_hc::Hc128Rng as rand_core::SeedableRng>::seed_from_u64(0);
    let direct = ed25519_dalek::SigningKey::generate(&mut csprng);
    assert_eq!(first, direct.verifying_key().to_bytes());
    assert_eq!(Ed25519Pair::from_random(0).public_key(), first);
    assert_ne!(Ed25519Pair::from_random(1).public_key(), first);
}

#[test]
fn encryption_identity_comes_from_the_seeded_generator() {
    let key = ConsensusServiceMockEnclave::default().get_identity().unwrap();
    let csprng = <rand_hc::Hc128Rng as rand_core::SeedableRng>::seed_from_u64(0);
    let secret = x25519_dalek::EphemeralSecret::random_from_rng(csprng);
    assert_eq!(key, x25519_dalek::PublicKey::from(&secret).to_bytes());
    assert_eq!(ConsensusServiceMockEnclave::default().get_identity().unwrap(), key);
}

#[test]
fn generated_keypairs_differ() {
    let a = Ed25519Pair::generate();
    let b = Ed25519Pair::generate();
    assert_ne!(a.public_key(), b.public_key());
    let block = sample_block();
    assert!(BlockSignature::from_block_and_keypair(&block, &a).verify(&block));
    assert!(!BlockSignature { signer: b.public_key(), ..BlockSignature::from_block_and_keypair(&block, &a) }
        .verify(&block));
}

#[test]
fn sealed_key_is_secret_then_public() {
    let pair = Ed25519Pair::from_seed(array32(&hex(SECRET)));
    let sealed = pair.seal();
    assert_eq!(sealed.len(), 64);
    assert_eq!(sealed[..32].to_vec(), hex(SECRET));
    assert_eq!(sealed[32..].to_vec(), hex(PUBLIC));
    let restored = Ed25519Pair::unseal(&sealed).ok().unwrap();
    assert_eq!(restored.public_key(), pair.public_key());
    assert_eq!(restored.sign(b"m"), pair.sign(b"m"));
}

#[test]
fn corrupt_sealed_key_is_rejected() {
    let sealed = Ed25519Pair::from_seed([8; 32]).seal();
    for cut in [0usize, 1, 32, 63] {
        assert_eq!(Ed25519Pair::unseal(&sealed[..cut]).err(), Some(Error::SealOperationFailed));
    }
    let mut longer = sealed.clone();
    longer.push(0);
    assert_eq!(Ed25519Pair::unseal(&longer).err(), Some(Error::SealOperationFailed));
    for at in [0usize, 31, 32, 63] {
        let mut flipped = sealed.clone();
        flipped[at] ^= 1;
        assert_eq!(Ed25519Pair::unseal(&flipped).err(), Some(Error::SealOperationFailed));
    }
}

#[test]
fn init_without_sealed_key_makes_a_new_identity() {
    let mut enclave = ConsensusServiceMockEnclave::default();
    let before = enclave.get_signer().unwrap();
    let sealed = enclave.enclave_init(&node("a:1"), &node("a:2"), &None).unwrap();
    let after = enclave.get_signer().unwrap();
    assert_ne!(before, after);
    assert_eq!(sealed.len(), 64);
    assert_eq!(sealed[32..], after);
}

#[test]
fn init_with_sealed_key_restores_the_identity() {
    let mut first = ConsensusServiceMockEnclave::default();
    let sealed = first.enclave_init(&node("a:1"), &node("a:2"), &None).unwrap();
    let mut second = ConsensusServiceMockEnclave::default();
    let again = second.enclave_init(&node("a:1"), &node("a:2"), &Some(sealed.clone())).unwrap();
    assert_eq!(again, sealed);
    assert_eq!(second.get_signer(), first.get_signer());
}

#[test]
fn init_with_corrupt_sealed_key_changes_nothing() {
    let mut enclave = ConsensusServiceMockEnclave::default();
    let before = enclave.get_signer().unwrap();
    let mut sealed = Ed25519Pair::from_seed([8; 32]).seal();
    sealed[40] ^= 0xff;
    assert_eq!(
        enclave.enclave_init(&node("a:1"), &node("a:2"), &Some(sealed)),
        Err(Error::SealOperationFailed)
    );
    assert_eq!(
        enclave.enclave_init(&node("a:1"), &node("a:2"), &Some(vec![])),
        Err(Error::SealOperationFailed)
    );
    assert_eq!(enclave.get_signer().unwrap(), before);
}

fn sample_block() -> Block {
    Block {
        version: 0x01020304,
        parent_hash: [0x11; 32],
        index: 0x0a0b0c0d0e0f1011,
        root_element: TxOutMembershipElement { range_from: 2, range_to: 3, hash: [0x22; 32] },
        contents_hash: [0x33; 32],
    }
}

fn blake2b_256(data: &[u8]) -> [u8; 32] {
    <blake2::Blake2b<blake2::digest::consts::U32> as blake2::Digest>::digest(data).into()
}

#[test]
fn header_has_every_field_at_its_place() {
    let mut expected: Vec<u8> = Vec::new();
    expected.extend([4, 3, 2, 1, 0, 0, 0, 0]);
    expected.extend([0x11; 32]);
    expected.extend([0x11, 0x10, 0x0f, 0x0e, 0x0d, 0x0c, 0x0b, 0x0a]);
    expected.extend([2, 0, 0, 0, 0, 0, 0, 0]);
    expected.extend([3, 0, 0, 0, 0, 0, 0, 0]);
    expected.extend([0x22; 32]);
    expected.extend([0x33; 32]);
    assert_eq!(expected.len(), 128);
    assert_eq!(sample_block().header_bytes(), expected);
    assert_eq!(sample_block().hash(), blake2b_256(&expected));
}

#[test]
fn hash_is_blake2b_with_32_bytes() {
    let empty = BlockContents::new(vec![], vec![]);
    assert_eq!(empty.hash(), blake2b_256(&[0u8; 16]));
    assert_ne!(empty.hash(), [0u8; 32]);
}

#[test]
fn contents_hash_covers_images_then_outputs() {
    let image = KeyImage { bytes: [7; 32] };
    let output =
        TxOut { commitment: [1; 32], masked_value: 2, target_key: [3; 32], public_key: [4; 32] };
    let contents = BlockContents::new(vec![image], vec![output]);
    let mut expected: Vec<u8> = Vec::new();
    expected.extend([1, 0, 0, 0, 0, 0, 0, 0]);
    expected.extend([7; 32]);
    expected.extend([1, 0, 0, 0, 0, 0, 0, 0]);
    expected.extend([1; 32]);
    expected.extend([2, 0, 0, 0, 0, 0, 0, 0]);
    expected.extend([3; 32]);
    expected.extend([4; 32]);
    assert_eq!(contents.hash(), blake2b_256(&expected));
}

#[test]
fn next_block_is_linked_to_its_parent() {
    let parent = sample_block();
    let root = TxOutMembershipElement { range_from: 0, range_to: 9, hash: [0x44; 32] };
    let contents = BlockContents::new(vec![KeyImage { bytes: [7; 32] }], vec![]);
    let block = Block::new_with_parent(BLOCK_VERSION, &parent, &root, &contents);
    assert_eq!(block.version, 0);
    assert_eq!(block.parent_hash, parent.hash());
    assert_eq!(block.index, 0x0a0b0c0d0e0f1012);
    assert_eq!(block.root_element, root);
    assert_eq!(block.contents_hash, contents.hash());
}

#[test]
fn block_signature_is_over_the_block_hash() {
    let pair = Ed25519Pair::from_seed([5; 32]);
    let block = sample_block();
    let signature = BlockSignature::from_block_and_keypair(&block, &pair);
    assert_eq!(signature.signer, pair.public_key());
    assert_eq!(signature.signature, pair.sign(&block.hash()));
    assert!(signature.verify(&block));
    let wrong_signer = BlockSignature { signer: [5; 32], ..signature };
    assert!(!wrong_signer.verify(&block));
    let other = Ed25519Pair::from_seed([6; 32]);
    assert!(!BlockSignature { signer: other.public_key(), ..signature }.verify(&block));
    let mut flipped = signature;
    flipped.signature[10] ^= 0x40;
    assert!(!flipped.verify(&block));
}
