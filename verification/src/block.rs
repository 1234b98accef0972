//! Blocks, and how a batch of checked transactions becomes the next block.

use vstd::prelude::*;
use vstd::bytes::spec_u64_to_le_bytes;
use crate::digest::{blake2b_256, hash32};
use crate::error::{Error, ValidationFailure};
use crate::keys::{ed25519_signature, ed25519_verifies, verify_with_key, Ed25519Pair};
use crate::tx::{
    KeyImage, ProofView, Tx, TxOut, TxOutMembershipElement, TxOutMembershipProof, TxView,
};
use crate::validation::{same_element, validate, validation_outcome, ExternalChecks};
use crate::wire::{
    copy_items, put_array32, put_list, put_u64, read_array32_of_write, read_u64_of_write, views,
    written_list, Wire, WireExec,
};

verus! {

/// The version that this crate writes into every block it forms.
pub const BLOCK_VERSION: u32 = 0;

/// A block header. A block is known by the hash of its header, and names its
/// parent by the parent's hash.
#[derive(Clone, Copy, Debug, PartialEq, Eq)]
pub struct Block {
    pub version: u32,
    /// The hash of the parent's header.
    pub parent_hash: [u8; 32],
    /// The position in the chain: the parent's index plus one.
    pub index: u64,
    /// The root of the ledger state against which the contents were checked.
    pub root_element: TxOutMembershipElement,
    /// The hash of the block's contents.
    pub contents_hash: [u8; 32],
}

/// What a block adds to the ledger.
#[derive(Clone, Debug, PartialEq, Eq)]
pub struct BlockContents {
    /// The key images consumed, in transaction order.
    pub key_images: Vec<KeyImage>,
    /// The outputs created, in transaction order.
    pub outputs: Vec<TxOut>,
}

/// What the contents of a block hold.
pub ghost struct BlockContentsView {
    pub key_images: Seq<KeyImage>,
    pub outputs: Seq<TxOut>,
}

impl View for BlockContents {
    type V = BlockContentsView;

    open spec fn view(&self) -> BlockContentsView {
        BlockContentsView { key_images: self.key_images@, outputs: self.outputs@ }
    }
}

/// An Ed25519 signature over the hash of a block header, with the public key
/// of the node that made it.
#[derive(Clone, Copy, Debug, PartialEq, Eq)]
pub struct BlockSignature {
    pub signature: [u8; 64],
    pub signer: [u8; 32],
}

impl BlockContentsView {
    /// The bytes that are hashed: both lists, each with its length in front.
    pub open spec fn written(self) -> Seq<u8> {
        written_list(self.key_images) + written_list(self.outputs)
    }

    /// The hash of the contents.
    pub open spec fn hash(self) -> Seq<u8> {
        blake2b_256(self.written())
    }
}

impl BlockContents {
    /// The contents with these key images and outputs.
    pub fn new(key_images: Vec<KeyImage>, outputs: Vec<TxOut>) -> (contents: Self)
        ensures
            contents@ == (BlockContentsView { key_images: key_images@, outputs: outputs@ }),
    {
        BlockContents { key_images, outputs }
    }

    /// The hash of the contents.
    pub fn hash(&self) -> (digest: [u8; 32])
        ensures
            digest@ == self@.hash(),
    {
        let mut bytes: Vec<u8> = Vec::new();
        put_list(&mut bytes, self.key_images.as_slice());
        put_list(&mut bytes, self.outputs.as_slice());
        assert(views(self.key_images@) =~= self.key_images@);
        assert(views(self.outputs@) =~= self.outputs@);
        assert(bytes@ =~= self@.written());
        hash32(bytes.as_slice())
    }
}

impl Block {
    /// The header as bytes, every field at a fixed width and in a fixed
    /// order: 128 bytes.
    pub open spec fn header(self) -> Seq<u8> {
        spec_u64_to_le_bytes(self.version as u64) + self.parent_hash@ + spec_u64_to_le_bytes(
            self.index,
        ) + self.root_element.written() + self.contents_hash@
    }

    /// The identity of the block: the hash of its header.
    pub open spec fn id(self) -> Seq<u8> {
        blake2b_256(self.header())
    }

    /// Whether this block follows `parent` with the given root and contents.
    pub open spec fn follows(
        self,
        version: u32,
        parent: Block,
        root_element: TxOutMembershipElement,
        contents: BlockContentsView,
    ) -> bool {
        &&& self.version == version
        &&& self.parent_hash@ == parent.id()
        &&& self.index == parent.index + 1
        &&& self.root_element == root_element
        &&& self.contents_hash@ == contents.hash()
    }

    /// The header as bytes.
    pub fn header_bytes(&self) -> (bytes: Vec<u8>)
        ensures
            bytes@ == self.header(),
    {
        let mut bytes: Vec<u8> = Vec::new();
        put_u64(&mut bytes, self.version as u64);
        put_array32(&mut bytes, &self.parent_hash);
        put_u64(&mut bytes, self.index);
        self.root_element.put(&mut bytes);
        put_array32(&mut bytes, &self.contents_hash);
        assert(bytes@ =~= self.header());
        bytes
    }

    /// The hash of the header, by which the block is known.
    pub fn hash(&self) -> (digest: [u8; 32])
        ensures
            digest@ == self.id(),
    {
        let bytes = self.header_bytes();
        hash32(bytes.as_slice())
    }

    /// The block that follows `parent`: it names the parent by hash, stands
    /// one index higher, and commits to the root and to the contents.
    pub fn new_with_parent(
        version: u32,
        parent: &Block,
        root_element: &TxOutMembershipElement,
        contents: &BlockContents,
    ) -> (block: Block)
        requires
            parent.index < u64::MAX,
        ensures
            block.follows(version, *parent, *root_element, contents@),
    {
        Block {
            version,
            parent_hash: parent.hash(),
            index: parent.index + 1,
            root_element: *root_element,
            contents_hash: contents.hash(),
        }
    }
}

impl BlockSignature {
    /// Whether this is `keypair`'s signature over `block`.
    pub open spec fn signs(self, block: Block, keypair: Ed25519Pair) -> bool {
        &&& self.signer == keypair.public()
        &&& self.signature@ == ed25519_signature(keypair.secret(), block.id())
    }

    /// Whether the signature is accepted for `block` under the signer's key.
    pub open spec fn verifies(self, block: Block) -> bool {
        ed25519_verifies(self.signer@, block.id(), self.signature@)
    }

    /// Signs the hash of `block` with `keypair`. The signature verifies.
    pub fn from_block_and_keypair(block: &Block, keypair: &Ed25519Pair) -> (signature: Self)
        ensures
            signature.signs(*block, *keypair),
            signature.verifies(*block),
    {
        let id = block.hash();
        let signature = keypair.sign(id.as_slice());
        BlockSignature { signature, signer: keypair.public_key() }
    }

    /// Checks the signature against the hash of `block` and the signer's key.
    pub fn verify(&self, block: &Block) -> (ok: bool)
        ensures
            ok == self.verifies(*block),
    {
        let id = block.hash();
        verify_with_key(&self.signer, id.as_slice(), self.signature.as_slice())
    }
}

/// A transaction put forward for a block, with the proofs that the ledger
/// supplied and what was found about it outside this crate.
#[derive(Clone, Debug, PartialEq, Eq)]
pub struct Candidate {
    pub tx: Tx,
    pub proofs: Vec<TxOutMembershipProof>,
    pub checks: ExternalChecks,
}

/// What a candidate holds.
pub ghost struct CandidateView {
    pub tx: TxView,
    pub proofs: Seq<ProofView>,
    pub checks: ExternalChecks,
}

impl View for Candidate {
    type V = CandidateView;

    open spec fn view(&self) -> CandidateView {
        CandidateView { tx: self.tx@, proofs: views(self.proofs@), checks: self.checks }
    }
}

impl CandidateView {
    /// The first rule that the candidate breaks for block `block_index`.
    pub open spec fn outcome(self, block_index: u64) -> Option<ValidationFailure> {
        validation_outcome(self.tx, block_index, self.proofs, self.checks)
    }
}

/// The failure of the first candidate that breaks a rule, or `None` when
/// every candidate passes.
pub open spec fn first_failure(batch: Seq<CandidateView>, block_index: u64) -> Option<
    ValidationFailure,
>
    decreases batch.len(),
{
    if batch.len() == 0 {
        None
    } else {
        match batch.first().outcome(block_index) {
            Some(failure) => Some(failure),
            None => first_failure(batch.drop_first(), block_index),
        }
    }
}

/// The last element of each proof, in order.
pub open spec fn claimed_roots(proofs: Seq<ProofView>) -> Seq<TxOutMembershipElement> {
    proofs.map_values(|p: ProofView| p.elements.last())
}

/// The last element of every proof of every candidate, in order.
pub open spec fn batch_roots(batch: Seq<CandidateView>) -> Seq<TxOutMembershipElement>
    decreases batch.len(),
{
    if batch.len() == 0 {
        Seq::empty()
    } else {
        batch_roots(batch.drop_last()) + claimed_roots(batch.last().proofs)
    }
}

/// Whether there is at least one root and no second, different one.
pub open spec fn single_root(roots: Seq<TxOutMembershipElement>) -> bool {
    roots.len() > 0 && forall|i: int| 0 <= i < roots.len() ==> #[trigger] roots[i] == roots[0]
}

/// The key images of all candidates, in order.
pub open spec fn batch_key_images(batch: Seq<CandidateView>) -> Seq<KeyImage>
    decreases batch.len(),
{
    if batch.len() == 0 {
        Seq::empty()
    } else {
        batch_key_images(batch.drop_last()) + batch.last().tx.key_images
    }
}

/// The outputs of all candidates, in order.
pub open spec fn batch_outputs(batch: Seq<CandidateView>) -> Seq<TxOut>
    decreases batch.len(),
{
    if batch.len() == 0 {
        Seq::empty()
    } else {
        batch_outputs(batch.drop_last()) + batch.last().tx.outputs
    }
}

/// What the batch adds to the ledger: nothing is dropped or reordered, and a
/// key image that occurs in two candidates occurs twice.
pub open spec fn batch_contents(batch: Seq<CandidateView>) -> BlockContentsView {
    BlockContentsView { key_images: batch_key_images(batch), outputs: batch_outputs(batch) }
}

/// Why no block can be formed from `batch` at `block_index`, or `None` when
/// one can: a candidate breaks a rule, or the proofs do not agree on exactly
/// one root.
pub open spec fn batch_error(batch: Seq<CandidateView>, block_index: u64) -> Option<Error> {
    match first_failure(batch, block_index) {
        Some(failure) => Some(Error::TransactionValidationFailed(failure)),
        None => if single_root(batch_roots(batch)) {
            None
        } else {
            Some(Error::InconsistentMembershipRoot)
        },
    }
}

/// Checks every candidate in order and stops at the first that fails.
pub fn validate_batch(batch: &Vec<Candidate>, block_index: u64) -> (r: Result<
    (),
    ValidationFailure,
>)
    ensures
        match r {
            Ok(()) => first_failure(views(batch@), block_index).is_none(),
            Err(failure) => first_failure(views(batch@), block_index) == Some(failure),
        },
{
    let ghost all = views(batch@);
    let n = batch.len();
    let mut i: usize = 0;
    assert(all.skip(0) =~= all);
    while i < n
        invariant
            i <= n,
            n == batch@.len(),
            all == views(batch@),
            first_failure(all, block_index) == first_failure(all.skip(i as int), block_index),
        decreases n - i,
    {
        let candidate = &batch[i];
        proof {
            assert(all.skip(i as int).first() == candidate@);
            assert(all.skip(i as int).drop_first() =~= all.skip(i + 1));
        }
        match validate(&candidate.tx, block_index, &candidate.proofs, &candidate.checks) {
            Err(failure) => { return Err(failure); },
            Ok(()) => {},
        }
        i += 1;
    }
    Ok(())
}

/// Gathers the root that each proof of each candidate claims.
///
/// `None` when some proof has no elements and so claims nothing.
pub fn collect_roots(batch: &Vec<Candidate>) -> (r: Option<Vec<TxOutMembershipElement>>)
    ensures
        match r {
            Some(roots) => roots@ == batch_roots(views(batch@)),
            None => exists|a: int, i: int|
                0 <= a < batch@.len() && 0 <= i < batch@[a].proofs@.len()
                    && #[trigger] batch@[a].proofs@[i].elements@.len() == 0,
        },
{
    let ghost all = views(batch@);
    let mut roots: Vec<TxOutMembershipElement> = Vec::new();
    let n = batch.len();
    let mut a: usize = 0;
    while a < n
        invariant
            a <= n,
            n == batch@.len(),
            all == views(batch@),
            roots@ == batch_roots(all.subrange(0, a as int)),
        decreases n - a,
    {
        let proofs = &batch[a].proofs;
        let ghost before = roots@;
        let ghost these = views(proofs@);
        let m = proofs.len();
        let mut i: usize = 0;
        while i < m
            invariant
                i <= m,
                m == proofs@.len(),
                a < batch@.len(),
                *proofs == batch@[a as int].proofs,
                these == views(proofs@),
                roots@ == before + claimed_roots(these.subrange(0, i as int)),
            decreases m - i,
        {
            let elements = &proofs[i].elements;
            if elements.len() == 0 {
                assert(batch@[a as int].proofs@[i as int].elements@.len() == 0);
                return None;
            }
            roots.push(elements[elements.len() - 1]);
            proof {
                assert(these[i as int] == proofs@[i as int]@);
                assert(roots@ =~= before + claimed_roots(these.subrange(0, i + 1)));
            }
            i += 1;
        }
        proof {
            assert(these.subrange(0, m as int) =~= these);
            assert(all.subrange(0, a + 1).drop_last() =~= all.subrange(0, a as int));
            assert(all.subrange(0, a + 1).last() == batch@[a as int]@);
        }
        a += 1;
    }
    assert(all.subrange(0, n as int) =~= all);
    Some(roots)
}

/// Whether `roots` holds at least one root and no second, different one.
pub fn is_single_root(roots: &Vec<TxOutMembershipElement>) -> (single: bool)
    ensures
        single == single_root(roots@),
{
    let n = roots.len();
    if n == 0 {
        return false;
    }
    let mut i: usize = 1;
    while i < n
        invariant
            1 <= i <= n,
            n == roots@.len(),
            forall|k: int| 0 <= k < i ==> #[trigger] roots@[k] == roots@[0],
        decreases n - i,
    {
        if !same_element(&roots[i], &roots[0]) {
            return false;
        }
        i += 1;
    }
    true
}

/// Gathers the key images and the outputs of all candidates, in order.
pub fn collect_contents(batch: &Vec<Candidate>) -> (contents: BlockContents)
    ensures
        contents@ == batch_contents(views(batch@)),
{
    let ghost all = views(batch@);
    let mut key_images: Vec<KeyImage> = Vec::new();
    let mut outputs: Vec<TxOut> = Vec::new();
    let n = batch.len();
    let mut a: usize = 0;
    while a < n
        invariant
            a <= n,
            n == batch@.len(),
            all == views(batch@),
            key_images@ == batch_key_images(all.subrange(0, a as int)),
            outputs@ == batch_outputs(all.subrange(0, a as int)),
        decreases n - a,
    {
        let tx = &batch[a].tx;
        let mut images = copy_items(&tx.key_images);
        let mut created = copy_items(&tx.outputs);
        key_images.append(&mut images);
        outputs.append(&mut created);
        proof {
            assert(all.subrange(0, a + 1).drop_last() =~= all.subrange(0, a as int));
            assert(all.subrange(0, a + 1).last() == batch@[a as int]@);
        }
        a += 1;
    }
    assert(all.subrange(0, n as int) =~= all);
    BlockContents::new(key_images, outputs)
}

/// Forms and signs the block that follows `parent` from a batch of
/// candidates.
///
/// Every candidate is checked for the new block's index; the first failure
/// rejects the whole batch. The proofs of the batch must agree on exactly
/// one root, which the block commits to. The contents are the key images and
/// outputs of all candidates in order.
pub fn form_block_from(keypair: &Ed25519Pair, parent: &Block, batch: &Vec<Candidate>) -> (r:
    Result<(Block, BlockContents, BlockSignature), Error>)
    requires
        parent.index < u64::MAX,
    ensures
        match r {
            Ok((block, contents, signature)) => {
                &&& batch_error(views(batch@), (parent.index + 1) as u64).is_none()
                &&& contents@ == batch_contents(views(batch@))
                &&& block.follows(
                    BLOCK_VERSION,
                    *parent,
                    batch_roots(views(batch@))[0],
                    contents@,
                )
                &&& signature.signs(block, *keypair)
                &&& signature.verifies(block)
            },
            Err(e) => batch_error(views(batch@), (parent.index + 1) as u64) == Some(e),
        },
{
    let block_index = parent.index + 1;
    match validate_batch(batch, block_index) {
        Err(failure) => { return Err(Error::TransactionValidationFailed(failure)); },
        Ok(()) => {},
    }
    let roots = match collect_roots(batch) {
        Some(roots) => roots,
        None => {
            proof {
                no_failure_means_roots(views(batch@), block_index);
                let (a, i) = choose|a: int, i: int|
                    0 <= a < batch@.len() && 0 <= i < batch@[a].proofs@.len()
                        && #[trigger] batch@[a].proofs@[i].elements@.len() == 0;
                assert(views(batch@)[a] == batch@[a]@);
                assert(views(batch@)[a].proofs[i] == batch@[a].proofs@[i]@);
            }
            return Err(Error::InconsistentMembershipRoot);
        },
    };
    if !is_single_root(&roots) {
        return Err(Error::InconsistentMembershipRoot);
    }
    let contents = collect_contents(batch);
    let block = Block::new_with_parent(BLOCK_VERSION, parent, &roots[0], &contents);
    let signature = BlockSignature::from_block_and_keypair(&block, keypair);
    Ok((block, contents, signature))
}

/// In a batch without failure, every proof of every candidate claims a root.
pub proof fn no_failure_means_roots(batch: Seq<CandidateView>, block_index: u64)
    requires
        first_failure(batch, block_index).is_none(),
    ensures
        forall|a: int, i: int|
            0 <= a < batch.len() && 0 <= i < batch[a].proofs.len() ==> (
            #[trigger] batch[a].proofs[i]).elements.len() > 0,
    decreases batch.len(),
{
    if batch.len() > 0 {
        let rest = batch.drop_first();
        no_failure_means_roots(rest, block_index);
        assert forall|a: int, i: int|
            0 <= a < batch.len() && 0 <= i < batch[a].proofs.len() implies (
        #[trigger] batch[a].proofs[i]).elements.len() > 0 by {
            if a == 0 {
                assert(batch.first().outcome(block_index).is_none());
                assert(batch[0].proofs[i].root().is_some());
            } else {
                assert(rest[a - 1] == batch[a]);
            }
        }
    }
}

/// Every root that a proof of a candidate claims is among the roots of the
/// batch; the position is returned.
pub proof fn root_is_collected(batch: Seq<CandidateView>, a: int, i: int) -> (k: int)
    requires
        0 <= a < batch.len(),
        0 <= i < batch[a].proofs.len(),
    ensures
        0 <= k < batch_roots(batch).len(),
        batch_roots(batch)[k] == batch[a].proofs[i].elements.last(),
    decreases batch.len(),
{
    let front = batch.drop_last();
    if a == batch.len() - 1 {
        assert(claimed_roots(batch.last().proofs)[i] == batch[a].proofs[i].elements.last());
        batch_roots(front).len() + i
    } else {
        assert(front[a] == batch[a]);
        root_is_collected(front, a, i)
    }
}

/// Root consistency: when every candidate passes on its own and two proofs
/// anywhere in the batch claim different roots, the batch is rejected for
/// its roots.
pub proof fn two_roots_reject(
    batch: Seq<CandidateView>,
    block_index: u64,
    a: int,
    i: int,
    b: int,
    j: int,
)
    requires
        first_failure(batch, block_index).is_none(),
        0 <= a < batch.len(),
        0 <= i < batch[a].proofs.len(),
        0 <= b < batch.len(),
        0 <= j < batch[b].proofs.len(),
        batch[a].proofs[i].root() != batch[b].proofs[j].root(),
    ensures
        batch_error(batch, block_index) == Some(Error::InconsistentMembershipRoot),
{
    no_failure_means_roots(batch, block_index);
    let roots = batch_roots(batch);
    let k1 = root_is_collected(batch, a, i);
    let k2 = root_is_collected(batch, b, j);
    assert(batch[a].proofs[i].elements.len() > 0);
    assert(batch[b].proofs[j].elements.len() > 0);
    assert(roots[k1] != roots[k2]);
    if single_root(roots) {
        assert(roots[k1] == roots[0]);
        assert(roots[k2] == roots[0]);
    }
}

/// A proof whose root differs from that of another proof in the batch
/// rejects the whole batch, whatever else holds of it: no block is formed.
pub proof fn mismatched_proof_rejects(
    batch: Seq<CandidateView>,
    block_index: u64,
    a: int,
    i: int,
    b: int,
    j: int,
)
    requires
        0 <= a < batch.len(),
        0 <= i < batch[a].proofs.len(),
        0 <= b < batch.len(),
        0 <= j < batch[b].proofs.len(),
        batch[a].proofs[i].root() != batch[b].proofs[j].root(),
    ensures
        batch_error(batch, block_index).is_some(),
{
    if first_failure(batch, block_index).is_none() {
        two_roots_reject(batch, block_index, a, i, b, j);
    }
}

/// A batch with no proof at all, such as the empty batch, has no root: it
/// is rejected, and for its roots if every candidate passes on its own.
pub proof fn no_proof_rejects(batch: Seq<CandidateView>, block_index: u64)
    requires
        forall|a: int| 0 <= a < batch.len() ==> (#[trigger] batch[a]).proofs.len() == 0,
    ensures
        batch_error(batch, block_index).is_some(),
        first_failure(batch, block_index).is_none() ==> batch_error(batch, block_index) == Some(
            Error::InconsistentMembershipRoot,
        ),
{
    no_proof_no_root(batch);
}

/// Root consistency in terms of distinct roots: when every candidate passes
/// on its own and the proofs of the batch claim more than one distinct root,
/// the batch is rejected for its roots.
pub proof fn several_distinct_roots_reject(batch: Seq<CandidateView>, block_index: u64)
    requires
        first_failure(batch, block_index).is_none(),
        batch_roots(batch).to_set().len() > 1,
    ensures
        batch_error(batch, block_index) == Some(Error::InconsistentMembershipRoot),
{
    single_root_is_one_distinct(batch_roots(batch));
}

/// A batch with no proof at all claims no root.
pub proof fn no_proof_no_root(batch: Seq<CandidateView>)
    requires
        forall|a: int| 0 <= a < batch.len() ==> (#[trigger] batch[a]).proofs.len() == 0,
    ensures
        batch_roots(batch).len() == 0,
    decreases batch.len(),
{
    if batch.len() > 0 {
        let front = batch.drop_last();
        assert forall|a: int| 0 <= a < front.len() implies (#[trigger] front[a]).proofs.len()
            == 0 by {
            assert(front[a] == batch[a]);
        }
        no_proof_no_root(front);
        assert(batch.last() == batch[batch.len() - 1]);
    }
}

/// The roots agree on exactly one root just when removing duplicates leaves
/// exactly one.
pub proof fn single_root_is_one_distinct(roots: Seq<TxOutMembershipElement>)
    ensures
        single_root(roots) <==> roots.to_set().len() == 1,
{
    let set = roots.to_set();
    roots.lemma_cardinality_of_set();
    if single_root(roots) {
        assert(set =~= Set::empty().insert(roots[0])) by {
            assert forall|x: TxOutMembershipElement| set.contains(x) <==> x == roots[0] by {
                if set.contains(x) {
                    let k = choose|k: int| 0 <= k < roots.len() && roots[k] == x;
                    assert(roots[k] == roots[0]);
                }
                if x == roots[0] {
                    assert(roots.contains(roots[0]));
                }
            }
        }
    } else if roots.len() == 0 {
        roots.lemma_cardinality_of_empty_set_is_0();
    } else {
        let k = choose|k: int| 0 <= k < roots.len() && #[trigger] roots[k] != roots[0];
        assert(roots.contains(roots[0]));
        assert(roots.contains(roots[k]));
        let pair = Set::<TxOutMembershipElement>::empty().insert(roots[0]).insert(roots[k]);
        assert(pair.subset_of(set));
        vstd::set_lib::lemma_len_subset(pair, set);
        assert(pair.len() == 2);
    }
}

/// Two blocks with the same header bytes are the same block: every field
/// is recovered from its fixed place in the header, so a change to any field
/// changes what is hashed and signed.
pub proof fn header_determines_block(a: Block, b: Block)
    requires
        a.header() == b.header(),
    ensures
        a == b,
{
    let none = Seq::<u8>::empty();
    let a4 = a.contents_hash@ + none;
    let a3 = a.root_element.written() + a4;
    let a2 = spec_u64_to_le_bytes(a.index) + a3;
    let a1 = a.parent_hash@ + a2;
    let b4 = b.contents_hash@ + none;
    let b3 = b.root_element.written() + b4;
    let b2 = spec_u64_to_le_bytes(b.index) + b3;
    let b1 = b.parent_hash@ + b2;
    assert(a.header() =~= spec_u64_to_le_bytes(a.version as u64) + a1);
    assert(b.header() =~= spec_u64_to_le_bytes(b.version as u64) + b1);
    read_u64_of_write(a.version as u64, a1);
    read_u64_of_write(b.version as u64, b1);
    read_array32_of_write(a.parent_hash, a2);
    read_array32_of_write(b.parent_hash, b2);
    read_u64_of_write(a.index, a3);
    read_u64_of_write(b.index, b3);
    a.root_element.read_of_written(a4);
    b.root_element.read_of_written(b4);
    read_array32_of_write(a.contents_hash, none);
    read_array32_of_write(b.contents_hash, none);
}

} // verus!
