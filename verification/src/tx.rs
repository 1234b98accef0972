//! Transactions and the membership proofs that tie them to the ledger.

use vstd::prelude::*;
use crate::wire::{copy_items, views};

verus! {

/// The tag of one spent input. The set of all key images ever spent is what
/// rules out spending an output twice.
#[derive(Clone, Copy, Debug, PartialEq, Eq)]
pub struct KeyImage {
    pub bytes: [u8; 32],
}

/// One output of a transaction.
#[derive(Clone, Copy, Debug, PartialEq, Eq)]
pub struct TxOut {
    /// Commitment to the amount.
    pub commitment: [u8; 32],
    /// The amount, masked for everyone but the recipient.
    pub masked_value: u64,
    /// The one-time key that may spend this output.
    pub target_key: [u8; 32],
    /// The public key of the output, unique in the ledger.
    pub public_key: [u8; 32],
}

/// One node of a membership proof: a hash and the range of ledger indices
/// that it covers.
#[derive(Clone, Copy, Debug, PartialEq, Eq)]
pub struct TxOutMembershipElement {
    pub range_from: u64,
    pub range_to: u64,
    pub hash: [u8; 32],
}

/// A Merkle inclusion proof for the output at `index`, made when the ledger
/// held outputs up to `highest_index`. Its last element is the root.
#[derive(Clone, Debug, PartialEq, Eq)]
pub struct TxOutMembershipProof {
    pub index: u64,
    pub highest_index: u64,
    pub elements: Vec<TxOutMembershipElement>,
}

/// One input: a ring of outputs, one of which is spent, and a membership
/// proof for each ring member.
#[derive(Clone, Debug, PartialEq, Eq)]
pub struct TxIn {
    pub ring: Vec<TxOut>,
    pub proofs: Vec<TxOutMembershipProof>,
}

/// A transaction.
#[derive(Clone, Debug, PartialEq, Eq)]
pub struct Tx {
    pub inputs: Vec<TxIn>,
    pub outputs: Vec<TxOut>,
    /// What the transaction leaves to the network.
    pub fee: u64,
    /// The last block in which the transaction may appear.
    pub tombstone_block: u64,
    /// One key image per input.
    pub key_images: Vec<KeyImage>,
    /// The ring signatures and range proof, opaque to this crate.
    pub signature: Vec<u8>,
}

/// What a membership proof holds.
pub ghost struct ProofView {
    pub index: u64,
    pub highest_index: u64,
    pub elements: Seq<TxOutMembershipElement>,
}

/// What an input holds.
pub ghost struct TxInView {
    pub ring: Seq<TxOut>,
    pub proofs: Seq<ProofView>,
}

/// What a transaction holds.
pub ghost struct TxView {
    pub inputs: Seq<TxInView>,
    pub outputs: Seq<TxOut>,
    pub fee: u64,
    pub tombstone_block: u64,
    pub key_images: Seq<KeyImage>,
    pub signature: Seq<u8>,
}

impl View for KeyImage {
    type V = KeyImage;

    open spec fn view(&self) -> KeyImage {
        *self
    }
}

impl View for TxOut {
    type V = TxOut;

    open spec fn view(&self) -> TxOut {
        *self
    }
}

impl View for TxOutMembershipElement {
    type V = TxOutMembershipElement;

    open spec fn view(&self) -> TxOutMembershipElement {
        *self
    }
}

impl View for TxOutMembershipProof {
    type V = ProofView;

    open spec fn view(&self) -> ProofView {
        ProofView { index: self.index, highest_index: self.highest_index, elements: self.elements@ }
    }
}

impl View for TxIn {
    type V = TxInView;

    open spec fn view(&self) -> TxInView {
        TxInView { ring: self.ring@, proofs: views(self.proofs@) }
    }
}

impl View for Tx {
    type V = TxView;

    open spec fn view(&self) -> TxView {
        TxView {
            inputs: views(self.inputs@),
            outputs: self.outputs@,
            fee: self.fee,
            tombstone_block: self.tombstone_block,
            key_images: self.key_images@,
            signature: self.signature@,
        }
    }
}

impl ProofView {
    /// The root that the proof claims: its last element, if it has one.
    pub open spec fn root(self) -> Option<TxOutMembershipElement> {
        if self.elements.len() > 0 {
            Some(self.elements.last())
        } else {
            None
        }
    }
}

/// The `highest_index` of each proof, in order.
pub open spec fn proof_highest_indices(proofs: Seq<ProofView>) -> Seq<u64> {
    proofs.map_values(|p: ProofView| p.highest_index)
}

/// The `highest_index` of every proof of every input, in order.
pub open spec fn input_highest_indices(inputs: Seq<TxInView>) -> Seq<u64>
    decreases inputs.len(),
{
    if inputs.len() == 0 {
        Seq::empty()
    } else {
        input_highest_indices(inputs.drop_last()) + proof_highest_indices(inputs.last().proofs)
    }
}

/// The public key of each output, in order.
pub open spec fn public_keys_of(outputs: Seq<TxOut>) -> Seq<[u8; 32]> {
    outputs.map_values(|o: TxOut| o.public_key)
}

/// The length of the longest ring among `inputs`; 0 when there is none.
pub open spec fn largest_ring(inputs: Seq<TxInView>) -> nat
    decreases inputs.len(),
{
    if inputs.len() == 0 {
        0
    } else {
        let before = largest_ring(inputs.drop_last());
        if inputs.last().ring.len() > before {
            inputs.last().ring.len()
        } else {
            before
        }
    }
}

impl TxOutMembershipProof {
    /// A copy of this proof.
    pub fn duplicate(&self) -> (copy: Self)
        ensures
            copy@ == self@,
    {
        TxOutMembershipProof {
            index: self.index,
            highest_index: self.highest_index,
            elements: copy_items(&self.elements),
        }
    }
}

impl Tx {
    /// The key images that the transaction would consume, in input order.
    pub fn key_images(&self) -> (images: Vec<KeyImage>)
        ensures
            images@ == self@.key_images,
    {
        copy_items(&self.key_images)
    }

    /// The public keys of the outputs that the transaction creates.
    pub fn output_public_keys(&self) -> (keys: Vec<[u8; 32]>)
        ensures
            keys@ == public_keys_of(self@.outputs),
    {
        let mut keys: Vec<[u8; 32]> = Vec::new();
        let mut i: usize = 0;
        while i < self.outputs.len()
            invariant
                i <= self.outputs.len(),
                keys@ == public_keys_of(self.outputs@.subrange(0, i as int)),
            decreases self.outputs.len() - i,
        {
            keys.push(self.outputs[i].public_key);
            assert(keys@ =~= public_keys_of(self.outputs@.subrange(0, i + 1)));
            i += 1;
        }
        assert(self.outputs@.subrange(0, self.outputs.len() as int) =~= self.outputs@);
        keys
    }

    /// The ledger indices for which membership proofs must be fetched: the
    /// `highest_index` of every proof of every input, in order.
    pub fn get_membership_proof_highest_indices(&self) -> (indices: Vec<u64>)
        ensures
            indices@ == input_highest_indices(self@.inputs),
    {
        let mut indices: Vec<u64> = Vec::new();
        let mut i: usize = 0;
        while i < self.inputs.len()
            invariant
                i <= self.inputs.len(),
                indices@ == input_highest_indices(views(self.inputs@).subrange(0, i as int)),
            decreases self.inputs.len() - i,
        {
            let input = &self.inputs[i];
            let ghost before = indices@;
            let mut j: usize = 0;
            while j < input.proofs.len()
                invariant
                    j <= input.proofs.len(),
                    indices@ == before + proof_highest_indices(
                        views(input.proofs@).subrange(0, j as int),
                    ),
                decreases input.proofs.len() - j,
            {
                indices.push(input.proofs[j].highest_index);
                assert(indices@ =~= before + proof_highest_indices(
                    views(input.proofs@).subrange(0, j + 1),
                ));
                j += 1;
            }
            proof {
                let all = views(self.inputs@);
                assert(views(input.proofs@).subrange(0, input.proofs.len() as int)
                    =~= views(input.proofs@));
                assert(all.subrange(0, i + 1).drop_last() =~= all.subrange(0, i as int));
                assert(all.subrange(0, i + 1).last() == input@);
            }
            i += 1;
        }
        assert(views(self.inputs@).subrange(0, self.inputs.len() as int) =~= views(
            self.inputs@,
        ));
        indices
    }

    /// The length of the longest ring among the inputs; 0 when there is none.
    pub fn ring_size(&self) -> (size: usize)
        ensures
            size == largest_ring(self@.inputs),
    {
        let mut size: usize = 0;
        let mut i: usize = 0;
        while i < self.inputs.len()
            invariant
                i <= self.inputs.len(),
                size == largest_ring(views(self.inputs@).subrange(0, i as int)),
            decreases self.inputs.len() - i,
        {
            proof {
                let all = views(self.inputs@);
                assert(all.subrange(0, i + 1).drop_last() =~= all.subrange(0, i as int));
                assert(all.subrange(0, i + 1).last() == self.inputs@[i as int]@);
            }
            if self.inputs[i].ring.len() > size {
                size = self.inputs[i].ring.len();
            }
            i += 1;
        }
        assert(views(self.inputs@).subrange(0, self.inputs.len() as int) =~= views(
            self.inputs@,
        ));
        size
    }
}

} // verus!
