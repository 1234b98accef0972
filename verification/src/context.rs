//! What leaves the engine about a transaction: opaque blobs and the public
//! summaries that ordering and relaying work with.

use vstd::prelude::*;
use crate::digest::{blake2b_256, hash32};
use crate::serial::{encode, encoded};
use crate::tx::{
    input_highest_indices, largest_ring, public_keys_of, KeyImage, Tx, TxView,
};

verus! {

/// A transaction as this node keeps it between ingestion and the check.
/// Never sent to peers.
#[derive(Clone, Debug, PartialEq, Eq)]
pub struct LocallyEncryptedTx(pub Vec<u8>);

/// A transaction that passed the check, in the form that peers exchange.
#[derive(Clone, Debug, PartialEq, Eq)]
pub struct WellFormedEncryptedTx(pub Vec<u8>);

/// The public summary of an ingested transaction.
#[derive(Clone, Debug, PartialEq, Eq)]
pub struct TxContext {
    pub locally_encrypted_tx: LocallyEncryptedTx,
    /// The hash of the encoded transaction.
    pub tx_hash: [u8; 32],
    /// The ledger indices for which membership proofs must be fetched.
    pub highest_indices: Vec<u64>,
    /// The key images that the transaction would consume.
    pub key_images: Vec<KeyImage>,
    /// The public keys of the outputs that it would create.
    pub output_public_keys: Vec<[u8; 32]>,
}

/// What ordering needs to know about a checked transaction.
#[derive(Clone, Debug, PartialEq, Eq)]
pub struct WellFormedTxContext {
    pub fee: u64,
    /// The length of the longest ring among the inputs.
    pub ring_size: u64,
    pub tombstone_block: u64,
    pub key_images: Vec<KeyImage>,
}

/// The hash by which a transaction is known: the digest of its encoding.
pub open spec fn tx_hash_of(tx: TxView) -> Seq<u8> {
    blake2b_256(encoded(tx))
}

impl TxContext {
    /// Whether this is the summary of `tx`, with the encoded transaction as
    /// the local blob.
    pub open spec fn summarizes(self, tx: TxView) -> bool {
        &&& self.locally_encrypted_tx.0@ == encoded(tx)
        &&& self.tx_hash@ == tx_hash_of(tx)
        &&& self.highest_indices@ == input_highest_indices(tx.inputs)
        &&& self.key_images@ == tx.key_images
        &&& self.output_public_keys@ == public_keys_of(tx.outputs)
    }
}

impl WellFormedTxContext {
    /// Whether this is the summary of `tx`.
    pub open spec fn summarizes(self, tx: TxView) -> bool {
        &&& self.fee == tx.fee
        &&& self.ring_size == largest_ring(tx.inputs)
        &&& self.tombstone_block == tx.tombstone_block
        &&& self.key_images@ == tx.key_images
    }

    /// The summary of a checked transaction.
    pub fn from_tx(tx: &Tx) -> (context: Self)
        ensures
            context.summarizes(tx@),
    {
        WellFormedTxContext {
            fee: tx.fee,
            ring_size: tx.ring_size() as u64,
            tombstone_block: tx.tombstone_block,
            key_images: tx.key_images(),
        }
    }
}

impl Tx {
    /// The hash of the encoded transaction.
    pub fn tx_hash(&self) -> (digest: [u8; 32])
        ensures
            digest@ == tx_hash_of(self@),
    {
        let bytes = encode(self);
        hash32(bytes.as_slice())
    }
}

} // verus!
