//! The byte format of transactions.
//!
//! A transaction is written field by field: numbers as eight little-endian
//! bytes, keys and hashes as 32 raw bytes, every list with its length in
//! front. `decode` accepts exactly the byte strings that `encode` produces
//! for some transaction, and gives that transaction back.

use vstd::prelude::*;
use vstd::bytes::spec_u64_to_le_bytes;
use crate::context::WellFormedEncryptedTx;
use crate::tx::{
    KeyImage, ProofView, Tx, TxIn, TxInView, TxOut, TxOutMembershipElement, TxOutMembershipProof,
    TxView,
};
use crate::wire::{
    list_fits, put_array32, put_list, put_u64, read_array32, read_array32_of_write, read_list,
    read_list_of_written, read_u64, read_u64_of_write, take_array32, take_list, take_u64, views,
    written_list, Wire, WireExec,
};

verus! {

impl Wire for u8 {
    open spec fn fits(self) -> bool {
        true
    }

    open spec fn written(self) -> Seq<u8> {
        seq![self]
    }

    open spec fn read(s: Seq<u8>) -> Option<(u8, Seq<u8>)> {
        if s.len() >= 1 {
            Some((s[0], s.skip(1)))
        } else {
            None
        }
    }

    proof fn read_of_written(self, rest: Seq<u8>) {
        assert((seq![self] + rest).skip(1) =~= rest);
    }
}

impl WireExec for u8 {
    fn put(&self, buf: &mut Vec<u8>) {
        buf.push(*self);
        assert(buf@ =~= old(buf)@ + seq![*self]);
    }

    fn take(bytes: &[u8], pos: usize) -> (r: Option<(u8, usize)>) {
        if pos < bytes.len() {
            assert(bytes@.skip(pos as int).skip(1) =~= bytes@.skip(pos + 1));
            Some((bytes[pos], pos + 1))
        } else {
            None
        }
    }
}

impl Wire for Seq<u8> {
    open spec fn fits(self) -> bool {
        list_fits(self)
    }

    open spec fn written(self) -> Seq<u8> {
        written_list(self)
    }

    open spec fn read(s: Seq<u8>) -> Option<(Seq<u8>, Seq<u8>)> {
        read_list::<u8>(s)
    }

    proof fn read_of_written(self, rest: Seq<u8>) {
        read_list_of_written(self, rest);
    }
}

impl View for WellFormedEncryptedTx {
    type V = Seq<u8>;

    open spec fn view(&self) -> Seq<u8> {
        self.0@
    }
}

impl WireExec for WellFormedEncryptedTx {
    fn put(&self, buf: &mut Vec<u8>) {
        put_list(buf, self.0.as_slice());
        assert(views(self.0@) =~= self.0@);
    }

    fn take(bytes: &[u8], pos: usize) -> (r: Option<(WellFormedEncryptedTx, usize)>) {
        match take_list::<u8>(bytes, pos) {
            None => None,
            Some((blob, next)) => {
                assert(views(blob@) =~= blob@);
                Some((WellFormedEncryptedTx(blob), next))
            },
        }
    }
}

impl Wire for KeyImage {
    open spec fn fits(self) -> bool {
        true
    }

    open spec fn written(self) -> Seq<u8> {
        self.bytes@
    }

    open spec fn read(s: Seq<u8>) -> Option<(KeyImage, Seq<u8>)> {
        match read_array32(s) {
            None => None,
            Some((bytes, rest)) => Some((KeyImage { bytes }, rest)),
        }
    }

    proof fn read_of_written(self, rest: Seq<u8>) {
        read_array32_of_write(self.bytes, rest);
    }
}

impl WireExec for KeyImage {
    fn put(&self, buf: &mut Vec<u8>) {
        put_array32(buf, &self.bytes);
    }

    fn take(bytes: &[u8], pos: usize) -> (r: Option<(KeyImage, usize)>) {
        match take_array32(bytes, pos) {
            None => None,
            Some((image, next)) => Some((KeyImage { bytes: image }, next)),
        }
    }
}

impl Wire for TxOut {
    open spec fn fits(self) -> bool {
        true
    }

    open spec fn written(self) -> Seq<u8> {
        self.commitment@ + spec_u64_to_le_bytes(self.masked_value) + self.target_key@
            + self.public_key@
    }

    open spec fn read(s: Seq<u8>) -> Option<(TxOut, Seq<u8>)> {
        match read_array32(s) {
            None => None,
            Some((commitment, s1)) => match read_u64(s1) {
                None => None,
                Some((masked_value, s2)) => match read_array32(s2) {
                    None => None,
                    Some((target_key, s3)) => match read_array32(s3) {
                        None => None,
                        Some((public_key, s4)) => Some(
                            (TxOut { commitment, masked_value, target_key, public_key }, s4),
                        ),
                    },
                },
            },
        }
    }

    proof fn read_of_written(self, rest: Seq<u8>) {
        let s3 = self.public_key@ + rest;
        let s2 = self.target_key@ + s3;
        let s1 = spec_u64_to_le_bytes(self.masked_value) + s2;
        assert(self.written() + rest =~= self.commitment@ + s1);
        read_array32_of_write(self.commitment, s1);
        read_u64_of_write(self.masked_value, s2);
        read_array32_of_write(self.target_key, s3);
        read_array32_of_write(self.public_key, rest);
    }
}

impl WireExec for TxOut {
    fn put(&self, buf: &mut Vec<u8>) {
        put_array32(buf, &self.commitment);
        put_u64(buf, self.masked_value);
        put_array32(buf, &self.target_key);
        put_array32(buf, &self.public_key);
        assert(buf@ =~= old(buf)@ + self@.written());
    }

    fn take(bytes: &[u8], pos: usize) -> (r: Option<(TxOut, usize)>) {
        let (commitment, c1) = match take_array32(bytes, pos) {
            Some(x) => x,
            None => { return None; },
        };
        let (masked_value, c2) = match take_u64(bytes, c1) {
            Some(x) => x,
            None => { return None; },
        };
        let (target_key, c3) = match take_array32(bytes, c2) {
            Some(x) => x,
            None => { return None; },
        };
        let (public_key, c4) = match take_array32(bytes, c3) {
            Some(x) => x,
            None => { return None; },
        };
        Some((TxOut { commitment, masked_value, target_key, public_key }, c4))
    }
}

impl Wire for TxOutMembershipElement {
    open spec fn fits(self) -> bool {
        true
    }

    open spec fn written(self) -> Seq<u8> {
        spec_u64_to_le_bytes(self.range_from) + spec_u64_to_le_bytes(self.range_to) + self.hash@
    }

    open spec fn read(s: Seq<u8>) -> Option<(TxOutMembershipElement, Seq<u8>)> {
        match read_u64(s) {
            None => None,
            Some((range_from, s1)) => match read_u64(s1) {
                None => None,
                Some((range_to, s2)) => match read_array32(s2) {
                    None => None,
                    Some((hash, s3)) => Some(
                        (TxOutMembershipElement { range_from, range_to, hash }, s3),
                    ),
                },
            },
        }
    }

    proof fn read_of_written(self, rest: Seq<u8>) {
        let s2 = self.hash@ + rest;
        let s1 = spec_u64_to_le_bytes(self.range_to) + s2;
        assert(self.written() + rest =~= spec_u64_to_le_bytes(self.range_from) + s1);
        read_u64_of_write(self.range_from, s1);
        read_u64_of_write(self.range_to, s2);
        read_array32_of_write(self.hash, rest);
    }
}

impl WireExec for TxOutMembershipElement {
    fn put(&self, buf: &mut Vec<u8>) {
        put_u64(buf, self.range_from);
        put_u64(buf, self.range_to);
        put_array32(buf, &self.hash);
        assert(buf@ =~= old(buf)@ + self@.written());
    }

    fn take(bytes: &[u8], pos: usize) -> (r: Option<(TxOutMembershipElement, usize)>) {
        let (range_from, c1) = match take_u64(bytes, pos) {
            Some(x) => x,
            None => { return None; },
        };
        let (range_to, c2) = match take_u64(bytes, c1) {
            Some(x) => x,
            None => { return None; },
        };
        let (hash, c3) = match take_array32(bytes, c2) {
            Some(x) => x,
            None => { return None; },
        };
        Some((TxOutMembershipElement { range_from, range_to, hash }, c3))
    }
}

impl Wire for ProofView {
    open spec fn fits(self) -> bool {
        list_fits(self.elements)
    }

    open spec fn written(self) -> Seq<u8> {
        spec_u64_to_le_bytes(self.index) + spec_u64_to_le_bytes(self.highest_index) + written_list(
            self.elements,
        )
    }

    open spec fn read(s: Seq<u8>) -> Option<(ProofView, Seq<u8>)> {
        match read_u64(s) {
            None => None,
            Some((index, s1)) => match read_u64(s1) {
                None => None,
                Some((highest_index, s2)) => match read_list::<TxOutMembershipElement>(s2) {
                    None => None,
                    Some((elements, s3)) => Some((ProofView { index, highest_index, elements }, s3)),
                },
            },
        }
    }

    proof fn read_of_written(self, rest: Seq<u8>) {
        let s2 = written_list(self.elements) + rest;
        let s1 = spec_u64_to_le_bytes(self.highest_index) + s2;
        assert(self.written() + rest =~= spec_u64_to_le_bytes(self.index) + s1);
        read_u64_of_write(self.index, s1);
        read_u64_of_write(self.highest_index, s2);
        read_list_of_written(self.elements, rest);
    }
}

impl WireExec for TxOutMembershipProof {
    fn put(&self, buf: &mut Vec<u8>) {
        put_u64(buf, self.index);
        put_u64(buf, self.highest_index);
        put_list(buf, self.elements.as_slice());
        assert(views(self.elements@) =~= self.elements@);
        assert(buf@ =~= old(buf)@ + self@.written());
    }

    fn take(bytes: &[u8], pos: usize) -> (r: Option<(TxOutMembershipProof, usize)>) {
        let (index, c1) = match take_u64(bytes, pos) {
            Some(x) => x,
            None => { return None; },
        };
        let (highest_index, c2) = match take_u64(bytes, c1) {
            Some(x) => x,
            None => { return None; },
        };
        let (elements, c3) = match take_list::<TxOutMembershipElement>(bytes, c2) {
            Some(x) => x,
            None => { return None; },
        };
        assert(views(elements@) =~= elements@);
        Some((TxOutMembershipProof { index, highest_index, elements }, c3))
    }
}

impl Wire for TxInView {
    open spec fn fits(self) -> bool {
        list_fits(self.ring) && list_fits(self.proofs)
    }

    open spec fn written(self) -> Seq<u8> {
        written_list(self.ring) + written_list(self.proofs)
    }

    open spec fn read(s: Seq<u8>) -> Option<(TxInView, Seq<u8>)> {
        match read_list::<TxOut>(s) {
            None => None,
            Some((ring, s1)) => match read_list::<ProofView>(s1) {
                None => None,
                Some((proofs, s2)) => Some((TxInView { ring, proofs }, s2)),
            },
        }
    }

    proof fn read_of_written(self, rest: Seq<u8>) {
        let s1 = written_list(self.proofs) + rest;
        assert(self.written() + rest =~= written_list(self.ring) + s1);
        read_list_of_written(self.ring, s1);
        read_list_of_written(self.proofs, rest);
    }
}

impl WireExec for TxIn {
    fn put(&self, buf: &mut Vec<u8>) {
        put_list(buf, self.ring.as_slice());
        put_list(buf, self.proofs.as_slice());
        assert(views(self.ring@) =~= self.ring@);
        assert(buf@ =~= old(buf)@ + self@.written());
    }

    fn take(bytes: &[u8], pos: usize) -> (r: Option<(TxIn, usize)>) {
        let (ring, c1) = match take_list::<TxOut>(bytes, pos) {
            Some(x) => x,
            None => { return None; },
        };
        let (proofs, c2) = match take_list::<TxOutMembershipProof>(bytes, c1) {
            Some(x) => x,
            None => { return None; },
        };
        assert(views(ring@) =~= ring@);
        Some((TxIn { ring, proofs }, c2))
    }
}

impl Wire for TxView {
    open spec fn fits(self) -> bool {
        &&& list_fits(self.inputs)
        &&& list_fits(self.outputs)
        &&& list_fits(self.key_images)
        &&& list_fits(self.signature)
    }

    open spec fn written(self) -> Seq<u8> {
        written_list(self.inputs) + written_list(self.outputs) + spec_u64_to_le_bytes(self.fee)
            + spec_u64_to_le_bytes(self.tombstone_block) + written_list(self.key_images)
            + written_list(self.signature)
    }

    open spec fn read(s: Seq<u8>) -> Option<(TxView, Seq<u8>)> {
        match read_list::<TxInView>(s) {
            None => None,
            Some((inputs, s1)) => match read_list::<TxOut>(s1) {
                None => None,
                Some((outputs, s2)) => match read_u64(s2) {
                    None => None,
                    Some((fee, s3)) => match read_u64(s3) {
                        None => None,
                        Some((tombstone_block, s4)) => match read_list::<KeyImage>(s4) {
                            None => None,
                            Some((key_images, s5)) => match read_list::<u8>(s5) {
                                None => None,
                                Some((signature, s6)) => Some(
                                    (
                                        TxView {
                                            inputs,
                                            outputs,
                                            fee,
                                            tombstone_block,
                                            key_images,
                                            signature,
                                        },
                                        s6,
                                    ),
                                ),
                            },
                        },
                    },
                },
            },
        }
    }

    proof fn read_of_written(self, rest: Seq<u8>) {
        let s5 = written_list(self.signature) + rest;
        let s4 = written_list(self.key_images) + s5;
        let s3 = spec_u64_to_le_bytes(self.tombstone_block) + s4;
        let s2 = spec_u64_to_le_bytes(self.fee) + s3;
        let s1 = written_list(self.outputs) + s2;
        assert(self.written() + rest =~= written_list(self.inputs) + s1);
        read_list_of_written(self.inputs, s1);
        read_list_of_written(self.outputs, s2);
        read_u64_of_write(self.fee, s3);
        read_u64_of_write(self.tombstone_block, s4);
        read_list_of_written(self.key_images, s5);
        read_list_of_written(self.signature, rest);
    }
}

impl WireExec for Tx {
    fn put(&self, buf: &mut Vec<u8>) {
        put_list(buf, self.inputs.as_slice());
        put_list(buf, self.outputs.as_slice());
        put_u64(buf, self.fee);
        put_u64(buf, self.tombstone_block);
        put_list(buf, self.key_images.as_slice());
        put_list(buf, self.signature.as_slice());
        assert(views(self.outputs@) =~= self.outputs@);
        assert(views(self.key_images@) =~= self.key_images@);
        assert(views(self.signature@) =~= self.signature@);
        assert(buf@ =~= old(buf)@ + self@.written());
    }

    fn take(bytes: &[u8], pos: usize) -> (r: Option<(Tx, usize)>) {
        let (inputs, c1) = match take_list::<TxIn>(bytes, pos) {
            Some(x) => x,
            None => { return None; },
        };
        let (outputs, c2) = match take_list::<TxOut>(bytes, c1) {
            Some(x) => x,
            None => { return None; },
        };
        let (fee, c3) = match take_u64(bytes, c2) {
            Some(x) => x,
            None => { return None; },
        };
        let (tombstone_block, c4) = match take_u64(bytes, c3) {
            Some(x) => x,
            None => { return None; },
        };
        let (key_images, c5) = match take_list::<KeyImage>(bytes, c4) {
            Some(x) => x,
            None => { return None; },
        };
        let (signature, c6) = match take_list::<u8>(bytes, c5) {
            Some(x) => x,
            None => { return None; },
        };
        assert(views(outputs@) =~= outputs@);
        assert(views(key_images@) =~= key_images@);
        assert(views(signature@) =~= signature@);
        Some((Tx { inputs, outputs, fee, tombstone_block, key_images, signature }, c6))
    }
}

/// The bytes that stand for a transaction.
pub open spec fn encoded(tx: TxView) -> Seq<u8> {
    tx.written()
}

/// The transaction that `bytes` stand for, if they are a transaction and
/// nothing more.
pub open spec fn decoded(bytes: Seq<u8>) -> Option<TxView> {
    match TxView::read(bytes) {
        Some((tx, rest)) => if rest.len() == 0 {
            Some(tx)
        } else {
            None
        },
        None => None,
    }
}

/// Decoding what was encoded gives the transaction back.
pub proof fn decode_of_encode(tx: TxView)
    requires
        tx.fits(),
    ensures
        decoded(encoded(tx)) == Some(tx),
{
    tx.read_of_written(Seq::empty());
    assert(tx.written() + Seq::<u8>::empty() =~= tx.written());
}

/// Writes a transaction in its byte format.
pub fn encode(tx: &Tx) -> (bytes: Vec<u8>)
    ensures
        tx@.fits(),
        bytes@ == encoded(tx@),
        decoded(bytes@) == Some(tx@),
{
    let mut bytes: Vec<u8> = Vec::new();
    tx.put(&mut bytes);
    proof {
        assert(bytes@ =~= tx@.written());
        decode_of_encode(tx@);
    }
    bytes
}

/// Reads a transaction from `bytes`, which must hold one transaction and
/// nothing behind it.
pub fn decode(bytes: &[u8]) -> (r: Option<Tx>)
    ensures
        match r {
            Some(tx) => decoded(bytes@) == Some(tx@),
            None => decoded(bytes@).is_none(),
        },
{
    assert(bytes@.skip(0) =~= bytes@);
    match Tx::take(bytes, 0) {
        None => None,
        Some((tx, next)) => {
            if next == bytes.len() {
                Some(tx)
            } else {
                None
            }
        },
    }
}

} // verus!
