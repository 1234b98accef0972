//! The engine as one value: the node's identity and the operations that the
//! untrusted side of the node may call.

use vstd::prelude::*;
use crate::block::{
    batch_contents, batch_error, batch_roots, first_failure, form_block_from,
    mismatched_proof_rejects, two_roots_reject, Block, BlockContents, BlockSignature, Candidate,
    CandidateView, BLOCK_VERSION,
};
use crate::context::{LocallyEncryptedTx, TxContext, WellFormedEncryptedTx, WellFormedTxContext};
use crate::error::Error;
use crate::handshake::{
    first_answered, known_key, unanswered, well_formed_request, ClientAuthRequest,
    ClientAuthResponse, KnownPeer, KnownPeerView, PeerAuthRequest, PeerAuthResponse,
    PendingHandshake, PendingView, ResponderId,
};
use crate::keys::{
    ed25519_public_key, ed25519_seed_from_hc128, ed25519_signature, ed25519_verifies,
    ephemeral_public, fresh_public, sealed_key_intact, verify_with_key,
    x25519_public_from_hc128, Ed25519Pair,
};
use crate::serial::{decode, decode_of_encode, decoded, encode, encoded};
use crate::session::{ClientSession, EnclaveMessage, PeerSession, SessionTable, SessionsView};
use crate::tx::{ProofView, Tx, TxOutMembershipProof, TxView};
use crate::validation::{validate, validation_outcome, ExternalChecks};
use crate::wire::{
    array32, array32_of_view, bytes_of, put_list, read_list, read_list_of_written, take_array32,
    take_list, views, written_list, Wire,
};

verus! {

/// The seed of the generator from which the default identity is drawn.
pub const DEFAULT_IDENTITY_SEED: u64 = 0;

/// One transaction offered for a block: its relayable blob, the proofs that
/// the ledger supplied, and what was found about it outside this crate.
pub type BlockEntry = (WellFormedEncryptedTx, Vec<TxOutMembershipProof>, ExternalChecks);

/// The candidate that an entry opens to, if its blob is a transaction.
pub open spec fn entry_candidate(entry: BlockEntry) -> Option<CandidateView> {
    match decoded(entry.0.0@) {
        Some(tx) => Some(CandidateView { tx, proofs: views(entry.1@), checks: entry.2 }),
        None => None,
    }
}

/// Whether every entry opens to a transaction.
pub open spec fn all_open(entries: Seq<BlockEntry>) -> bool {
    forall|i: int| 0 <= i < entries.len() ==> (#[trigger] entry_candidate(entries[i])).is_some()
}

/// The candidates that the entries open to, in order.
pub open spec fn opened(entries: Seq<BlockEntry>) -> Seq<CandidateView> {
    Seq::new(entries.len(), |i: int| entry_candidate(entries[i]).unwrap())
}

/// Why no block can be formed from `entries` at `block_index`, or `None`
/// when one can. A blob that does not open comes before any broken rule.
pub open spec fn form_block_error(entries: Seq<BlockEntry>, block_index: u64) -> Option<Error> {
    if !all_open(entries) {
        Some(Error::DecryptionFailed)
    } else {
        batch_error(opened(entries), block_index)
    }
}

/// Whether a request to open a channel is turned away: it is malformed, or
/// its key share was presented before.
pub open spec fn request_rejected(table: SessionsView, request: Seq<u8>) -> bool {
    !well_formed_request(request) || table.used.contains(array32(request))
}

/// Why a message on a channel yields no transaction, or `None` when it does:
/// the channel is not open, or the payload is no transaction.
pub open spec fn proposal_error(open: bool, data: Seq<u8>) -> Option<Error> {
    if !open {
        Some(Error::SessionClosed)
    } else if decoded(data).is_none() {
        Some(Error::MalformedTransaction)
    } else {
        None
    }
}

/// The transactions that a payload from a peer holds, if it is a list of
/// blobs, each of which opens to a transaction, and nothing more.
pub open spec fn relayed_batch(data: Seq<u8>) -> Option<Seq<TxView>> {
    match read_list::<Seq<u8>>(data) {
        Some((blobs, rest)) => if rest.len() == 0 && forall|i: int|
            0 <= i < blobs.len() ==> (#[trigger] decoded(blobs[i])).is_some() {
            Some(Seq::new(blobs.len(), |i: int| decoded(blobs[i]).unwrap()))
        } else {
            None
        },
        None => None,
    }
}

/// The engine of one node.
#[derive(Clone)]
pub struct ConsensusServiceMockEnclave {
    /// The keypair under which this node signs blocks and handshakes.
    pub signing_keypair: Ed25519Pair,
    /// The channels with clients.
    pub clients: SessionTable,
    /// The channels with peers.
    pub peers: SessionTable,
    /// The peers whose signing keys are known.
    pub directory: Vec<KnownPeer>,
    /// The handshakes begun toward peers and not yet answered.
    pub pending: Vec<PendingHandshake>,
}

impl Default for ConsensusServiceMockEnclave {
    /// The engine whose identity is drawn from a generator with a fixed
    /// seed: the same identity on every run. It has no channel and knows no
    /// peer.
    fn default() -> (enclave: Self)
        ensures
            enclave.signing_keypair.secret() == ed25519_seed_from_hc128(DEFAULT_IDENTITY_SEED),
            enclave.clients() == SessionsView::empty(),
            enclave.peers() == SessionsView::empty(),
            enclave.directory() == Seq::<KnownPeerView>::empty(),
            enclave.pending() == Seq::<PendingView>::empty(),
    {
        Self::new(Ed25519Pair::from_random(DEFAULT_IDENTITY_SEED))
    }
}

/// Opens a channel in `table` for `request` and signs the request as the
/// answer.
fn accept_into(keypair: &Ed25519Pair, table: &mut SessionTable, request: &Vec<u8>) -> (r: Result<
    (Vec<u8>, [u8; 32]),
    Error,
>)
    ensures
        match r {
            Ok((response, id)) => {
                &&& !request_rejected(old(table)@, request@)
                &&& id@ == request@
                &&& final(table)@ == old(table)@.registered(id)
                &&& response@ == ed25519_signature(keypair.secret(), request@)
                &&& ed25519_verifies(keypair.public()@, request@, response@)
            },
            Err(e) => {
                &&& e == Error::HandshakeRejected
                &&& request_rejected(old(table)@, request@)
                &&& final(table)@ == old(table)@
            },
        },
{
    if request.len() != 32 {
        return Err(Error::HandshakeRejected);
    }
    let (id, _next) = match take_array32(request.as_slice(), 0) {
        Some(p) => p,
        None => { return Err(Error::HandshakeRejected); },
    };
    proof {
        assert(request@.subrange(0, 32) =~= request@);
        array32_of_view(id);
    }
    if !table.register(id) {
        return Err(Error::HandshakeRejected);
    }
    let signature = keypair.sign(request.as_slice());
    Ok((bytes_of(&signature), id))
}

/// The key of the first peer in `directory` that is named `id`.
fn find_key(directory: &Vec<KnownPeer>, id: &ResponderId) -> (r: Option<[u8; 32]>)
    ensures
        r == known_key(views(directory@), id@),
{
    let ghost all = views(directory@);
    let n = directory.len();
    let mut i: usize = 0;
    assert(all.skip(0) =~= all);
    while i < n
        invariant
            i <= n,
            n == directory@.len(),
            all == views(directory@),
            known_key(all, id@) == known_key(all.skip(i as int), id@),
        decreases n - i,
    {
        proof {
            assert(all.skip(i as int).first() == directory@[i as int]@);
            assert(all.skip(i as int).drop_first() =~= all.skip(i + 1));
        }
        if directory[i].id.0 == id.0 {
            return Some(directory[i].public_key);
        }
        i += 1;
    }
    None
}

/// The first handshake pending toward `peer` that `response` answers.
fn find_answered(
    pending: &Vec<PendingHandshake>,
    peer: &ResponderId,
    key: &[u8; 32],
    response: &Vec<u8>,
) -> (r: Option<usize>)
    ensures
        match r {
            Some(i) => first_answered(views(pending@), peer@, *key, response@, i as int),
            None => unanswered(views(pending@), peer@, *key, response@),
        },
{
    let ghost all = views(pending@);
    let n = pending.len();
    let mut i: usize = 0;
    while i < n
        invariant
            i <= n,
            n == pending@.len(),
            all == views(pending@),
            forall|k: int| 0 <= k < i ==> !(#[trigger] all[k]).answered_by(peer@, *key, response@),
        decreases n - i,
    {
        let candidate = &pending[i];
        assert(all[i as int] == candidate@);
        if candidate.peer.0 == peer.0 && verify_with_key(
            key,
            candidate.key_share.as_slice(),
            response.as_slice(),
        ) {
            return Some(i);
        }
        i += 1;
    }
    None
}

/// The summary of each blob's transaction; `None` if a blob is no
/// transaction.
fn summarize_all(blobs: &Vec<WellFormedEncryptedTx>) -> (r: Option<Vec<TxContext>>)
    ensures
        match r {
            Some(contexts) => {
                &&& contexts@.len() == blobs@.len()
                &&& forall|k: int|
                    0 <= k < blobs@.len() ==> (#[trigger] decoded(views(blobs@)[k])).is_some()
                        && contexts@[k].summarizes(decoded(views(blobs@)[k]).unwrap())
            },
            None => exists|k: int|
                0 <= k < blobs@.len() && (#[trigger] decoded(views(blobs@)[k])).is_none(),
        },
{
    let mut contexts: Vec<TxContext> = Vec::new();
    let n = blobs.len();
    let mut i: usize = 0;
    while i < n
        invariant
            i <= n,
            n == blobs@.len(),
            contexts@.len() == i,
            forall|k: int|
                0 <= k < i ==> (#[trigger] decoded(views(blobs@)[k])).is_some()
                    && contexts@[k].summarizes(decoded(views(blobs@)[k]).unwrap()),
        decreases n - i,
    {
        assert(views(blobs@)[i as int] == blobs@[i as int].0@);
        match decode(blobs[i].0.as_slice()) {
            Some(tx) => {
                contexts.push(ConsensusServiceMockEnclave::tx_to_tx_context(&tx));
            },
            None => {
                assert(decoded(views(blobs@)[i as int]).is_none());
                return None;
            },
        }
        i += 1;
    }
    Some(contexts)
}

/// A peer that is appended to a directory is found under its name unless
/// the name was taken.
proof fn known_key_after_push(directory: Seq<KnownPeerView>, peer: KnownPeerView, id: Seq<char>)
    ensures
        known_key(directory.push(peer), id) == match known_key(directory, id) {
            Some(key) => Some(key),
            None => if peer.id == id {
                Some(peer.public_key)
            } else {
                None
            },
        },
    decreases directory.len(),
{
    let longer = directory.push(peer);
    if directory.len() == 0 {
        assert(longer.drop_first() =~= Seq::<KnownPeerView>::empty());
    } else {
        assert(longer.first() == directory.first());
        assert(longer.drop_first() =~= directory.drop_first().push(peer));
        known_key_after_push(directory.drop_first(), peer, id);
    }
}

impl ConsensusServiceMockEnclave {
    /// The channels with clients.
    pub open spec fn clients(&self) -> SessionsView {
        self.clients@
    }

    /// The channels with peers.
    pub open spec fn peers(&self) -> SessionsView {
        self.peers@
    }

    /// The peers whose signing keys are known.
    pub open spec fn directory(&self) -> Seq<KnownPeerView> {
        views(self.directory@)
    }

    /// The handshakes begun toward peers and not yet answered.
    pub open spec fn pending(&self) -> Seq<PendingView> {
        views(self.pending@)
    }

    /// Whether `other` differs from this engine at most in its channels
    /// with clients.
    pub open spec fn same_but_clients(&self, other: &Self) -> bool {
        &&& self.signing_keypair == other.signing_keypair
        &&& self.peers() == other.peers()
        &&& self.directory() == other.directory()
        &&& self.pending() == other.pending()
    }

    /// Whether `other` differs from this engine at most in its channels
    /// with peers and its pending handshakes.
    pub open spec fn same_but_peers(&self, other: &Self) -> bool {
        &&& self.signing_keypair == other.signing_keypair
        &&& self.clients() == other.clients()
        &&& self.directory() == other.directory()
    }

    /// An engine with the given identity, no channel and no known peer.
    pub fn new(signing_keypair: Ed25519Pair) -> (enclave: Self)
        ensures
            enclave.signing_keypair == signing_keypair,
            enclave.clients() == SessionsView::empty(),
            enclave.peers() == SessionsView::empty(),
            enclave.directory() == Seq::<KnownPeerView>::empty(),
            enclave.pending() == Seq::<PendingView>::empty(),
    {
        let enclave = ConsensusServiceMockEnclave {
            signing_keypair,
            clients: SessionTable::new(),
            peers: SessionTable::new(),
            directory: Vec::new(),
            pending: Vec::new(),
        };
        assert(views(enclave.directory@) =~= Seq::<KnownPeerView>::empty());
        assert(views(enclave.pending@) =~= Seq::<PendingView>::empty());
        enclave
    }

    /// Establishes the signing identity and hands out its sealed form.
    ///
    /// Without sealed key material a new keypair is generated. With it, the
    /// keypair is restored, unless the material is corrupt: then nothing
    /// changes.
    pub fn enclave_init(
        &mut self,
        _self_peer_id: &ResponderId,
        _self_client_id: &ResponderId,
        sealed_key: &Option<Vec<u8>>,
    ) -> (r: Result<Vec<u8>, Error>)
        ensures
            final(self).clients() == old(self).clients(),
            final(self).peers() == old(self).peers(),
            final(self).directory() == old(self).directory(),
            final(self).pending() == old(self).pending(),
            match r {
                Ok(sealed) => {
                    &&& sealed_key_intact(sealed@)
                    &&& sealed@ == final(self).signing_keypair.secret() + final(self).signing_keypair.public()@
                    &&& sealed_key matches Some(given) ==> sealed@ == given@
                },
                Err(e) => {
                    &&& e == Error::SealOperationFailed
                    &&& sealed_key matches Some(given) && !sealed_key_intact(given@)
                    &&& final(self).signing_keypair == old(self).signing_keypair
                },
            },
    {
        match sealed_key {
            Some(given) => {
                match Ed25519Pair::unseal(given.as_slice()) {
                    Ok(pair) => {
                        let sealed = pair.seal();
                        self.signing_keypair = pair;
                        Ok(sealed)
                    },
                    Err(_) => Err(Error::SealOperationFailed),
                }
            },
            None => {
                let pair = Ed25519Pair::generate();
                let sealed = pair.seal();
                self.signing_keypair = pair;
                Ok(sealed)
            },
        }
    }

    /// Makes the signing key of a peer known under its name, unless the name
    /// is already taken.
    ///
    /// Returns whether the peer was added.
    pub fn trust_peer(&mut self, node_id: ResponderId, public_key: [u8; 32]) -> (added: bool)
        ensures
            added == known_key(old(self).directory(), node_id@).is_none(),
            final(self).directory() == if added {
                old(self).directory().push(KnownPeerView { id: node_id@, public_key })
            } else {
                old(self).directory()
            },
            added ==> known_key(final(self).directory(), node_id@) == Some(public_key),
            final(self).signing_keypair == old(self).signing_keypair,
            final(self).clients() == old(self).clients(),
            final(self).peers() == old(self).peers(),
            final(self).pending() == old(self).pending(),
    {
        if find_key(&self.directory, &node_id).is_some() {
            return false;
        }
        let ghost before = views(self.directory@);
        let ghost added = KnownPeerView { id: node_id@, public_key };
        self.directory.push(KnownPeer { id: node_id, public_key });
        proof {
            assert(views(self.directory@) =~= before.push(added));
            known_key_after_push(before, added, added.id);
        }
        true
    }

    /// Answers a client's request to open a channel.
    ///
    /// The request is turned away if it is not 32 bytes long or if its key
    /// share was presented before. Otherwise a channel is opened under the
    /// key share, and the answer is this node's signature over the request.
    pub fn client_accept(&mut self, req: ClientAuthRequest) -> (r: Result<
        (ClientAuthResponse, ClientSession),
        Error,
    >)
        ensures
            old(self).same_but_clients(final(self)),
            match r {
                Ok((response, session)) => {
                    &&& !request_rejected(old(self).clients(), req.0@)
                    &&& session.0@ == req.0@
                    &&& final(self).clients() == old(self).clients().registered(session.0)
                    &&& response.0@ == ed25519_signature(
                        old(self).signing_keypair.secret(),
                        req.0@,
                    )
                    &&& ed25519_verifies(
                        old(self).signing_keypair.public()@,
                        req.0@,
                        response.0@,
                    )
                },
                Err(e) => {
                    &&& e == Error::HandshakeRejected
                    &&& request_rejected(old(self).clients(), req.0@)
                    &&& final(self).clients() == old(self).clients()
                },
            },
    {
        match accept_into(&self.signing_keypair, &mut self.clients, &req.0) {
            Ok((response, id)) => Ok((ClientAuthResponse(response), ClientSession(id))),
            Err(e) => Err(e),
        }
    }

    /// Closes a channel with a client. Closing a channel that is not open
    /// changes nothing and is no error.
    pub fn client_close(&mut self, channel_id: ClientSession) -> (r: Result<(), Error>)
        ensures
            r.is_ok(),
            old(self).same_but_clients(final(self)),
            final(self).clients() == old(self).clients().closed(channel_id.0),
    {
        self.clients.close(&channel_id.0);
        Ok(())
    }

    /// Drops a message from a client without looking into it. Fails if the
    /// channel is not open.
    pub fn client_discard_message(&self, msg: EnclaveMessage<ClientSession>) -> (r: Result<
        (),
        Error,
    >)
        ensures
            r == if self.clients().open.contains(msg.channel_id.0) {
                Ok::<(), Error>(())
            } else {
                Err::<(), Error>(Error::SessionClosed)
            },
    {
        if self.clients.is_open(&msg.channel_id.0) {
            Ok(())
        } else {
            Err(Error::SessionClosed)
        }
    }

    /// Begins a handshake toward the peer named `node_id`.
    ///
    /// Fails if no signing key is known for the peer. Otherwise the request
    /// is a fresh key share, and the handshake is remembered until the peer
    /// answers.
    pub fn peer_init(&mut self, node_id: &ResponderId) -> (r: Result<PeerAuthRequest, Error>)
        ensures
            old(self).same_but_peers(final(self)),
            final(self).peers() == old(self).peers(),
            match r {
                Ok(request) => {
                    &&& known_key(old(self).directory(), node_id@).is_some()
                    &&& well_formed_request(request.0@)
                    &&& final(self).pending() == old(self).pending().push(
                        PendingView { peer: node_id@, key_share: array32(request.0@) },
                    )
                },
                Err(e) => {
                    &&& e == Error::IdentityUnknown
                    &&& known_key(old(self).directory(), node_id@).is_none()
                    &&& final(self).pending() == old(self).pending()
                },
            },
    {
        if find_key(&self.directory, node_id).is_none() {
            return Err(Error::IdentityUnknown);
        }
        let key_share = fresh_public();
        let ghost before = views(self.pending@);
        self.pending.push(PendingHandshake { peer: ResponderId(node_id.0.clone()), key_share });
        proof {
            array32_of_view(key_share);
            assert(views(self.pending@) =~= before.push(
                PendingView { peer: node_id@, key_share },
            ));
        }
        Ok(PeerAuthRequest(bytes_of(&key_share)))
    }

    /// Answers a peer's request to open a channel, as `client_accept` does
    /// for a client.
    pub fn peer_accept(&mut self, req: PeerAuthRequest) -> (r: Result<
        (PeerAuthResponse, PeerSession),
        Error,
    >)
        ensures
            old(self).same_but_peers(final(self)),
            final(self).pending() == old(self).pending(),
            match r {
                Ok((response, session)) => {
                    &&& !request_rejected(old(self).peers(), req.0@)
                    &&& session.0@ == req.0@
                    &&& final(self).peers() == old(self).peers().registered(session.0)
                    &&& response.0@ == ed25519_signature(
                        old(self).signing_keypair.secret(),
                        req.0@,
                    )
                    &&& ed25519_verifies(
                        old(self).signing_keypair.public()@,
                        req.0@,
                        response.0@,
                    )
                },
                Err(e) => {
                    &&& e == Error::HandshakeRejected
                    &&& request_rejected(old(self).peers(), req.0@)
                    &&& final(self).peers() == old(self).peers()
                },
            },
    {
        match accept_into(&self.signing_keypair, &mut self.peers, &req.0) {
            Ok((response, id)) => Ok((PeerAuthResponse(response), PeerSession(id))),
            Err(e) => Err(e),
        }
    }

    /// Completes a handshake that this node began toward `node_id`.
    ///
    /// The answer must be the peer's signature over the key share of a
    /// handshake pending toward it; the first such handshake is completed,
    /// and its key share names the channel. Anything else is turned away
    /// and changes nothing.
    pub fn peer_connect(&mut self, node_id: &ResponderId, msg: PeerAuthResponse) -> (r: Result<
        PeerSession,
        Error,
    >)
        ensures
            old(self).same_but_peers(final(self)),
            match r {
                Ok(session) => {
                    &&& known_key(old(self).directory(), node_id@) matches Some(key)
                    &&& exists|i: int|
                        {
                            &&& #[trigger] first_answered(
                                old(self).pending(),
                                node_id@,
                                key,
                                msg.0@,
                                i,
                            )
                            &&& session.0 == old(self).pending()[i].key_share
                            &&& !old(self).peers().used.contains(session.0)
                            &&& final(self).pending() == old(self).pending().remove(i)
                            &&& final(self).peers() == old(self).peers().registered(session.0)
                        }
                },
                Err(e) => {
                    &&& e == Error::HandshakeRejected
                    &&& final(self).pending() == old(self).pending()
                    &&& final(self).peers() == old(self).peers()
                    &&& match known_key(old(self).directory(), node_id@) {
                        None => true,
                        Some(key) => unanswered(old(self).pending(), node_id@, key, msg.0@)
                            || exists|i: int|
                            #[trigger] first_answered(
                                old(self).pending(),
                                node_id@,
                                key,
                                msg.0@,
                                i,
                            ) && old(self).peers().used.contains(old(self).pending()[i].key_share),
                    }
                },
            },
    {
        let key = match find_key(&self.directory, node_id) {
            Some(key) => key,
            None => { return Err(Error::HandshakeRejected); },
        };
        let i = match find_answered(&self.pending, node_id, &key, &msg.0) {
            Some(i) => i,
            None => { return Err(Error::HandshakeRejected); },
        };
        let ghost before = views(self.pending@);
        let id = self.pending[i].key_share;
        assert(before[i as int] == self.pending@[i as int]@);
        if !self.peers.register(id) {
            return Err(Error::HandshakeRejected);
        }
        self.pending.remove(i);
        proof {
            assert(views(self.pending@) =~= before.remove(i as int));
            assert(before == old(self).pending());
            assert(first_answered(old(self).pending(), node_id@, key, msg.0@, i as int));
            assert(id == old(self).pending()[i as int].key_share);
            assert(self.pending() == old(self).pending().remove(i as int));
            assert(self.peers() == old(self).peers().registered(id));
        }
        Ok(PeerSession(id))
    }

    /// Closes a channel with a peer. Closing a channel that is not open
    /// changes nothing and is no error.
    pub fn peer_close(&mut self, msg: &PeerSession) -> (r: Result<(), Error>)
        ensures
            r.is_ok(),
            old(self).same_but_peers(final(self)),
            final(self).pending() == old(self).pending(),
            final(self).peers() == old(self).peers().closed(msg.0),
    {
        self.peers.close(&msg.0);
        Ok(())
    }

    /// Takes a transaction that a client submitted on an open channel and
    /// summarizes it.
    pub fn client_tx_propose(&self, msg: EnclaveMessage<ClientSession>) -> (r: Result<
        TxContext,
        Error,
    >)
        ensures
            match r {
                Ok(context) => {
                    &&& self.clients().open.contains(msg.channel_id.0)
                    &&& decoded(msg.data@) matches Some(tx)
                    &&& context.summarizes(tx)
                },
                Err(e) => proposal_error(
                    self.clients().open.contains(msg.channel_id.0),
                    msg.data@,
                ) == Some(e),
            },
    {
        if !self.clients.is_open(&msg.channel_id.0) {
            return Err(Error::SessionClosed);
        }
        match decode(msg.data.as_slice()) {
            Some(tx) => Ok(Self::tx_to_tx_context(&tx)),
            None => Err(Error::MalformedTransaction),
        }
    }

    /// Takes the transactions that a peer relayed on an open channel and
    /// summarizes each. One payload that is no transaction rejects them all.
    pub fn peer_tx_propose(&self, msg: EnclaveMessage<PeerSession>) -> (r: Result<
        Vec<TxContext>,
        Error,
    >)
        ensures
            match r {
                Ok(contexts) => {
                    &&& self.peers().open.contains(msg.channel_id.0)
                    &&& relayed_batch(msg.data@) matches Some(txs)
                    &&& contexts@.len() == txs.len()
                    &&& forall|i: int|
                        0 <= i < txs.len() ==> (#[trigger] contexts@[i]).summarizes(txs[i])
                },
                Err(e) => {
                    &&& e == if self.peers().open.contains(msg.channel_id.0) {
                        Error::MalformedTransaction
                    } else {
                        Error::SessionClosed
                    }
                    &&& self.peers().open.contains(msg.channel_id.0) ==> relayed_batch(
                        msg.data@,
                    ).is_none()
                },
            },
    {
        if !self.peers.is_open(&msg.channel_id.0) {
            return Err(Error::SessionClosed);
        }
        assert(msg.data@.skip(0) =~= msg.data@);
        let (blobs, next) = match take_list::<WellFormedEncryptedTx>(msg.data.as_slice(), 0) {
            Some(p) => p,
            None => { return Err(Error::MalformedTransaction); },
        };
        if next != msg.data.len() {
            return Err(Error::MalformedTransaction);
        }
        match summarize_all(&blobs) {
            Some(contexts) => Ok(contexts),
            None => Err(Error::MalformedTransaction),
        }
    }

    /// Packs checked transactions into a message for a peer on an open
    /// channel. What `peer_tx_propose` reads from the message is the same
    /// list of blobs.
    pub fn txs_for_peer(
        &self,
        encrypted_txs: &[WellFormedEncryptedTx],
        aad: &[u8],
        peer: &PeerSession,
    ) -> (r: Result<EnclaveMessage<PeerSession>, Error>)
        ensures
            match r {
                Ok(message) => {
                    &&& self.peers().open.contains(peer.0)
                    &&& message.aad@ == aad@
                    &&& message.channel_id == *peer
                    &&& message.data@ == written_list(views(encrypted_txs@))
                    &&& read_list::<Seq<u8>>(message.data@) == Some(
                        (views(encrypted_txs@), Seq::<u8>::empty()),
                    )
                },
                Err(e) => e == Error::SessionClosed && !self.peers().open.contains(peer.0),
            },
    {
        if !self.peers.is_open(&peer.0) {
            return Err(Error::SessionClosed);
        }
        let mut data: Vec<u8> = Vec::new();
        put_list(&mut data, encrypted_txs);
        proof {
            let blobs = views(encrypted_txs@);
            assert(data@ =~= written_list(blobs));
            read_list_of_written(blobs, Seq::<u8>::empty());
            assert(written_list(blobs) + Seq::<u8>::empty() =~= written_list(blobs));
        }
        Ok(EnclaveMessage { aad: vstd::slice::slice_to_vec(aad), channel_id: *peer, data })
    }

    /// Summarizes a transaction for the untrusted side and wraps its
    /// encoding as the local blob.
    pub fn tx_to_tx_context(tx: &Tx) -> (context: TxContext)
        ensures
            context.summarizes(tx@),
            decoded(context.locally_encrypted_tx.0@) == Some(tx@),
    {
        let locally_encrypted_tx = LocallyEncryptedTx(encode(tx));
        let tx_hash = tx.tx_hash();
        let highest_indices = tx.get_membership_proof_highest_indices();
        let key_images = tx.key_images();
        let output_public_keys = tx.output_public_keys();
        TxContext { locally_encrypted_tx, tx_hash, highest_indices, key_images, output_public_keys }
    }

    /// The public key of an ephemeral encryption keypair.
    pub fn get_identity(&self) -> (r: Result<[u8; 32], Error>)
        ensures
            r matches Ok(key) && key@ == x25519_public_from_hc128(DEFAULT_IDENTITY_SEED),
    {
        Ok(ephemeral_public(DEFAULT_IDENTITY_SEED))
    }

    /// The public key under which this node signs blocks.
    pub fn get_signer(&self) -> (r: Result<[u8; 32], Error>)
        ensures
            r matches Ok(key) && key == self.signing_keypair.public() && key@
                == ed25519_public_key(self.signing_keypair.secret()),
    {
        Ok(self.signing_keypair.public_key())
    }

    /// Opens a local blob, checks the transaction for block `block_index`
    /// and, if it passes, hands it out in relayable form with its summary.
    pub fn tx_is_well_formed(
        &self,
        locally_encrypted_tx: LocallyEncryptedTx,
        block_index: u64,
        proofs: Vec<TxOutMembershipProof>,
        checks: ExternalChecks,
    ) -> (r: Result<(WellFormedEncryptedTx, WellFormedTxContext), Error>)
        ensures
            match r {
                Ok((well_formed, context)) => {
                    &&& decoded(locally_encrypted_tx.0@) matches Some(tx)
                    &&& validation_outcome(tx, block_index, views(proofs@), checks).is_none()
                    &&& well_formed.0@ == locally_encrypted_tx.0@
                    &&& context.summarizes(tx)
                },
                Err(e) => well_formed_error(
                    locally_encrypted_tx.0@,
                    block_index,
                    views(proofs@),
                    checks,
                ) == Some(e),
            },
    {
        let tx = match decode(locally_encrypted_tx.0.as_slice()) {
            Some(tx) => tx,
            None => { return Err(Error::DecryptionFailed); },
        };
        match validate(&tx, block_index, &proofs, &checks) {
            Err(failure) => { return Err(Error::TransactionValidationFailed(failure)); },
            Ok(()) => {},
        }
        let context = WellFormedTxContext::from_tx(&tx);
        Ok((WellFormedEncryptedTx(locally_encrypted_tx.0), context))
    }

    /// Opens every entry: `None` as soon as one blob is no transaction.
    fn open_entries(entries: &[BlockEntry]) -> (r: Option<Vec<Candidate>>)
        ensures
            match r {
                Some(batch) => all_open(entries@) && views(batch@) == opened(entries@),
                None => !all_open(entries@),
            },
    {
        let mut batch: Vec<Candidate> = Vec::new();
        let n = entries.len();
        let mut i: usize = 0;
        while i < n
            invariant
                i <= n,
                n == entries@.len(),
                batch@.len() == i,
                forall|k: int|
                    0 <= k < i ==> (#[trigger] entry_candidate(entries@[k])) == Some(batch@[k]@),
            decreases n - i,
        {
            let entry = &entries[i];
            let tx = match decode(entry.0.0.as_slice()) {
                Some(tx) => tx,
                None => {
                    assert(entry_candidate(entries@[i as int]).is_none());
                    return None;
                },
            };
            let mut proofs: Vec<TxOutMembershipProof> = Vec::new();
            let m = entry.1.len();
            let mut j: usize = 0;
            while j < m
                invariant
                    j <= m,
                    m == entry.1@.len(),
                    proofs@.len() == j,
                    views(proofs@) == views(entry.1@).subrange(0, j as int),
                decreases m - j,
            {
                let ghost before = proofs@;
                proofs.push(entry.1[j].duplicate());
                proof {
                    let target = views(entry.1@).subrange(0, j + 1);
                    assert forall|k: int| 0 <= k < j + 1 implies views(proofs@)[k]
                        == target[k] by {
                        if k < j {
                            assert(views(before)[k] == views(entry.1@).subrange(0, j as int)[k]);
                            assert(proofs@[k] == before[k]);
                        }
                    }
                    assert(views(proofs@) =~= target);
                }
                j += 1;
            }
            assert(views(entry.1@).subrange(0, m as int) =~= views(entry.1@));
            batch.push(Candidate { tx, proofs, checks: entry.2 });
            i += 1;
        }
        assert(views(batch@) =~= opened(entries@));
        Some(batch)
    }

    /// Forms and signs the block that follows `parent_block`.
    ///
    /// Every entry is opened and checked again for the new block's index;
    /// the first failure rejects the whole batch. All proofs of the batch
    /// must end in one and the same root. The contents are the key images
    /// and outputs of all transactions in the order given; the signature is
    /// this node's, over the hash of the new header.
    pub fn form_block(&self, parent_block: &Block, encrypted_txs_with_proofs: &[BlockEntry]) -> (r:
        Result<(Block, BlockContents, BlockSignature), Error>)
        requires
            parent_block.index < u64::MAX,
        ensures
            match r {
                Ok((block, contents, signature)) => {
                    let batch = opened(encrypted_txs_with_proofs@);
                    &&& form_block_error(
                        encrypted_txs_with_proofs@,
                        (parent_block.index + 1) as u64,
                    ).is_none()
                    &&& contents@ == batch_contents(batch)
                    &&& block.follows(BLOCK_VERSION, *parent_block, batch_roots(batch)[0], contents@)
                    &&& signature.signs(block, self.signing_keypair)
                    &&& signature.verifies(block)
                },
                Err(e) => form_block_error(
                    encrypted_txs_with_proofs@,
                    (parent_block.index + 1) as u64,
                ) == Some(e),
            },
    {
        let batch = match Self::open_entries(encrypted_txs_with_proofs) {
            Some(batch) => batch,
            None => { return Err(Error::DecryptionFailed); },
        };
        form_block_from(&self.signing_keypair, parent_block, &batch)
    }
}

/// Why a local blob is not handed on as well-formed, or `None` when it is:
/// the blob does not open, or the transaction breaks a rule.
pub open spec fn well_formed_error(
    blob: Seq<u8>,
    block_index: u64,
    proofs: Seq<ProofView>,
    checks: ExternalChecks,
) -> Option<Error> {
    match decoded(blob) {
        None => Some(Error::DecryptionFailed),
        Some(tx) => match validation_outcome(tx, block_index, proofs, checks) {
            Some(failure) => Some(Error::TransactionValidationFailed(failure)),
            None => None,
        },
    }
}

/// Root consistency: when every entry opens and passes on its own, and two
/// proofs anywhere among the entries end in different roots, no block is
/// formed and the error names the roots.
pub proof fn two_roots_fail_form_block(
    entries: Seq<BlockEntry>,
    block_index: u64,
    a: int,
    i: int,
    b: int,
    j: int,
)
    requires
        all_open(entries),
        first_failure(opened(entries), block_index).is_none(),
        0 <= a < entries.len(),
        0 <= i < entries[a].1@.len(),
        0 <= b < entries.len(),
        0 <= j < entries[b].1@.len(),
        entries[a].1@[i]@.root() != entries[b].1@[j]@.root(),
    ensures
        form_block_error(entries, block_index) == Some(Error::InconsistentMembershipRoot),
{
    let batch = opened(entries);
    assert(batch[a].proofs[i] == entries[a].1@[i]@);
    assert(batch[b].proofs[j] == entries[b].1@[j]@);
    two_roots_reject(batch, block_index, a, i, b, j);
}

/// A proof whose root differs from that of another proof among the entries
/// makes the whole call fail: no block is formed, not even in part.
pub proof fn mismatched_proof_fails_form_block(
    entries: Seq<BlockEntry>,
    block_index: u64,
    a: int,
    i: int,
    b: int,
    j: int,
)
    requires
        0 <= a < entries.len(),
        0 <= i < entries[a].1@.len(),
        0 <= b < entries.len(),
        0 <= j < entries[b].1@.len(),
        entries[a].1@[i]@.root() != entries[b].1@[j]@.root(),
    ensures
        form_block_error(entries, block_index).is_some(),
{
    if all_open(entries) {
        let batch = opened(entries);
        assert(entry_candidate(entries[a]).is_some());
        assert(entry_candidate(entries[b]).is_some());
        assert(batch[a].proofs[i] == entries[a].1@[i]@);
        assert(batch[b].proofs[j] == entries[b].1@[j]@);
        mismatched_proof_rejects(batch, block_index, a, i, b, j);
    }
}

/// The blob of an ingested transaction opens to that transaction, so the
/// check accepts or rejects it by the rules alone, and the summary of an
/// accepted blob is the summary of the transaction that went in.
pub proof fn ingested_blob_is_checked_as_its_transaction(
    tx: TxView,
    block_index: u64,
    proofs: Seq<ProofView>,
    checks: ExternalChecks,
)
    requires
        tx.fits(),
    ensures
        decoded(encoded(tx)) == Some(tx),
        well_formed_error(encoded(tx), block_index, proofs, checks) == match validation_outcome(
            tx,
            block_index,
            proofs,
            checks,
        ) {
            Some(failure) => Some(Error::TransactionValidationFailed(failure)),
            None => None,
        },
{
    decode_of_encode(tx);
}

/// A channel that was closed is refused for messages, whatever they carry.
pub proof fn closed_channel_is_refused(table: SessionsView, id: [u8; 32], data: Seq<u8>)
    ensures
        proposal_error(table.closed(id).open.contains(id), data) == Some(Error::SessionClosed),
{
}

/// The key share of a channel cannot open a channel again, whether the
/// first one is still open or was closed.
pub proof fn used_key_share_is_rejected(table: SessionsView, id: [u8; 32])
    ensures
        request_rejected(table.registered(id), id@),
        request_rejected(table.registered(id).closed(id), id@),
{
    array32_of_view(id);
}

} // verus!
