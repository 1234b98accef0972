//! Handshake messages, and what a node remembers between the steps of a
//! handshake with a peer.
//!
//! A request carries a 32-byte key share, which becomes the identifier of
//! the channel. The answer is the responder's signature over the request, so
//! the side that began the handshake can tell that the answer comes from the
//! peer it named.

use vstd::prelude::*;
use crate::keys::ed25519_verifies;

verus! {

/// The name under which a node answers, such as `host:port`.
#[derive(Clone, Debug, PartialEq, Eq)]
pub struct ResponderId(pub String);

/// A client's request to open a channel.
#[derive(Clone, Debug, PartialEq, Eq)]
pub struct ClientAuthRequest(pub Vec<u8>);

/// The answer to a client's request.
#[derive(Clone, Debug, PartialEq, Eq)]
pub struct ClientAuthResponse(pub Vec<u8>);

/// A peer's request to open a channel.
#[derive(Clone, Debug, PartialEq, Eq)]
pub struct PeerAuthRequest(pub Vec<u8>);

/// The answer to a peer's request.
#[derive(Clone, Debug, PartialEq, Eq)]
pub struct PeerAuthResponse(pub Vec<u8>);

/// A peer whose signing key this node knows.
#[derive(Clone, Debug, PartialEq, Eq)]
pub struct KnownPeer {
    pub id: ResponderId,
    pub public_key: [u8; 32],
}

/// A handshake that this node began and that the peer has not answered yet.
#[derive(Clone, Debug, PartialEq, Eq)]
pub struct PendingHandshake {
    pub peer: ResponderId,
    pub key_share: [u8; 32],
}

/// What a known peer holds.
pub ghost struct KnownPeerView {
    pub id: Seq<char>,
    pub public_key: [u8; 32],
}

/// What a pending handshake holds.
pub ghost struct PendingView {
    pub peer: Seq<char>,
    pub key_share: [u8; 32],
}

impl View for ResponderId {
    type V = Seq<char>;

    open spec fn view(&self) -> Seq<char> {
        self.0@
    }
}

impl View for KnownPeer {
    type V = KnownPeerView;

    open spec fn view(&self) -> KnownPeerView {
        KnownPeerView { id: self.id@, public_key: self.public_key }
    }
}

impl View for PendingHandshake {
    type V = PendingView;

    open spec fn view(&self) -> PendingView {
        PendingView { peer: self.peer@, key_share: self.key_share }
    }
}

/// Whether `request` has the form of a handshake request: 32 bytes.
pub open spec fn well_formed_request(request: Seq<u8>) -> bool {
    request.len() == 32
}

/// The key of the first peer named `id`, if one is known.
pub open spec fn known_key(directory: Seq<KnownPeerView>, id: Seq<char>) -> Option<[u8; 32]>
    decreases directory.len(),
{
    if directory.len() == 0 {
        None
    } else if directory.first().id == id {
        Some(directory.first().public_key)
    } else {
        known_key(directory.drop_first(), id)
    }
}

impl PendingView {
    /// Whether `response` answers this handshake: it was begun toward
    /// `peer`, and `response` is a signature over the key share that
    /// verifies under `key`.
    pub open spec fn answered_by(self, peer: Seq<char>, key: [u8; 32], response: Seq<u8>) -> bool {
        self.peer == peer && ed25519_verifies(key@, self.key_share@, response)
    }
}

/// Whether `i` is the first pending handshake that `response` answers.
pub open spec fn first_answered(
    pending: Seq<PendingView>,
    peer: Seq<char>,
    key: [u8; 32],
    response: Seq<u8>,
    i: int,
) -> bool {
    &&& 0 <= i < pending.len()
    &&& pending[i].answered_by(peer, key, response)
    &&& forall|k: int| 0 <= k < i ==> !(#[trigger] pending[k]).answered_by(peer, key, response)
}

/// Whether `response` answers none of the pending handshakes.
pub open spec fn unanswered(
    pending: Seq<PendingView>,
    peer: Seq<char>,
    key: [u8; 32],
    response: Seq<u8>,
) -> bool {
    forall|k: int|
        0 <= k < pending.len() ==> !(#[trigger] pending[k]).answered_by(peer, key, response)
}

} // verus!
