//! The node's signing identity and its ephemeral encryption key.
//!
//! Key material lives here as plain bytes. The curve arithmetic is done by
//! `ed25519-dalek` and `x25519-dalek`; each call into them is a small trusted
//! function whose contract names the result.

use vstd::prelude::*;
use crate::error::Error;

verus! {

/// The Ed25519 public key that belongs to the 32-byte secret `seed`.
pub uninterp spec fn ed25519_public_key(seed: Seq<u8>) -> Seq<u8>;

/// The Ed25519 signature of `message` under the secret `seed`.
pub uninterp spec fn ed25519_signature(seed: Seq<u8>, message: Seq<u8>) -> Seq<u8>;

/// Whether `signature` is accepted for `message` under `public_key`.
pub uninterp spec fn ed25519_verifies(
    public_key: Seq<u8>,
    message: Seq<u8>,
    signature: Seq<u8>,
) -> bool;

/// The secret that key generation draws from the HC-128 stream seeded with
/// `rng_seed`.
pub uninterp spec fn ed25519_seed_from_hc128(rng_seed: u64) -> Seq<u8>;

/// The X25519 public key of the ephemeral secret drawn from the HC-128
/// stream seeded with `rng_seed`.
pub uninterp spec fn x25519_public_from_hc128(rng_seed: u64) -> Seq<u8>;

/// Runs `ed25519_dalek::SigningKey::generate` on an `Hc128Rng` made by
/// `seed_from_u64`, and hands out the secret bytes.
///
/// Trusted: a seeded HC-128 stream is the same on every run, so the secret
/// is a function of `rng_seed` alone.
#[verifier::external_body]
fn generate_seed(rng_seed: u64) -> (seed: [u8; 32])
    ensures
        seed@ == ed25519_seed_from_hc128(rng_seed),
{
    let mut csprng = <rand_hc::Hc128Rng as rand_core::SeedableRng>::seed_from_u64(rng_seed);
    ed25519_dalek::SigningKey::generate(&mut csprng).to_bytes()
}

/// Runs `ed25519_dalek::SigningKey::generate` on `mc_rand::McRng`.
///
/// Trusted: nothing is claimed of the bytes, which come from the machine's
/// entropy source.
#[verifier::external_body]
fn fresh_seed() -> (seed: [u8; 32]) {
    ed25519_dalek::SigningKey::generate(&mut mc_rand::McRng::default()).to_bytes()
}

/// Derives the public key with `ed25519_dalek::SigningKey::from_bytes` and
/// `verifying_key`.
///
/// Trusted: the public key is a function of the secret bytes alone.
#[verifier::external_body]
fn derive_public(seed: &[u8; 32]) -> (public: [u8; 32])
    ensures
        public@ == ed25519_public_key(seed@),
{
    ed25519_dalek::SigningKey::from_bytes(seed).verifying_key().to_bytes()
}

/// Signs with `ed25519_dalek::Signer::sign` on the key rebuilt from `seed`.
///
/// Trusted: Ed25519 signing is deterministic in key and message, and a
/// signature made this way is accepted under the key's own public key.
#[verifier::external_body]
fn sign_with_seed(seed: &[u8; 32], message: &[u8]) -> (signature: [u8; 64])
    ensures
        signature@ == ed25519_signature(seed@, message@),
        ed25519_verifies(ed25519_public_key(seed@), message@, signature@),
{
    let key = ed25519_dalek::SigningKey::from_bytes(seed);
    ed25519_dalek::Signer::sign(&key, message).to_bytes()
}

/// Checks a signature with `ed25519_dalek::Verifier::verify`, after parsing
/// the key with `VerifyingKey::from_bytes` and the signature with
/// `Signature::from_slice`.
///
/// Trusted: the verdict is a function of the three byte strings alone; a key
/// that is no curve point and a signature that is not 64 bytes long are
/// rejected.
#[verifier::external_body]
pub(crate) fn verify_with_key(public_key: &[u8; 32], message: &[u8], signature: &[u8]) -> (ok: bool)
    ensures
        ok == ed25519_verifies(public_key@, message@, signature@),
{
    match (
        ed25519_dalek::VerifyingKey::from_bytes(public_key),
        ed25519_dalek::Signature::from_slice(signature),
    ) {
        (Ok(key), Ok(parsed)) => ed25519_dalek::Verifier::verify(&key, message, &parsed).is_ok(),
        _ => false,
    }
}

/// Draws an `x25519_dalek::EphemeralSecret` with `random_from_rng` on
/// `mc_rand::McRng`, and hands out its public key.
///
/// Trusted: nothing is claimed of the bytes, which come from the machine's
/// entropy source.
#[verifier::external_body]
pub(crate) fn fresh_public() -> (public: [u8; 32]) {
    let secret = x25519_dalek::EphemeralSecret::random_from_rng(mc_rand::McRng::default());
    x25519_dalek::PublicKey::from(&secret).to_bytes()
}

/// Draws an `x25519_dalek::EphemeralSecret` with `random_from_rng` on an
/// `Hc128Rng` made by `seed_from_u64`, and hands out its public key.
///
/// Trusted: the key is a function of `rng_seed` alone.
#[verifier::external_body]
pub(crate) fn ephemeral_public(rng_seed: u64) -> (public: [u8; 32])
    ensures
        public@ == x25519_public_from_hc128(rng_seed),
{
    let csprng = <rand_hc::Hc128Rng as rand_core::SeedableRng>::seed_from_u64(rng_seed);
    let secret = x25519_dalek::EphemeralSecret::random_from_rng(csprng);
    x25519_dalek::PublicKey::from(&secret).to_bytes()
}

/// An Ed25519 keypair. The secret half never leaves this type except inside
/// sealed key material.
pub struct Ed25519Pair {
    seed: [u8; 32],
    public: [u8; 32],
}

impl Clone for Ed25519Pair {
    fn clone(&self) -> (copy: Self)
        ensures
            copy == *self,
    {
        proof {
            use_type_invariant(self);
        }
        Ed25519Pair { seed: self.seed, public: self.public }
    }
}

/// Byte length of sealed key material: the secret, then the public key.
pub const SEALED_KEY_LEN: usize = 64;

/// Whether `sealed` is intact: 64 bytes whose second half is the public key
/// of the first half.
pub open spec fn sealed_key_intact(sealed: Seq<u8>) -> bool {
    &&& sealed.len() == 64
    &&& sealed.subrange(32, 64) == ed25519_public_key(sealed.subrange(0, 32))
}

impl Ed25519Pair {
    #[verifier::type_invariant]
    spec fn halves_match(self) -> bool {
        self.public@ == ed25519_public_key(self.seed@)
    }

    /// The secret bytes.
    pub closed spec fn secret(&self) -> Seq<u8> {
        self.seed@
    }

    /// The public key.
    pub closed spec fn public(&self) -> [u8; 32] {
        self.public
    }

    /// The keypair of the given secret.
    pub fn from_seed(seed: [u8; 32]) -> (pair: Self)
        ensures
            pair.secret() == seed@,
            pair.public()@ == ed25519_public_key(seed@),
    {
        let public = derive_public(&seed);
        Ed25519Pair { seed, public }
    }

    /// The keypair that a generator seeded with `rng_seed` yields; the same
    /// seed always gives the same keypair.
    pub fn from_random(rng_seed: u64) -> (pair: Self)
        ensures
            pair.secret() == ed25519_seed_from_hc128(rng_seed),
            pair.public()@ == ed25519_public_key(ed25519_seed_from_hc128(rng_seed)),
    {
        Self::from_seed(generate_seed(rng_seed))
    }

    /// A keypair from the machine's entropy source.
    pub fn generate() -> (pair: Self)
        ensures
            pair.public()@ == ed25519_public_key(pair.secret()),
    {
        Self::from_seed(fresh_seed())
    }

    /// The public key.
    pub fn public_key(&self) -> (key: [u8; 32])
        ensures
            key == self.public(),
            key@ == ed25519_public_key(self.secret()),
    {
        proof {
            use_type_invariant(self);
        }
        self.public
    }

    /// Signs `message`. The signature is accepted under `public_key()`.
    pub fn sign(&self, message: &[u8]) -> (signature: [u8; 64])
        ensures
            signature@ == ed25519_signature(self.secret(), message@),
            ed25519_verifies(self.public()@, message@, signature@),
    {
        proof {
            use_type_invariant(self);
        }
        sign_with_seed(&self.seed, message)
    }

    /// Seals the keypair: 64 bytes, the secret followed by the public key.
    ///
    /// The sealed form is not encrypted: whoever holds it holds the key, so
    /// it must be kept as the key itself would be.
    pub fn seal(&self) -> (sealed: Vec<u8>)
        ensures
            sealed@ == self.secret() + self.public()@,
            sealed_key_intact(sealed@),
    {
        proof {
            use_type_invariant(self);
        }
        let mut sealed: Vec<u8> = Vec::new();
        crate::wire::put_array32(&mut sealed, &self.seed);
        crate::wire::put_array32(&mut sealed, &self.public);
        assert(sealed@.subrange(0, 32) =~= self.seed@);
        assert(sealed@.subrange(32, 64) =~= self.public@);
        sealed
    }

    /// Restores a keypair from sealed key material, which is rejected unless
    /// it is intact.
    pub fn unseal(sealed: &[u8]) -> (r: Result<Self, Error>)
        ensures
            match r {
                Ok(pair) => sealed_key_intact(sealed@) && sealed@ == pair.secret() + pair.public()@,
                Err(e) => !sealed_key_intact(sealed@) && e == Error::SealOperationFailed,
            },
    {
        if sealed.len() != SEALED_KEY_LEN {
            return Err(Error::SealOperationFailed);
        }
        let (seed, mid) = match crate::wire::take_array32(sealed, 0) {
            Some(p) => p,
            None => { return Err(Error::SealOperationFailed); },
        };
        let (claimed, _end) = match crate::wire::take_array32(sealed, mid) {
            Some(p) => p,
            None => { return Err(Error::SealOperationFailed); },
        };
        let public = derive_public(&seed);
        assert(sealed@ =~= seed@ + claimed@);
        assert(sealed@.subrange(0, 32) =~= seed@);
        assert(sealed@.subrange(32, 64) =~= claimed@);
        assert(claimed@ == public@ ==> claimed =~= public);
        if !crate::wire::array32_eq(&claimed, &public) {
            return Err(Error::SealOperationFailed);
        }
        Ok(Ed25519Pair { seed, public })
    }
}

} // verus!
