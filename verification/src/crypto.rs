//! Ed25519 keys and signatures, and SHA-256.

use ed25519_dalek::Signer;
use sha2::Digest;
use vstd::prelude::*;

verus! {

/// The public key that belongs to a seed.
pub uninterp spec fn ed_public(seed: Seq<u8>) -> Seq<u8>;

/// Whether 32 bytes are the encoding of a point that Ed25519 takes as a key.
pub uninterp spec fn ed_point(raw: Seq<u8>) -> bool;

/// The signature of a message under a seed.
pub uninterp spec fn ed_signature(seed: Seq<u8>, message: Seq<u8>) -> Seq<u8>;

/// Whether a signature of a message holds under a public key, by the strict
/// rules.
pub uninterp spec fn ed_verifies(key: Seq<u8>, message: Seq<u8>, signature: Seq<u8>) -> bool;

/// The SHA-256 digest of a message.
pub uninterp spec fn sha256_of(message: Seq<u8>) -> Seq<u8>;

/// The first half of the signature encodes the neutral element of the group,
/// which the strict rules refuse.
pub open spec fn neutral_commitment(signature: Seq<u8>) -> bool {
    signature.len() >= 32 && signature[0] == 1 && forall|i: int| 1 <= i < 32 ==> signature[i] == 0
}

/// `ed25519_dalek::SigningKey::from_bytes`, then `verifying_key`: the encoding
/// of the public key, which is that of a point.
#[verifier::external_body]
fn outside_public(seed: &[u8; 32]) -> (r: [u8; 32])
    ensures
        r@ == ed_public(seed@),
        ed_point(r@),
{
    ed25519_dalek::SigningKey::from_bytes(seed).verifying_key().to_bytes()
}

/// `ed25519_dalek::SigningKey::sign`: a signature that holds under the key's
/// public half, unless its first half encodes the neutral element.
#[verifier::external_body]
fn outside_sign(seed: &[u8; 32], message: &[u8]) -> (r: [u8; 64])
    ensures
        r@ == ed_signature(seed@, message@),
        !neutral_commitment(r@) ==> ed_verifies(ed_public(seed@), message@, r@),
{
    ed25519_dalek::SigningKey::from_bytes(seed).sign(message).to_bytes()
}

/// `ed25519_dalek::VerifyingKey::from_bytes`: whether the bytes encode a point.
#[verifier::external_body]
fn outside_point(raw: &[u8; 32]) -> (r: bool)
    ensures
        r == ed_point(raw@),
{
    ed25519_dalek::VerifyingKey::from_bytes(raw).is_ok()
}

/// `ed25519_dalek::VerifyingKey::verify_strict`: whether the signature holds.
#[verifier::external_body]
fn outside_verify(key: &[u8; 32], message: &[u8], signature: &[u8; 64]) -> (r: bool)
    requires
        ed_point(key@),
    ensures
        r == ed_verifies(key@, message@, signature@),
{
    let signature = ed25519_dalek::Signature::from_bytes(signature);
    ed25519_dalek::VerifyingKey::from_bytes(key).is_ok_and(
        |k| k.verify_strict(message, &signature).is_ok(),
    )
}

/// `sha2::Sha256::digest`.
#[verifier::external_body]
fn outside_sha256(message: &[u8]) -> (r: [u8; 32])
    ensures
        r@ == sha256_of(message@),
{
    sha2::Sha256::digest(message).into()
}

/// The SHA-256 digest of a message.
pub fn sha256(message: &[u8]) -> (r: [u8; 32])
    ensures
        r@ == sha256_of(message@),
{
    outside_sha256(message)
}

/// An Ed25519 public key: the encoding of a point.
#[derive(Debug, Clone, Copy, PartialEq, Eq)]
pub struct VerifyingKey {
    raw: [u8; 32],
}

impl VerifyingKey {
    #[verifier::type_invariant]
    spec fn well_formed(self) -> bool {
        ed_point(self.raw@)
    }

    /// The bytes of the key.
    pub closed spec fn view(&self) -> Seq<u8> {
        self.raw@
    }

    /// The key that the bytes encode, where they encode a point.
    pub fn from_bytes(raw: &[u8; 32]) -> (r: Option<VerifyingKey>)
        ensures
            r is Some == ed_point(raw@),
            r matches Some(k) ==> k@ == raw@,
    {
        if outside_point(raw) {
            Some(VerifyingKey { raw: *raw })
        } else {
            None
        }
    }

    /// The bytes of the key.
    pub fn to_bytes(&self) -> (r: [u8; 32])
        ensures
            r@ == self@,
            ed_point(r@),
    {
        proof {
            use_type_invariant(self);
        }
        self.raw
    }

    /// Whether the signature of the message holds under this key.
    pub fn verify_strict(&self, message: &[u8], signature: &[u8; 64]) -> (r: bool)
        ensures
            r == ed_verifies(self@, message@, signature@),
    {
        proof {
            use_type_invariant(self);
        }
        outside_verify(&self.raw, message, signature)
    }
}

/// An Ed25519 signing key: its seed, and the public key that belongs to it.
#[derive(Clone, Copy)]
pub struct SigningKey {
    seed: [u8; 32],
    public: [u8; 32],
}

impl SigningKey {
    #[verifier::type_invariant]
    spec fn well_formed(self) -> bool {
        self.public@ == ed_public(self.seed@) && ed_point(self.public@)
    }

    /// The seed.
    pub closed spec fn view(&self) -> Seq<u8> {
        self.seed@
    }

    /// The key of a seed.
    pub fn from_bytes(seed: &[u8; 32]) -> (r: SigningKey)
        ensures
            r@ == seed@,
    {
        SigningKey { seed: *seed, public: outside_public(seed) }
    }

    /// The seed of the key.
    pub fn to_bytes(&self) -> (r: [u8; 32])
        ensures
            r@ == self@,
    {
        self.seed
    }

    /// The public half of the key.
    pub fn verifying_key(&self) -> (r: VerifyingKey)
        ensures
            r@ == ed_public(self@),
    {
        proof {
            use_type_invariant(self);
        }
        VerifyingKey { raw: self.public }
    }

    /// The signature of a message.
    pub fn sign(&self, message: &[u8]) -> (r: [u8; 64])
        ensures
            r@ == ed_signature(self@, message@),
            ed_public(self@).len() == 32,
            ed_point(ed_public(self@)),
            !neutral_commitment(r@) ==> ed_verifies(ed_public(self@), message@, r@),
    {
        proof {
            use_type_invariant(self);
        }
        outside_sign(&self.seed, message)
    }
}

} // verus!
