//! Keys and signatures over secp256k1.
//!
//! Keys and signatures are held as their byte encodings: a private key as
//! the 32 bytes of its scalar, a public key as a SEC1 point, a signature as
//! the 64 bytes of `r` and `s`. The curve arithmetic is `k256`'s.

use vstd::prelude::*;

verus! {

/// The signature that `k256` makes of `message` under the private key
/// `secret`, or `None` where `secret` is no private key or signing fails.
/// Signing is deterministic: the nonce is derived from key and message.
pub uninterp spec fn ecdsa_signature(secret: Seq<u8>, message: Seq<u8>) -> Option<Seq<u8>>;

/// Whether `k256` accepts `signature` as a signature of `message` under the
/// public key `key`. False where `key` or `signature` does not parse.
pub uninterp spec fn ecdsa_verifies(key: Seq<u8>, message: Seq<u8>, signature: Seq<u8>) -> bool;

/// The SEC1 encoding of the public key that belongs to the private key
/// `secret`, or `None` where `secret` is no private key.
pub uninterp spec fn ecdsa_public_key(secret: Seq<u8>) -> Option<Seq<u8>>;

/// Parses the key with `SigningKey::from_slice`, signs with
/// `Signer::try_sign` and returns `Signature::to_vec`.
#[verifier::external_body]
fn sign_bytes(secret: &[u8], message: &[u8]) -> (r: Option<Vec<u8>>)
    ensures
        match r {
            Some(s) => ecdsa_signature(secret@, message@) == Some(s@),
            None => ecdsa_signature(secret@, message@) is None,
        },
{
    let key = k256::ecdsa::SigningKey::from_slice(secret).ok()?;
    let signature: k256::ecdsa::Signature = ecdsa::signature::Signer::try_sign(&key, message).ok()?;
    Some(signature.to_vec())
}

/// Parses the key with `VerifyingKey::from_sec1_bytes` and the signature
/// with `Signature::from_slice`, then asks `Verifier::verify`.
#[verifier::external_body]
fn verify_bytes(key: &[u8], message: &[u8], signature: &[u8]) -> (r: bool)
    ensures
        r == ecdsa_verifies(key@, message@, signature@),
{
    match (
        k256::ecdsa::VerifyingKey::from_sec1_bytes(key),
        k256::ecdsa::Signature::from_slice(signature),
    ) {
        (Ok(k), Ok(s)) => ecdsa::signature::Verifier::verify(&k, message, &s).is_ok(),
        _ => false,
    }
}

/// Parses the key with `SigningKey::from_slice` and returns
/// `VerifyingKey::to_sec1_bytes` of its verifying key.
#[verifier::external_body]
fn public_key_bytes(secret: &[u8]) -> (r: Option<Vec<u8>>)
    ensures
        match r {
            Some(k) => ecdsa_public_key(secret@) == Some(k@),
            None => ecdsa_public_key(secret@) is None,
        },
{
    let key = k256::ecdsa::SigningKey::from_slice(secret).ok()?;
    Some(key.verifying_key().to_sec1_bytes().into_vec())
}

/// Draws a key with `SigningKey::random` from `rand::thread_rng` and returns
/// `SigningKey::to_bytes`: the 32 bytes of a scalar.
#[verifier::external_body]
fn random_secret() -> (r: Vec<u8>)
    ensures
        r@.len() == 32,
{
    k256::ecdsa::SigningKey::random(&mut rand::thread_rng()).to_bytes().to_vec()
}

/// An ECDSA signature: `r` then `s`, 32 bytes each.
#[derive(Debug)]
pub struct Signature(pub Vec<u8>);

/// A public key, as a SEC1-encoded curve point.
#[derive(Debug, PartialEq, Eq)]
pub struct PublicKey(pub Vec<u8>);

/// A private key: the bytes of a scalar.
#[derive(Debug)]
pub struct PrivateKey(pub Vec<u8>);

impl View for Signature {
    type V = Seq<u8>;

    open spec fn view(&self) -> Seq<u8> {
        self.0@
    }
}

impl View for PublicKey {
    type V = Seq<u8>;

    open spec fn view(&self) -> Seq<u8> {
        self.0@
    }
}

impl View for PrivateKey {
    type V = Seq<u8>;

    open spec fn view(&self) -> Seq<u8> {
        self.0@
    }
}

impl Clone for Signature {
    fn clone(&self) -> (r: Self)
        ensures
            r@ == self@,
    {
        Signature(self.0.clone())
    }
}

impl Clone for PublicKey {
    fn clone(&self) -> (r: Self)
        ensures
            r@ == self@,
    {
        PublicKey(self.0.clone())
    }
}

impl Clone for PrivateKey {
    fn clone(&self) -> (r: Self)
        ensures
            r@ == self@,
    {
        PrivateKey(self.0.clone())
    }
}

impl Signature {
    /// Signs the bytes of `hash` with `private_key`.
    pub fn sign(hash: &crate::sha256::Hash, private_key: &PrivateKey) -> (r: Option<Signature>)
        ensures
            match r {
                Some(s) => ecdsa_signature(private_key@, hash.0.le_bytes()) == Some(s@),
                None => ecdsa_signature(private_key@, hash.0.le_bytes()) is None,
            },
    {
        let message = hash.as_bytes();
        match sign_bytes(private_key.0.as_slice(), message.as_slice()) {
            Some(bytes) => Some(Signature(bytes)),
            None => None,
        }
    }

    /// Whether this is a signature of the bytes of `hash` under `key`.
    pub fn verify(&self, hash: &crate::sha256::Hash, key: &PublicKey) -> (r: bool)
        ensures
            r == ecdsa_verifies(key@, hash.0.le_bytes(), self@),
    {
        let message = hash.as_bytes();
        verify_bytes(key.0.as_slice(), message.as_slice(), self.0.as_slice())
    }
}

impl PrivateKey {
    /// A fresh random private key.
    pub fn new() -> (r: PrivateKey)
        ensures
            r@.len() == 32,
    {
        PrivateKey(random_secret())
    }

    /// The public key that belongs to this private key.
    pub fn pubkey(&self) -> (r: Option<PublicKey>)
        ensures
            match r {
                Some(k) => ecdsa_public_key(self@) == Some(k@),
                None => ecdsa_public_key(self@) is None,
            },
    {
        match public_key_bytes(self.0.as_slice()) {
            Some(bytes) => Some(PublicKey(bytes)),
            None => None,
        }
    }
}

impl Default for PrivateKey {
    fn default() -> (r: PrivateKey)
        ensures
            r@.len() == 32,
    {
        PrivateKey::new()
    }
}

} // verus!
