//! The primitives of the sealed envelope: X25519, HKDF-SHA256, AES-256-GCM,
//! SHA-256 and the random source.
//!
//! Each primitive is an outside call behind a trusted wrapper. What a
//! deterministic primitive returns is given a name (`sha256_of`,
//! `x25519_shared`, ...); the contracts of the envelope codec are stated
//! over those names.

use vstd::prelude::*;
use aes_gcm::aead::generic_array::GenericArray;
use aes_gcm::aead::Aead;
use aes_gcm::{AeadCore, Aes256Gcm, KeyInit};
use curve25519_dalek::montgomery::MontgomeryPoint;
use curve25519_dalek::scalar::Scalar;
use hkdf::Hkdf;
use rand::Rng;
use sha2::{Digest, Sha256};

verus! {

/// The SHA-256 digest of a byte string.
pub uninterp spec fn sha256_of(data: Seq<u8>) -> Seq<u8>;

/// The X25519 point obtained by multiplying the base point with the scalar
/// read from the 32 secret bytes.
pub uninterp spec fn x25519_base(secret: Seq<u8>) -> Seq<u8>;

/// The X25519 shared point: the scalar read from the 32 secret bytes times
/// the point read from the 32 point bytes.
pub uninterp spec fn x25519_shared(secret: Seq<u8>, point: Seq<u8>) -> Seq<u8>;

/// The 32-byte sealing key HKDF-SHA256 derives from the shared secret with
/// empty salt and the protocol's fixed info string.
pub uninterp spec fn seal_key_of(ikm: Seq<u8>) -> Seq<u8>;

/// The AES-256-GCM sealing of the plaintext under the 32-byte key and the
/// 12-byte nonce: ciphertext followed by the tag.
pub uninterp spec fn aes_enc(key: Seq<u8>, nonce: Seq<u8>, plaintext: Seq<u8>) -> Seq<u8>;

/// The AES-256-GCM opening of the ciphertext under the 32-byte key and the
/// 12-byte nonce; `None` when the tag does not verify.
pub uninterp spec fn aes_dec(key: Seq<u8>, nonce: Seq<u8>, ciphertext: Seq<u8>) -> Option<
    Seq<u8>,
>;

/// Relies on sha2's Sha256: the digest depends on the input alone and has
/// 32 bytes.
#[verifier::external_body]
pub(crate) fn sha256(data: &Vec<u8>) -> (r: Vec<u8>)
    ensures
        r@ == sha256_of(data@),
        r@.len() == 32,
{
    let mut hasher = Sha256::new();
    hasher.update(data.as_slice());
    hasher.finalize().to_vec()
}

/// Relies on curve25519_dalek's Scalar::random and MontgomeryPoint::
/// mul_base: a fresh key pair whose public half is the base point times the
/// secret. The last clause is the Diffie-Hellman law of the curve: scalar
/// multiplication on the Montgomery ladder commutes, so the shared point of
/// any other secret with this public key equals the shared point of this
/// secret with the other's public key.
#[verifier::external_body]
pub fn gen_x25519_keypair() -> (r: (Vec<u8>, Vec<u8>))
    ensures
        r.0@.len() == 32,
        r.1@.len() == 32,
        r.1@ == x25519_base(r.0@),
        forall|other: Seq<u8>|
            other.len() == 32 ==> #[trigger] x25519_shared(other, r.1@) == x25519_shared(
                r.0@,
                x25519_base(other),
            ),
{
    let secret = Scalar::random(&mut rand::thread_rng());
    let public = MontgomeryPoint::mul_base(&secret);
    (secret.to_bytes().to_vec(), public.to_bytes().to_vec())
}

/// Relies on curve25519_dalek's scalar multiplication: the shared point
/// depends on the secret and the point alone.
#[verifier::external_body]
pub(crate) fn x25519(secret: &Vec<u8>, point: &Vec<u8>) -> (r: Vec<u8>)
    requires
        secret@.len() == 32,
        point@.len() == 32,
    ensures
        r@.len() == 32,
        r@ == x25519_shared(secret@, point@),
{
    let mut sec = [0u8; 32];
    sec.copy_from_slice(secret.as_slice());
    let mut pt = [0u8; 32];
    pt.copy_from_slice(point.as_slice());
    let shared = Scalar::from_bytes_mod_order(sec) * MontgomeryPoint(pt);
    shared.to_bytes().to_vec()
}

/// Relies on hkdf's HKDF-SHA256 with empty salt and the info string
/// `relay-seal-v1`: the 32-byte key depends on the input keying material
/// alone. Expanding 32 bytes cannot fail.
#[verifier::external_body]
pub(crate) fn derive_seal_key(ikm: &Vec<u8>) -> (r: Vec<u8>)
    ensures
        r@.len() == 32,
        r@ == seal_key_of(ikm@),
{
    let hk = Hkdf::<Sha256>::new(None, ikm.as_slice());
    let mut okm = [0u8; 32];
    hk.expand(b"relay-seal-v1", &mut okm).expect("32 bytes is a valid HKDF length");
    okm.to_vec()
}

/// Relies on aes_gcm's Aes256Gcm: encrypts under a fresh random nonce; the
/// ciphertext is the plaintext's length plus the 16-byte tag, and opening
/// it under the same key and nonce yields the plaintext back.
#[verifier::external_body]
pub(crate) fn aead_encrypt(key: &Vec<u8>, plaintext: &Vec<u8>) -> (r: Option<(Vec<u8>, Vec<u8>)>)
    requires
        key@.len() == 32,
    ensures
        r matches Some(p) ==> {
            &&& p.0@.len() == 12
            &&& p.1@.len() == plaintext@.len() + 16
            &&& p.1@ == aes_enc(key@, p.0@, plaintext@)
            &&& aes_dec(key@, p.0@, p.1@) == Some(plaintext@)
        },
{
    let cipher = Aes256Gcm::new(GenericArray::from_slice(key.as_slice()));
    let nonce = Aes256Gcm::generate_nonce(&mut aes_gcm::aead::OsRng);
    match cipher.encrypt(&nonce, plaintext.as_slice()) {
        Ok(ct) => Some((nonce.to_vec(), ct)),
        Err(_) => None,
    }
}

/// Relies on aes_gcm's Aes256Gcm: opens the ciphertext, failing exactly
/// when the tag does not verify; the result depends on key, nonce and
/// ciphertext alone.
#[verifier::external_body]
pub(crate) fn aead_decrypt(key: &Vec<u8>, nonce: &Vec<u8>, ciphertext: &Vec<u8>) -> (r: Option<Vec<u8>>)
    requires
        key@.len() == 32,
        nonce@.len() == 12,
    ensures
        match r {
            Some(p) => aes_dec(key@, nonce@, ciphertext@) == Some(p@) && ciphertext@.len()
                == p@.len() + 16,
            None => aes_dec(key@, nonce@, ciphertext@) is None,
        },
{
    let cipher = Aes256Gcm::new(GenericArray::from_slice(key.as_slice()));
    match cipher.decrypt(GenericArray::from_slice(nonce.as_slice()), ciphertext.as_slice()) {
        Ok(pt) => Some(pt),
        Err(_) => None,
    }
}

/// Relies on rand's thread-local generator: sixteen fresh random bytes.
#[verifier::external_body]
pub(crate) fn random_bytes_16() -> (r: Vec<u8>)
    ensures
        r@.len() == 16,
{
    rand::thread_rng().gen::<[u8; 16]>().to_vec()
}

} // verus!
