//! The sealed-sender envelope.
//!
//! An envelope hides the sender behind an ephemeral X25519 key: the sealing
//! key is derived from the ephemeral secret and the recipient's outer public
//! key, the payload is AES-256-GCM under a random nonce, and a sixteen-bit
//! proof of work over the envelope's encoding deters bulk spam. Sealing and
//! unsealing are specified exactly over the named primitives.

use vstd::prelude::*;
use crate::bytes::append_bytes;
use crate::cbor::{
    arr_dec, arr_hdr, bstr_dec, bstr_enc, lemma_arr_round_trip, lemma_bstr_round_trip,
    lemma_head_enc_len, lemma_pow256_values, lemma_uint_round_trip, pow256, read_arr_hdr,
    read_bstr, read_uint, uint_dec, uint_enc, write_arr_hdr, write_bstr, write_uint,
};
use crate::cryptobox::{
    aead_decrypt, aead_encrypt, aes_dec, aes_enc, derive_seal_key, gen_x25519_keypair, sha256,
    sha256_of, seal_key_of, x25519, x25519_base, x25519_shared,
};
use crate::RelayError;

verus! {

/// The on-wire envelope.
#[derive(Debug, PartialEq, Eq)]
pub struct SealedEnvelope {
    /// The wire version; always 1.
    pub version: u8,
    /// The sender's ephemeral X25519 public key, 32 bytes.
    pub ephemeral_public_key: Vec<u8>,
    /// A 12-byte nonce followed by the AES-256-GCM ciphertext.
    pub encrypted_payload: Vec<u8>,
    /// The nonce that satisfies the proof of work.
    pub pow_nonce: u64,
}

/// The mathematical shadow of an envelope.
pub struct EnvelopeView {
    pub version: u8,
    pub ephemeral_public_key: Seq<u8>,
    pub encrypted_payload: Seq<u8>,
    pub pow_nonce: u64,
}

impl View for SealedEnvelope {
    type V = EnvelopeView;

    open spec fn view(&self) -> EnvelopeView {
        EnvelopeView {
            version: self.version,
            ephemeral_public_key: self.ephemeral_public_key@,
            encrypted_payload: self.encrypted_payload@,
            pow_nonce: self.pow_nonce,
        }
    }
}

/// The decrypted content of an envelope.
#[derive(Debug, PartialEq, Eq)]
pub struct InnerPayload {
    /// 3 for a welcome, 5 for an application message.
    pub msg_type: u8,
    /// The sender's identifier.
    pub sender_user_id: Vec<u8>,
    /// Reserved; empty on this wire version.
    pub sender_identity_key: Vec<u8>,
    /// The wire-encoded MLS message.
    pub content: Vec<u8>,
    /// The wire-encoded ratchet tree, or empty.
    pub ratchet_tree: Vec<u8>,
    /// The sender's outer public key, for replies.
    pub sender_outer_public_key: Vec<u8>,
}

/// The mathematical shadow of an inner payload.
pub struct InnerView {
    pub msg_type: u8,
    pub sender_user_id: Seq<u8>,
    pub sender_identity_key: Seq<u8>,
    pub content: Seq<u8>,
    pub ratchet_tree: Seq<u8>,
    pub sender_outer_public_key: Seq<u8>,
}

impl View for InnerPayload {
    type V = InnerView;

    open spec fn view(&self) -> InnerView {
        InnerView {
            msg_type: self.msg_type,
            sender_user_id: self.sender_user_id@,
            sender_identity_key: self.sender_identity_key@,
            content: self.content@,
            ratchet_tree: self.ratchet_tree@,
            sender_outer_public_key: self.sender_outer_public_key@,
        }
    }
}

/// The envelope's wire encoding: an array of its four fields.
pub open spec fn envelope_enc(e: EnvelopeView) -> Seq<u8> {
    arr_hdr(4) + uint_enc(e.version as nat) + bstr_enc(e.ephemeral_public_key) + bstr_enc(
        e.encrypted_payload,
    ) + uint_enc(e.pow_nonce as nat)
}

/// The inner payload's wire encoding: an array of its six fields.
pub open spec fn inner_enc(p: InnerView) -> Seq<u8> {
    arr_hdr(6) + uint_enc(p.msg_type as nat) + bstr_enc(p.sender_user_id) + bstr_enc(
        p.sender_identity_key,
    ) + bstr_enc(p.content) + bstr_enc(p.ratchet_tree) + bstr_enc(p.sender_outer_public_key)
}

/// Decodes an envelope: exactly the encodings of `envelope_enc`, with
/// nothing following.
pub open spec fn envelope_dec(s: Seq<u8>) -> Option<EnvelopeView> {
    match arr_dec(s, 0) {
        Some((k, p1)) => if k == 4 {
            match uint_dec(s, p1) {
                Some((v, p2)) => if v < 0x100 {
                    match bstr_dec(s, p2) {
                        Some((eph, p3)) => match bstr_dec(s, p3) {
                            Some((pl, p4)) => match uint_dec(s, p4) {
                                Some((n, p5)) => if n < pow256(8) && p5 == s.len() {
                                    Some(
                                        EnvelopeView {
                                            version: v as u8,
                                            ephemeral_public_key: eph,
                                            encrypted_payload: pl,
                                            pow_nonce: n as u64,
                                        },
                                    )
                                } else {
                                    None
                                },
                                None => None,
                            },
                            None => None,
                        },
                        None => None,
                    }
                } else {
                    None
                },
                None => None,
            }
        } else {
            None
        },
        None => None,
    }
}

/// Decodes an inner payload: exactly the encodings of `inner_enc`, with
/// nothing following.
pub open spec fn inner_dec(s: Seq<u8>) -> Option<InnerView> {
    match arr_dec(s, 0) {
        Some((k, p1)) => if k == 6 {
            match uint_dec(s, p1) {
                Some((t, p2)) => if t < 0x100 {
                    match bstr_dec(s, p2) {
                        Some((uid, p3)) => match bstr_dec(s, p3) {
                            Some((ik, p4)) => match bstr_dec(s, p4) {
                                Some((ct, p5)) => match bstr_dec(s, p5) {
                                    Some((rt, p6)) => match bstr_dec(s, p6) {
                                        Some((op, p7)) => if p7 == s.len() {
                                            Some(
                                                InnerView {
                                                    msg_type: t as u8,
                                                    sender_user_id: uid,
                                                    sender_identity_key: ik,
                                                    content: ct,
                                                    ratchet_tree: rt,
                                                    sender_outer_public_key: op,
                                                },
                                            )
                                        } else {
                                            None
                                        },
                                        None => None,
                                    },
                                    None => None,
                                },
                                None => None,
                            },
                            None => None,
                        },
                        None => None,
                    }
                } else {
                    None
                },
                None => None,
            }
        } else {
            None
        },
        None => None,
    }
}

/// Decoding an encoded envelope yields it back.
pub proof fn lemma_envelope_round_trip(e: EnvelopeView)
    requires
        e.ephemeral_public_key.len() < pow256(8),
        e.encrypted_payload.len() < pow256(8),
    ensures
        envelope_dec(envelope_enc(e)) == Some(e),
{
    lemma_pow256_values();
    let s = envelope_enc(e);
    let a0 = arr_hdr(4);
    let a1 = uint_enc(e.version as nat);
    let a2 = bstr_enc(e.ephemeral_public_key);
    let a3 = bstr_enc(e.encrypted_payload);
    let a4 = uint_enc(e.pow_nonce as nat);
    let p1 = a0.len() as int;
    let p2 = p1 + a1.len();
    let p3 = p2 + a2.len();
    let p4 = p3 + a3.len();
    let p5 = p4 + a4.len();
    assert(s.len() == p5);
    assert(s.subrange(0, p1) =~= a0);
    assert(s.subrange(p1, p2) =~= a1);
    assert(s.subrange(p2, p3) =~= a2);
    assert(s.subrange(p3, p4) =~= a3);
    assert(s.subrange(p4, p5) =~= a4);
    lemma_arr_round_trip(s, 0, 4);
    lemma_uint_round_trip(s, p1, e.version as nat);
    lemma_bstr_round_trip(s, p2, e.ephemeral_public_key);
    lemma_bstr_round_trip(s, p3, e.encrypted_payload);
    lemma_uint_round_trip(s, p4, e.pow_nonce as nat);
}

/// Decoding an encoded inner payload yields it back.
pub proof fn lemma_inner_round_trip(p: InnerView)
    requires
        p.sender_user_id.len() < pow256(8),
        p.sender_identity_key.len() < pow256(8),
        p.content.len() < pow256(8),
        p.ratchet_tree.len() < pow256(8),
        p.sender_outer_public_key.len() < pow256(8),
    ensures
        inner_dec(inner_enc(p)) == Some(p),
{
    lemma_pow256_values();
    let s = inner_enc(p);
    let a0 = arr_hdr(6);
    let a1 = uint_enc(p.msg_type as nat);
    let a2 = bstr_enc(p.sender_user_id);
    let a3 = bstr_enc(p.sender_identity_key);
    let a4 = bstr_enc(p.content);
    let a5 = bstr_enc(p.ratchet_tree);
    let a6 = bstr_enc(p.sender_outer_public_key);
    let p1 = a0.len() as int;
    let p2 = p1 + a1.len();
    let p3 = p2 + a2.len();
    let p4 = p3 + a3.len();
    let p5 = p4 + a4.len();
    let p6 = p5 + a5.len();
    let p7 = p6 + a6.len();
    assert(s.len() == p7);
    assert(s.subrange(0, p1) =~= a0);
    assert(s.subrange(p1, p2) =~= a1);
    assert(s.subrange(p2, p3) =~= a2);
    assert(s.subrange(p3, p4) =~= a3);
    assert(s.subrange(p4, p5) =~= a4);
    assert(s.subrange(p5, p6) =~= a5);
    assert(s.subrange(p6, p7) =~= a6);
    lemma_arr_round_trip(s, 0, 6);
    lemma_uint_round_trip(s, p1, p.msg_type as nat);
    lemma_bstr_round_trip(s, p2, p.sender_user_id);
    lemma_bstr_round_trip(s, p3, p.sender_identity_key);
    lemma_bstr_round_trip(s, p4, p.content);
    lemma_bstr_round_trip(s, p5, p.ratchet_tree);
    lemma_bstr_round_trip(s, p6, p.sender_outer_public_key);
}

/// The machine bound under which an envelope can be encoded.
pub open spec fn env_len_ok(e: EnvelopeView) -> bool {
    e.ephemeral_public_key.len() + e.encrypted_payload.len() + 64 <= usize::MAX
}

/// The machine bound under which an inner payload can be encoded.
pub open spec fn inner_len_ok(p: InnerView) -> bool {
    p.sender_user_id.len() + p.sender_identity_key.len() + p.content.len()
        + p.ratchet_tree.len() + p.sender_outer_public_key.len() + 128 <= usize::MAX
}

/// Encodes an envelope.
pub fn encode_envelope(e: &SealedEnvelope) -> (r: Vec<u8>)
    requires
        env_len_ok(e@),
    ensures
        r@ == envelope_enc(e@),
{
    let mut out: Vec<u8> = Vec::new();
    proof {
        lemma_head_enc_len(4, 4);
        lemma_head_enc_len(0, e@.version as nat);
        lemma_head_enc_len(2, e@.ephemeral_public_key.len() as nat);
        lemma_head_enc_len(2, e@.encrypted_payload.len() as nat);
        lemma_head_enc_len(0, e@.pow_nonce as nat);
    }
    write_arr_hdr(&mut out, 4);
    write_uint(&mut out, e.version as u64);
    write_bstr(&mut out, &e.ephemeral_public_key);
    write_bstr(&mut out, &e.encrypted_payload);
    write_uint(&mut out, e.pow_nonce);
    proof {
        assert(out@ =~= envelope_enc(e@));
    }
    out
}

/// Encodes an inner payload.
pub fn encode_inner(p: &InnerPayload) -> (r: Vec<u8>)
    requires
        inner_len_ok(p@),
    ensures
        r@ == inner_enc(p@),
{
    let mut out: Vec<u8> = Vec::new();
    proof {
        lemma_head_enc_len(4, 6);
        lemma_head_enc_len(0, p@.msg_type as nat);
        lemma_head_enc_len(2, p@.sender_user_id.len() as nat);
        lemma_head_enc_len(2, p@.sender_identity_key.len() as nat);
        lemma_head_enc_len(2, p@.content.len() as nat);
        lemma_head_enc_len(2, p@.ratchet_tree.len() as nat);
        lemma_head_enc_len(2, p@.sender_outer_public_key.len() as nat);
    }
    write_arr_hdr(&mut out, 6);
    write_uint(&mut out, p.msg_type as u64);
    write_bstr(&mut out, &p.sender_user_id);
    write_bstr(&mut out, &p.sender_identity_key);
    write_bstr(&mut out, &p.content);
    write_bstr(&mut out, &p.ratchet_tree);
    write_bstr(&mut out, &p.sender_outer_public_key);
    proof {
        assert(out@ =~= inner_enc(p@));
    }
    out
}

/// Decodes an envelope; refuses exactly what the spec decoder refuses.
pub fn decode_envelope(bytes: &Vec<u8>) -> (r: Option<SealedEnvelope>)
    requires
        bytes@.len() <= usize::MAX - 9,
    ensures
        match r {
            Some(e) => envelope_dec(bytes@) == Some(e@),
            None => envelope_dec(bytes@) is None,
        },
{
    proof {
        lemma_pow256_values();
    }
    let (k, p1) = match read_arr_hdr(bytes, 0) {
        Some(x) => x,
        None => {
            return None;
        },
    };
    if k != 4 {
        return None;
    }
    let (v, p2) = match read_uint(bytes, p1) {
        Some(x) => x,
        None => {
            return None;
        },
    };
    if v >= 0x100 {
        return None;
    }
    let (eph, p3) = match read_bstr(bytes, p2) {
        Some(x) => x,
        None => {
            return None;
        },
    };
    let (pl, p4) = match read_bstr(bytes, p3) {
        Some(x) => x,
        None => {
            return None;
        },
    };
    let (n, p5) = match read_uint(bytes, p4) {
        Some(x) => x,
        None => {
            return None;
        },
    };
    if p5 != bytes.len() {
        return None;
    }
    Some(
        SealedEnvelope {
            version: v as u8,
            ephemeral_public_key: eph,
            encrypted_payload: pl,
            pow_nonce: n,
        },
    )
}

/// Decodes an inner payload; refuses exactly what the spec decoder refuses.
pub fn decode_inner(bytes: &Vec<u8>) -> (r: Option<InnerPayload>)
    requires
        bytes@.len() <= usize::MAX - 9,
    ensures
        match r {
            Some(p) => inner_dec(bytes@) == Some(p@),
            None => inner_dec(bytes@) is None,
        },
{
    let (k, p1) = match read_arr_hdr(bytes, 0) {
        Some(x) => x,
        None => {
            return None;
        },
    };
    if k != 6 {
        return None;
    }
    let (t, p2) = match read_uint(bytes, p1) {
        Some(x) => x,
        None => {
            return None;
        },
    };
    if t >= 0x100 {
        return None;
    }
    let (uid, p3) = match read_bstr(bytes, p2) {
        Some(x) => x,
        None => {
            return None;
        },
    };
    let (ik, p4) = match read_bstr(bytes, p3) {
        Some(x) => x,
        None => {
            return None;
        },
    };
    let (ct, p5) = match read_bstr(bytes, p4) {
        Some(x) => x,
        None => {
            return None;
        },
    };
    let (rt, p6) = match read_bstr(bytes, p5) {
        Some(x) => x,
        None => {
            return None;
        },
    };
    let (op, p7) = match read_bstr(bytes, p6) {
        Some(x) => x,
        None => {
            return None;
        },
    };
    if p7 != bytes.len() {
        return None;
    }
    Some(
        InnerPayload {
            msg_type: t as u8,
            sender_user_id: uid,
            sender_identity_key: ik,
            content: ct,
            ratchet_tree: rt,
            sender_outer_public_key: op,
        },
    )
}


/// The fields of a decodable envelope fit inside its encoding.
pub proof fn lemma_envelope_dec_bounds(s: Seq<u8>)
    requires
        envelope_dec(s) is Some,
    ensures
        envelope_dec(s) matches Some(e) ==> e.ephemeral_public_key.len()
            + e.encrypted_payload.len() + 4 <= s.len(),
{
    let e = envelope_dec(s)->0;
    let r0 = arr_dec(s, 0);
    let (k, p1) = r0->0;
    let r1 = uint_dec(s, p1);
    let (v, p2) = r1->0;
    let r2 = bstr_dec(s, p2);
    let (eph, p3) = r2->0;
    let r3 = bstr_dec(s, p3);
    let (pl, p4) = r3->0;
    let r4 = uint_dec(s, p4);
    let (n, p5) = r4->0;
    assert(p1 >= 1);
    assert(p2 >= p1 + 1);
    assert(p3 >= p2 + 1 + eph.len());
    assert(p4 >= p3 + 1 + pl.len());
    assert(p5 >= p4 + 1);
    assert(p5 == s.len());
}

/// The proof of work holds when the digest of the envelope's encoding
/// starts with two zero bytes: a sixteen-bit work target.
pub open spec fn pow_ok(e: EnvelopeView) -> bool {
    &&& sha256_of(envelope_enc(e))[0] == 0
    &&& sha256_of(envelope_enc(e))[1] == 0
}

/// Checks the proof of work of an envelope.
pub fn check_pow(e: &SealedEnvelope) -> (r: bool)
    requires
        env_len_ok(e@),
    ensures
        r == pow_ok(e@),
{
    let enc = encode_envelope(e);
    let h = sha256(&enc);
    h[0] == 0 && h[1] == 0
}

/// The envelope with its work nonce replaced.
pub open spec fn with_nonce(e: EnvelopeView, n: u64) -> EnvelopeView {
    EnvelopeView {
        version: e.version,
        ephemeral_public_key: e.ephemeral_public_key,
        encrypted_payload: e.encrypted_payload,
        pow_nonce: n,
    }
}

/// Searches for a work nonce, counting up from zero; all fields but the
/// nonce are kept, and the returned nonce is the least satisfying one.
/// Fails only if no 64-bit nonce satisfies the target.
pub fn mine_pow(env: SealedEnvelope) -> (r: Result<SealedEnvelope, RelayError>)
    requires
        env_len_ok(env@),
    ensures
        match r {
            Ok(e) => e@ == with_nonce(env@, e@.pow_nonce) && pow_ok(e@) && (forall|n: u64|
                n < e@.pow_nonce ==> !pow_ok(with_nonce(env@, n))),
            Err(err) => err == RelayError::Crypto && (forall|n: u64| !pow_ok(
                with_nonce(env@, n),
            )),
        },
{
    let mut e = env;
    let mut nonce: u64 = 0;
    loop
        invariant
            env_len_ok(env@),
            e@ == with_nonce(env@, e@.pow_nonce),
            forall|n: u64| n < nonce ==> !pow_ok(with_nonce(env@, n)),
        decreases u64::MAX - nonce,
    {
        e.pow_nonce = nonce;
        proof {
            assert(e@ == with_nonce(env@, nonce));
        }
        if check_pow(&e) {
            return Ok(e);
        }
        if nonce == u64::MAX {
            proof {
                assert forall|n: u64| !pow_ok(with_nonce(env@, n)) by {
                    if n < u64::MAX {
                    } else {
                        assert(n == u64::MAX);
                        assert(!pow_ok(with_nonce(env@, u64::MAX)));
                    }
                }
            }
            return Err(RelayError::Crypto);
        }
        nonce = nonce + 1;
    }
}

/// The envelope carries exactly this inner payload, sealed to the holder
/// of `outer_pub`: some fresh ephemeral secret and some 12-byte nonce tie
/// the payload to the AEAD of the inner encoding under the derived key, the
/// AEAD opens back to it, the payload length is nonce plus ciphertext plus
/// tag, and the ephemeral key obeys the curve's Diffie-Hellman law.
pub open spec fn sealed_for(env: EnvelopeView, inner: InnerView, outer_pub: Seq<u8>) -> bool {
    exists|esk: Seq<u8>, nonce: Seq<u8>|
        {
            &&& esk.len() == 32
            &&& nonce.len() == 12
            &&& env.ephemeral_public_key == x25519_base(esk)
            &&& env.ephemeral_public_key.len() == 32
            &&& env.encrypted_payload == nonce + #[trigger] aes_enc(
                seal_key_of(x25519_shared(esk, outer_pub)),
                nonce,
                inner_enc(inner),
            )
            &&& env.encrypted_payload.len() == 12 + inner_enc(inner).len() + 16
            &&& aes_dec(
                seal_key_of(x25519_shared(esk, outer_pub)),
                nonce,
                aes_enc(seal_key_of(x25519_shared(esk, outer_pub)), nonce, inner_enc(inner)),
            ) == Some(inner_enc(inner))
            &&& forall|osec: Seq<u8>|
                osec.len() == 32 ==> #[trigger] x25519_shared(osec, env.ephemeral_public_key)
                    == x25519_shared(esk, x25519_base(osec))
        }
}

/// Unsealing inverts sealing: an envelope sealed to the public half of a
/// key pair, with its work intact, unseals under the secret half to the
/// payload it carries.
pub proof fn lemma_unseal_inverts_seal(env: EnvelopeView, inner: InnerView, secret: Seq<u8>)
    requires
        secret.len() == 32,
        pow_ok(env),
        sealed_for(env, inner, x25519_base(secret)),
        inner.sender_user_id.len() < pow256(8),
        inner.sender_identity_key.len() < pow256(8),
        inner.content.len() < pow256(8),
        inner.ratchet_tree.len() < pow256(8),
        inner.sender_outer_public_key.len() < pow256(8),
    ensures
        unseal_spec(env, secret) == Ok::<InnerView, RelayError>(inner),
{
    let outer_pub = x25519_base(secret);
    let (esk, nonce) = choose|esk: Seq<u8>, nonce: Seq<u8>|
        {
            &&& esk.len() == 32
            &&& nonce.len() == 12
            &&& env.ephemeral_public_key == x25519_base(esk)
            &&& env.ephemeral_public_key.len() == 32
            &&& env.encrypted_payload == nonce + #[trigger] aes_enc(
                seal_key_of(x25519_shared(esk, outer_pub)),
                nonce,
                inner_enc(inner),
            )
            &&& env.encrypted_payload.len() == 12 + inner_enc(inner).len() + 16
            &&& aes_dec(
                seal_key_of(x25519_shared(esk, outer_pub)),
                nonce,
                aes_enc(seal_key_of(x25519_shared(esk, outer_pub)), nonce, inner_enc(inner)),
            ) == Some(inner_enc(inner))
            &&& forall|osec: Seq<u8>|
                osec.len() == 32 ==> #[trigger] x25519_shared(osec, env.ephemeral_public_key)
                    == x25519_shared(esk, x25519_base(osec))
        };
    assert(x25519_shared(secret, env.ephemeral_public_key) == x25519_shared(esk, outer_pub));
    let key = seal_key_of(x25519_shared(secret, env.ephemeral_public_key));
    assert(env.encrypted_payload.subrange(0, 12) =~= nonce);
    assert(env.encrypted_payload.skip(12) =~= aes_enc(key, nonce, inner_enc(inner)));
    assert(aes_dec(key, env.encrypted_payload.subrange(0, 12), env.encrypted_payload.skip(12))
        == Some(inner_enc(inner)));
    lemma_inner_round_trip(inner);
}

/// What unsealing an envelope with the recipient's outer secret yields:
/// first the work check, then the key length, then the nonce split, then
/// authenticated decryption, then the inner decoding.
pub open spec fn unseal_spec(e: EnvelopeView, secret: Seq<u8>) -> Result<InnerView, RelayError> {
    if !pow_ok(e) {
        Err(RelayError::PowInvalid)
    } else if e.ephemeral_public_key.len() != 32 {
        Err(RelayError::InvalidKey)
    } else if e.encrypted_payload.len() < 12 {
        Err(RelayError::ShortPayload)
    } else {
        let key = seal_key_of(x25519_shared(secret, e.ephemeral_public_key));
        let nonce = e.encrypted_payload.subrange(0, 12);
        let ct = e.encrypted_payload.skip(12);
        match aes_dec(key, nonce, ct) {
            Some(pt) => match inner_dec(pt) {
                Some(p) => Ok(p),
                None => Err(RelayError::Serialization),
            },
            None => Err(RelayError::DecryptFail),
        }
    }
}

/// Unseals an envelope with the recipient's outer secret.
pub fn unseal_message(env: &SealedEnvelope, my_secret: &Vec<u8>) -> (r: Result<
    InnerPayload,
    RelayError,
>)
    requires
        my_secret@.len() == 32,
        env_len_ok(env@),
    ensures
        match r {
            Ok(p) => unseal_spec(env@, my_secret@) == Ok::<InnerView, RelayError>(p@),
            Err(e) => unseal_spec(env@, my_secret@) == Err::<InnerView, RelayError>(e),
        },
{
    if !check_pow(env) {
        return Err(RelayError::PowInvalid);
    }
    if env.ephemeral_public_key.len() != 32 {
        return Err(RelayError::InvalidKey);
    }
    if env.encrypted_payload.len() < 12 {
        return Err(RelayError::ShortPayload);
    }
    let shared = x25519(my_secret, &env.ephemeral_public_key);
    let key = derive_seal_key(&shared);
    let nonce = crate::bytes::slice_range(&env.encrypted_payload, 0, 12);
    let ct = crate::bytes::slice_range(&env.encrypted_payload, 12, env.encrypted_payload.len());
    proof {
        assert(ct@ =~= env@.encrypted_payload.skip(12));
    }
    let pt = match aead_decrypt(&key, &nonce, &ct) {
        Some(pt) => pt,
        None => {
            return Err(RelayError::DecryptFail);
        },
    };
    proof {
        assert(pt@.len() + 16 == ct@.len());
        assert(ct@.len() + 12 == env@.encrypted_payload.len());
    }
    match decode_inner(&pt) {
        Some(p) => Ok(p),
        None => Err(RelayError::Serialization),
    }
}

/// Seals an inner payload for the holder of the outer public key.
pub fn seal_message(inner: &InnerPayload, peer_outer_pub: &Vec<u8>) -> (r: Result<
    SealedEnvelope,
    RelayError,
>)
    requires
        inner_len_ok(inner@),
    ensures
        peer_outer_pub@.len() != 32 ==> r == Err::<SealedEnvelope, RelayError>(
            RelayError::InvalidKey,
        ),
        r matches Err(e) ==> (e == RelayError::InvalidKey || e == RelayError::Crypto),
        r matches Err(e) && e == RelayError::InvalidKey ==> peer_outer_pub@.len() != 32,
        r matches Ok(env) ==> {
            &&& env@.version == 1
            &&& env_len_ok(env@)
            &&& pow_ok(env@)
            &&& (forall|n: u64| n < env@.pow_nonce ==> !pow_ok(with_nonce(env@, n)))
            &&& sealed_for(env@, inner@, peer_outer_pub@)
        },
{
    if peer_outer_pub.len() != 32 {
        return Err(RelayError::InvalidKey);
    }
    let plaintext = encode_inner(inner);
    let (eph_sec, eph_pub) = gen_x25519_keypair();
    let shared = x25519(&eph_sec, peer_outer_pub);
    let key = derive_seal_key(&shared);
    let (nonce, ct) = match aead_encrypt(&key, &plaintext) {
        Some(p) => p,
        None => {
            return Err(RelayError::Crypto);
        },
    };
    if ct.len() > usize::MAX - 108 {
        return Err(RelayError::Crypto);
    }
    let mut payload = nonce;
    let ghost nonce_view = payload@;
    append_bytes(&mut payload, &ct);
    let env = SealedEnvelope {
        version: 1,
        ephemeral_public_key: eph_pub,
        encrypted_payload: payload,
        pow_nonce: 0,
    };
    let ghost env0 = env@;
    let mined = mine_pow(env);
    match mined {
        Ok(e) => {
            proof {
                let esk = eph_sec@;
                assert(e@.ephemeral_public_key == x25519_base(esk));
                assert(e@.encrypted_payload == nonce_view + aes_enc(
                    seal_key_of(x25519_shared(esk, peer_outer_pub@)),
                    nonce_view,
                    inner_enc(inner@),
                ));
                assert(e@.encrypted_payload.len() == 12 + inner_enc(inner@).len() + 16);
                assert(forall|osec: Seq<u8>|
                    osec.len() == 32 ==> #[trigger] x25519_shared(osec, e@.ephemeral_public_key)
                        == x25519_shared(esk, x25519_base(osec)));
                assert(sealed_for(e@, inner@, peer_outer_pub@));
                assert forall|n: u64| n < e@.pow_nonce implies !pow_ok(with_nonce(e@, n)) by {
                    assert(with_nonce(env0, n) == with_nonce(e@, n));
                }
            }
            Ok(e)
        },
        Err(_) => Err(RelayError::Crypto),
    }
}

} // verus!
