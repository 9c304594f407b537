use relay::cryptobox::gen_x25519_keypair;
use relay::sealed::{
    check_pow, decode_envelope, encode_envelope, mine_pow, seal_message, unseal_message,
    InnerPayload,
};
use relay::RelayError;

fn sample_inner() -> InnerPayload {
    InnerPayload {
        msg_type: 5,
        sender_user_id: vec![b'7'; 32],
        sender_identity_key: vec![],
        content: b"the quick brown fox".to_vec(),
        ratchet_tree: vec![],
        sender_outer_public_key: vec![3u8; 32],
    }
}

#[test]
fn seal_then_unseal_yields_the_payload() {
    let (sec, publ) = gen_x25519_keypair();
    let env = seal_message(&sample_inner(), &publ).unwrap();
    assert_eq!(env.version, 1);
    assert!(check_pow(&env));
    let inner = unseal_message(&env, &sec).unwrap();
    assert_eq!(inner.msg_type, 5);
    assert_eq!(inner.sender_user_id, vec![b'7'; 32]);
    assert_eq!(inner.content, b"the quick brown fox".to_vec());
    assert_eq!(inner.sender_outer_public_key, vec![3u8; 32]);
}

#[test]
fn sealing_requires_a_32_byte_key() {
    let short = vec![1u8; 31];
    assert_eq!(seal_message(&sample_inner(), &short), Err(RelayError::InvalidKey));
}

#[test]
fn p6_tampering_breaks_the_proof_of_work() {
    let (_sec, publ) = gen_x25519_keypair();
    let env = seal_message(&sample_inner(), &publ).unwrap();
    let (sec2, _) = gen_x25519_keypair();

    let mut t1 = SealedCopy::of(&env).envelope();
    t1.ephemeral_public_key[0] ^= 0x01;
    assert_eq!(unseal_message(&t1, &sec2).unwrap_err(), RelayError::PowInvalid);

    let mut t2 = SealedCopy::of(&env).envelope();
    t2.encrypted_payload[0] ^= 0x01;
    assert_eq!(unseal_message(&t2, &sec2).unwrap_err(), RelayError::PowInvalid);

    let mut t3 = SealedCopy::of(&env).envelope();
    t3.pow_nonce = t3.pow_nonce.wrapping_add(1);
    assert_eq!(unseal_message(&t3, &sec2).unwrap_err(), RelayError::PowInvalid);
}

// The envelope type has no clone; copy it through its wire form.
struct SealedCopy {
    bytes: Vec<u8>,
}

impl SealedCopy {
    fn of(env: &relay::sealed::SealedEnvelope) -> SealedCopy {
        SealedCopy { bytes: encode_envelope(env) }
    }

    fn envelope(&self) -> relay::sealed::SealedEnvelope {
        decode_envelope(&self.bytes).unwrap()
    }
}

#[test]
fn s6_tampered_ciphertext_fails_decryption_even_with_fresh_work() {
    let (sec, publ) = gen_x25519_keypair();
    let env = seal_message(&sample_inner(), &publ).unwrap();
    let mut tampered = SealedCopy::of(&env).envelope();
    let mid = tampered.encrypted_payload.len() / 2;
    tampered.encrypted_payload[mid] ^= 0x01;
    // redo the work so only the GCM tag check can object
    let remined = mine_pow(tampered).unwrap();
    assert!(check_pow(&remined));
    assert_eq!(unseal_message(&remined, &sec).unwrap_err(), RelayError::DecryptFail);
}

#[test]
fn unsealing_with_the_wrong_key_fails_decryption() {
    let (_sec, publ) = gen_x25519_keypair();
    let (other_sec, _) = gen_x25519_keypair();
    let env = seal_message(&sample_inner(), &publ).unwrap();
    assert_eq!(unseal_message(&env, &other_sec).unwrap_err(), RelayError::DecryptFail);
}

#[test]
fn short_payload_is_reported() {
    let (sec, _publ) = gen_x25519_keypair();
    let bare = relay::sealed::SealedEnvelope {
        version: 1,
        ephemeral_public_key: vec![0u8; 32],
        encrypted_payload: vec![1u8; 5],
        pow_nonce: 0,
    };
    let mined = mine_pow(bare).unwrap();
    assert_eq!(unseal_message(&mined, &sec).unwrap_err(), RelayError::ShortPayload);
}

#[test]
fn wrong_ephemeral_key_length_is_reported() {
    let (sec, _publ) = gen_x25519_keypair();
    let bare = relay::sealed::SealedEnvelope {
        version: 1,
        ephemeral_public_key: vec![0u8; 31],
        encrypted_payload: vec![1u8; 40],
        pow_nonce: 0,
    };
    let mined = mine_pow(bare).unwrap();
    assert_eq!(unseal_message(&mined, &sec).unwrap_err(), RelayError::InvalidKey);
}
