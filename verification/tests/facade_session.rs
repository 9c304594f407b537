use relay::facade::{create_key_package, generate_client_identity, OpenMlsError, OpenMlsGroup, RelayMlsClient};

#[test]
fn facade_two_party_session() {
    let a_id = vec![b'1'; 32];
    let b_id = vec![b'2'; 32];
    let mut a = RelayMlsClient::new(a_id.clone()).unwrap();
    let mut b = RelayMlsClient::new(b_id.clone()).unwrap();
    assert_eq!(a.client_id(), a_id);

    let kp_b = b.create_key_package().unwrap();
    let gid = a.create_group().unwrap();
    assert_eq!(gid.len(), 32);
    let added = a.add_member(&gid, &kp_b).unwrap();
    let joined = b.join_from_welcome(&added.welcome_bytes).unwrap();
    assert_eq!(joined.group_id, gid);

    // both sides list the same two members
    let mut members_a = a.members(&gid).unwrap();
    let mut members_b = b.members(&gid).unwrap();
    members_a.sort();
    members_b.sort();
    assert_eq!(members_a, members_b);
    assert_eq!(members_a, vec![a_id.clone(), b_id.clone()]);

    // a byte-exact round trip in both directions
    let m1: Vec<u8> = vec![0, 1, 2, 254, 255];
    let ct1 = a.encrypt(&gid, &m1).unwrap();
    let got = b.decrypt(&gid, &ct1).unwrap();
    assert_eq!(got.plaintext, m1);
    assert_eq!(got.sender_client_id, b"unknown".to_vec());
    let m2 = b"right back at you".to_vec();
    let ct2 = b.encrypt(&gid, &m2).unwrap();
    assert_eq!(a.decrypt(&gid, &ct2).unwrap().plaintext, m2);
}

#[test]
fn facade_unknown_group_is_reported() {
    let mut a = RelayMlsClient::new(vec![b'3'; 32]).unwrap();
    let missing = vec![b'0'; 32];
    assert_eq!(a.encrypt(&missing, &b"x".to_vec()), Err(OpenMlsError::GroupNotFound));
    assert_eq!(a.members(&missing), Err(OpenMlsError::GroupNotFound));
}

#[test]
fn p4_snapshots_do_not_decrypt_later_ciphertexts() {
    // forward secrecy marker: after the ratchet has moved past a message,
    // the keeper of the old state cannot recover it again
    let a_id = vec![b'5'; 32];
    let b_id = vec![b'6'; 32];
    let mut a = RelayMlsClient::new(a_id).unwrap();
    let mut b = RelayMlsClient::new(b_id).unwrap();
    let kp_b = b.create_key_package().unwrap();
    let gid = a.create_group().unwrap();
    let added = a.add_member(&gid, &kp_b).unwrap();
    b.join_from_welcome(&added.welcome_bytes).unwrap();

    // two messages in each direction, captured off the wire
    let ct1 = a.encrypt(&gid, &b"one".to_vec()).unwrap();
    assert_eq!(b.decrypt(&gid, &ct1).unwrap().plaintext, b"one".to_vec());
    let ct2 = a.encrypt(&gid, &b"two".to_vec()).unwrap();
    assert_eq!(b.decrypt(&gid, &ct2).unwrap().plaintext, b"two".to_vec());
    let ct3 = b.encrypt(&gid, &b"three".to_vec()).unwrap();
    assert_eq!(a.decrypt(&gid, &ct3).unwrap().plaintext, b"three".to_vec());
    let ct4 = b.encrypt(&gid, &b"four".to_vec()).unwrap();
    assert_eq!(a.decrypt(&gid, &ct4).unwrap().plaintext, b"four".to_vec());

    // the ratchet deleted the keys of the consumed messages: replaying a
    // captured ciphertext recovers nothing
    assert!(b.decrypt(&gid, &ct1).is_err());
    assert!(b.decrypt(&gid, &ct2).is_err());
    assert!(a.decrypt(&gid, &ct3).is_err());
}

#[test]
fn identity_and_one_off_key_package() {
    let id = vec![b'9'; 32];
    let identity = generate_client_identity(id.clone()).unwrap();
    assert_eq!(identity.client_id, id);
    assert!(!identity.credential_bytes.is_empty());
    assert!(!identity.signature_public_key.is_empty());
    let bundle = create_key_package(id).unwrap();
    assert!(!bundle.key_package_bytes.is_empty());
    assert!(!bundle.key_package_hash.is_empty());
}

#[test]
fn standalone_group_accepts_a_hex_identifier() {
    // an identifier that reads as lowercase hex is decoded to raw bytes
    let g = OpenMlsGroup::new(b"deadbeefdeadbeefdeadbeefdeadbeef".to_vec(), vec![b'6'; 32])
        .unwrap();
    assert_eq!(g.group_id(), b"deadbeefdeadbeefdeadbeefdeadbeef".to_vec());
    assert_eq!(g.group_id.len(), 16);
}

#[test]
fn standalone_group_add_member_and_identify() {
    let gid = vec![0xabu8; 16];
    let mut g = OpenMlsGroup::new(gid, vec![b'7'; 32]).unwrap();
    assert_eq!(g.group_id(), b"abababababababababababababababab".to_vec());
    assert_eq!(g.members(), vec![vec![b'7'; 32]]);
    let bundle = create_key_package(vec![b'8'; 32]).unwrap();
    g.add_member(&bundle.key_package_bytes).unwrap();
    let mut members = g.members();
    members.sort();
    assert_eq!(members, vec![vec![b'7'; 32], vec![b'8'; 32]]);
    // our own publish comes back: refusing to decrypt it is an error, not
    // a panic
    let ct = g.encrypt(&b"to the void".to_vec()).unwrap();
    assert!(g.decrypt(&ct).is_err());
}
