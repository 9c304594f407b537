use relay::cbor::{read_arr_hdr, read_bstr, read_uint, write_arr_hdr, write_bstr, write_uint};
use relay::client::{decode_kp_publication, encode_kp_publication};
use relay::hexcode::{from_hex, to_hex};
use relay::sealed::{decode_envelope, encode_envelope, decode_inner, encode_inner, InnerPayload, SealedEnvelope};
use relay::sealed_client::{decode_bundle, encode_bundle};
use relay::topics::{classify_topic, topic_group_info, topic_group_msg, topic_key, topic_welcome, TopicKind};

#[test]
fn hex_exact_values() {
    assert_eq!(to_hex(&vec![]), Vec::<u8>::new());
    assert_eq!(to_hex(&vec![0xde, 0xad, 0xbe, 0xef]), b"deadbeef".to_vec());
    assert_eq!(from_hex(&b"deadbeef".to_vec()), Some(vec![0xde, 0xad, 0xbe, 0xef]));
    // odd length, uppercase and stray bytes are refused
    assert_eq!(from_hex(&b"abc".to_vec()), None);
    assert_eq!(from_hex(&b"AB".to_vec()), None);
    assert_eq!(from_hex(&b"g0".to_vec()), None);
}

#[test]
fn uint_headers_use_shortest_form() {
    let cases: Vec<(u64, Vec<u8>)> = vec![
        (0, vec![0x00]),
        (23, vec![0x17]),
        (24, vec![0x18, 24]),
        (255, vec![0x18, 0xff]),
        (256, vec![0x19, 0x01, 0x00]),
        (65535, vec![0x19, 0xff, 0xff]),
        (65536, vec![0x1a, 0x00, 0x01, 0x00, 0x00]),
        (0xffff_ffff, vec![0x1a, 0xff, 0xff, 0xff, 0xff]),
        (0x1_0000_0000, vec![0x1b, 0, 0, 0, 1, 0, 0, 0, 0]),
        (u64::MAX, vec![0x1b, 0xff, 0xff, 0xff, 0xff, 0xff, 0xff, 0xff, 0xff]),
    ];
    for (n, expected) in cases {
        let mut out = Vec::new();
        write_uint(&mut out, n);
        assert_eq!(out, expected, "encoding of {}", n);
        let (v, p) = read_uint(&out, 0).unwrap();
        assert_eq!((v, p), (n, out.len()));
    }
}

#[test]
fn non_minimal_headers_are_refused() {
    // 10 encoded with a one-byte argument instead of immediately
    assert_eq!(read_uint(&vec![0x18, 10], 0), None);
    // 100 encoded with a two-byte argument
    assert_eq!(read_uint(&vec![0x19, 0x00, 100], 0), None);
    // 300 encoded with a four-byte argument
    assert_eq!(read_uint(&vec![0x1a, 0, 0, 0x01, 0x2c], 0), None);
    // truncated header
    assert_eq!(read_uint(&vec![0x19, 0x01], 0), None);
    // reserved additional information
    assert_eq!(read_uint(&vec![0x1c], 0), None);
}

#[test]
fn byte_strings_round_trip() {
    let b = vec![1u8, 2, 3, 4, 5];
    let mut out = Vec::new();
    write_bstr(&mut out, &b);
    assert_eq!(out, vec![0x45, 1, 2, 3, 4, 5]);
    let (back, p) = read_bstr(&out, 0).unwrap();
    assert_eq!(back, b);
    assert_eq!(p, out.len());
}

#[test]
fn array_headers_round_trip() {
    let mut out = Vec::new();
    write_arr_hdr(&mut out, 4);
    assert_eq!(out, vec![0x84]);
    assert_eq!(read_arr_hdr(&out, 0), Some((4, 1)));
}

#[test]
fn envelope_matches_a_generic_cbor_encoder() {
    let env = SealedEnvelope {
        version: 1,
        ephemeral_public_key: vec![7u8; 32],
        encrypted_payload: vec![9u8; 40],
        pow_nonce: 77777,
    };
    let ours = encode_envelope(&env);
    let value = ciborium::value::Value::Array(vec![
        ciborium::value::Value::Integer(1.into()),
        ciborium::value::Value::Bytes(vec![7u8; 32]),
        ciborium::value::Value::Bytes(vec![9u8; 40]),
        ciborium::value::Value::Integer(77777.into()),
    ]);
    let mut theirs = Vec::new();
    ciborium::into_writer(&value, &mut theirs).unwrap();
    assert_eq!(ours, theirs);
}

#[test]
fn envelope_round_trips_and_rejects_trailing_bytes() {
    let env = SealedEnvelope {
        version: 1,
        ephemeral_public_key: (0u8..32).collect(),
        encrypted_payload: vec![0xab; 13],
        pow_nonce: u64::MAX,
    };
    let mut bytes = encode_envelope(&env);
    let back = decode_envelope(&bytes).unwrap();
    assert_eq!(back.version, 1);
    assert_eq!(back.ephemeral_public_key, env.ephemeral_public_key);
    assert_eq!(back.encrypted_payload, env.encrypted_payload);
    assert_eq!(back.pow_nonce, u64::MAX);
    bytes.push(0);
    assert!(decode_envelope(&bytes).is_none());
    assert!(decode_envelope(&vec![]).is_none());
    assert!(decode_envelope(&vec![0x83]).is_none());
}

#[test]
fn inner_payload_round_trips() {
    let inner = InnerPayload {
        msg_type: 3,
        sender_user_id: b"00112233445566778899aabbccddeeff".to_vec(),
        sender_identity_key: vec![],
        content: vec![5u8; 100],
        ratchet_tree: vec![6u8; 20],
        sender_outer_public_key: vec![7u8; 32],
    };
    let bytes = encode_inner(&inner);
    let back = decode_inner(&bytes).unwrap();
    assert_eq!(back.msg_type, 3);
    assert_eq!(back.sender_user_id, inner.sender_user_id);
    assert_eq!(back.sender_identity_key, inner.sender_identity_key);
    assert_eq!(back.content, inner.content);
    assert_eq!(back.ratchet_tree, inner.ratchet_tree);
    assert_eq!(back.sender_outer_public_key, inner.sender_outer_public_key);
}

#[test]
fn kp_publication_is_a_one_element_array() {
    let kp = vec![0xa5u8; 10];
    let pubd = encode_kp_publication(&kp).unwrap();
    assert_eq!(pubd[0], 0x81);
    assert_eq!(decode_kp_publication(&pubd), Some(kp.clone()));
    // a longer array still yields the first element
    let mut two = vec![0x82u8];
    two.extend_from_slice(&pubd[1..]);
    two.extend_from_slice(&[0x41, 0x00]);
    assert_eq!(decode_kp_publication(&two), Some(kp));
    // an empty array is refused
    assert_eq!(decode_kp_publication(&vec![0x80]), None);
}

#[test]
fn bundle_round_trips() {
    let kp = vec![1u8; 50];
    let outer = vec![2u8; 32];
    let b = encode_bundle(&kp, &outer).unwrap();
    assert_eq!(decode_bundle(&b), Some((kp, outer)));
    assert_eq!(decode_bundle(&vec![0x81, 0x40]), None);
}

#[test]
fn topics_build_and_classify() {
    let id = b"00112233445566778899aabbccddeeff".to_vec();
    let gid = vec![0xdeu8, 0xad, 0xbe, 0xef, 0, 1, 2, 3, 4, 5, 6, 7, 8, 9, 10, 11];
    let kt = topic_key(&id);
    assert_eq!(kt, b"relay/k/00112233445566778899aabbccddeeff".to_vec());
    let wt = topic_welcome(&id);
    assert_eq!(wt, b"relay/w/00112233445566778899aabbccddeeff".to_vec());
    let mt = topic_group_msg(&gid);
    assert_eq!(mt, b"relay/g/deadbeef000102030405060708090a0b/m".to_vec());
    let it = topic_group_info(&gid);
    assert_eq!(it, b"relay/g/deadbeef000102030405060708090a0b/i".to_vec());
    match classify_topic(&kt) {
        TopicKind::PeerKey(p) => assert_eq!(p, id),
        _ => panic!("key topic not sorted as a key topic"),
    }
    match classify_topic(&wt) {
        TopicKind::Welcome(p) => assert_eq!(p, id),
        _ => panic!("welcome topic not sorted as a welcome topic"),
    }
    match classify_topic(&mt) {
        TopicKind::GroupMsg(h) => assert_eq!(h, to_hex(&gid)),
        _ => panic!("group topic not sorted as a group message topic"),
    }
    match classify_topic(&it) {
        TopicKind::GroupInfo(h) => assert_eq!(h, to_hex(&gid)),
        _ => panic!("info topic not sorted as a group info topic"),
    }
    match classify_topic(&b"other/topic".to_vec()) {
        TopicKind::Other => {},
        _ => panic!("unrelated topic not sorted as other"),
    }
}
