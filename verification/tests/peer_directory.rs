use relay::directory::{Directory, PeerRecord};
use relay::RelayError;

fn record(id: &[u8]) -> PeerRecord {
    PeerRecord { peer_id: id.to_vec(), key_package: None, group: None }
}

#[test]
fn p7_prefix_resolution() {
    let mut d = Directory::new();
    d.records.push(record(b"aabbcc00000000000000000000000000"));
    d.records.push(record(b"aaccdd00000000000000000000000000"));
    // a prefix matching exactly one peer resolves to it
    assert_eq!(
        d.resolve_prefix(&b"aab".to_vec()),
        Ok(b"aabbcc00000000000000000000000000".to_vec())
    );
    // a prefix matching both is ambiguous
    assert_eq!(d.resolve_prefix(&b"aa".to_vec()), Err(RelayError::AmbiguousPeer));
    // a prefix matching nothing is unknown
    assert_eq!(d.resolve_prefix(&b"zz".to_vec()), Err(RelayError::UnknownPeer));
}

#[test]
fn exact_match_wins_over_prefix_ambiguity() {
    let mut d = Directory::new();
    d.records.push(record(b"aa"));
    d.records.push(record(b"aabb"));
    // "aa" prefixes both records, but names the first exactly
    assert_eq!(d.resolve_prefix(&b"aa".to_vec()), Ok(b"aa".to_vec()));
}

#[test]
fn empty_directory_knows_nobody() {
    let d = Directory::new();
    assert_eq!(d.resolve_prefix(&b"aa".to_vec()), Err(RelayError::UnknownPeer));
    assert_eq!(d.len(), 0);
    assert!(d.listing().is_empty());
    assert!(!d.has_group(&b"aa".to_vec()));
    assert!(!d.kp_known(&b"aa".to_vec()));
}

#[test]
fn listing_reports_ids_without_sessions() {
    let mut d = Directory::new();
    d.records.push(record(b"aabbcc00000000000000000000000000"));
    let listing = d.listing();
    assert_eq!(listing.len(), 1);
    assert_eq!(listing[0].0, b"aabbcc00000000000000000000000000".to_vec());
    assert!(!listing[0].1);
}
