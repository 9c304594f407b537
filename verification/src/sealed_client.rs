//! The metadata-hiding variant of the client.
//!
//! Peers advertise a bundle holding their key package and their outer
//! X25519 public key. Welcomes and application messages travel inside
//! sealed envelopes: the welcome on the recipient's welcome topic, the
//! application traffic on the group's message topic. The envelope codec is
//! specified exactly in `sealed`; this module drives it.

use vstd::prelude::*;
use crate::bytes::bytes_eq;
use crate::cbor::{
    arr_dec, arr_hdr, bstr_dec, bstr_enc, lemma_arr_round_trip, lemma_bstr_round_trip,
    lemma_head_enc_len, lemma_pow256_values, pow256, read_arr_hdr, read_bstr, write_arr_hdr,
    write_bstr,
};
use crate::client::{acts, Action, ActionView};
use crate::cryptobox::{gen_x25519_keypair, x25519_base};
use crate::directory::GroupHandle;
use crate::mls;
use crate::sealed::{
    decode_envelope, envelope_dec, envelope_enc, pow_ok, seal_message, sealed_for,
    unseal_message, unseal_spec, EnvelopeView, InnerPayload, InnerView,
};
use crate::topics::{
    classify_topic, key_topic, topic_key, topic_welcome, welcome_topic, TopicKind,
};
use crate::RelayError;

verus! {

/// The welcome message type inside an envelope.
pub const MSG_TYPE_WELCOME: u8 = 3;

/// The application message type inside an envelope.
pub const MSG_TYPE_APPLICATION: u8 = 5;

/// What is known of one peer in the sealed variant.
pub struct SealedPeer {
    /// The peer's identifier.
    pub peer_id: Vec<u8>,
    /// The wire-encoded key package from the peer's bundle, until a group
    /// is established with it.
    pub kp_msg: Option<Vec<u8>>,
    /// The peer's outer X25519 public key, once observed.
    pub outer_pub: Option<Vec<u8>>,
    /// The established group, if any.
    pub group: Option<GroupHandle>,
}

/// The mathematical shadow of a sealed-variant record.
pub struct SealedPeerView {
    pub id: Seq<u8>,
    pub has_kp: bool,
    pub outer: Option<Seq<u8>>,
    pub gid: Option<Seq<u8>>,
}

impl View for SealedPeer {
    type V = SealedPeerView;

    open spec fn view(&self) -> SealedPeerView {
        SealedPeerView {
            id: self.peer_id@,
            has_kp: self.kp_msg is Some,
            outer: match self.outer_pub {
                Some(ref o) => Some(o@),
                None => None,
            },
            gid: match self.group {
                Some(ref h) => Some(h.group_id@),
                None => None,
            },
        }
    }
}

/// A sealed-variant record holds at most one of a key package and a group,
/// a sixteen-byte group identifier, a 32-byte outer key, and an identifier
/// a topic can carry.
pub open spec fn speer_ok(p: SealedPeerView) -> bool {
    &&& !(p.has_kp && p.gid is Some)
    &&& (p.gid matches Some(g) ==> g.len() == 16)
    &&& (p.outer matches Some(o) ==> o.len() == 32)
    &&& p.id.len() + 8 <= usize::MAX
}

/// Identifiers pairwise distinct, every record well formed.
pub open spec fn speers_wf(s: Seq<SealedPeerView>) -> bool {
    &&& forall|i: int, j: int| 0 <= i < j < s.len() ==> s[i].id != s[j].id
    &&& forall|i: int| 0 <= i < s.len() ==> speer_ok(#[trigger] s[i])
}

/// True when some record carries the identifier.
pub open spec fn s_has_id(s: Seq<SealedPeerView>, id: Seq<u8>) -> bool {
    exists|i: int| 0 <= i < s.len() && s[i].id == id
}

/// True when some record for the identifier carries an installed group.
pub open spec fn s_in_session(s: Seq<SealedPeerView>, id: Seq<u8>) -> bool {
    exists|i: int| 0 <= i < s.len() && s[i].id == id && s[i].gid is Some
}

/// True when some record for the identifier carries a key package.
pub open spec fn s_kp_known(s: Seq<SealedPeerView>, id: Seq<u8>) -> bool {
    exists|i: int| 0 <= i < s.len() && s[i].id == id && s[i].has_kp
}

/// True when some record for the identifier lacks an outer key.
pub open spec fn s_outer_missing(s: Seq<SealedPeerView>, id: Seq<u8>) -> bool {
    exists|i: int| 0 <= i < s.len() && s[i].id == id && s[i].outer is None
}

/// True when some record for the identifier carries this outer key.
pub open spec fn s_outer_of(s: Seq<SealedPeerView>, id: Seq<u8>, o: Seq<u8>) -> bool {
    exists|i: int| 0 <= i < s.len() && s[i].id == id && s[i].outer == Some(o)
}

/// What storing an advertised bundle does to the peer list: the record for
/// `id` holds the key package (unless a session already stands) and the
/// outer key; every other record is untouched.
pub open spec fn bundle_stored(
    pre: Seq<SealedPeerView>,
    post: Seq<SealedPeerView>,
    id: Seq<u8>,
    outer: Seq<u8>,
) -> bool {
    if s_has_id(pre, id) {
        &&& post.len() == pre.len()
        &&& forall|i: int| 0 <= i < pre.len() && pre[i].id != id ==> post[i] == #[trigger] pre[i]
        &&& forall|i: int|
            0 <= i < pre.len() && (#[trigger] pre[i].id) == id ==> post[i] == (SealedPeerView {
                id,
                has_kp: pre[i].gid is None,
                outer: Some(outer),
                gid: pre[i].gid,
            })
    } else {
        post =~= pre.push(SealedPeerView { id, has_kp: true, outer: Some(outer), gid: None })
    }
}

/// What refreshing a sender's outer key does to the peer list: the record
/// for `id` keeps everything but its outer key, which becomes `k`; every
/// other record is untouched.
pub open spec fn outer_refreshed(
    pre: Seq<SealedPeerView>,
    post: Seq<SealedPeerView>,
    id: Seq<u8>,
    k: Seq<u8>,
) -> bool {
    &&& post.len() == pre.len()
    &&& forall|i: int| 0 <= i < pre.len() && pre[i].id != id ==> post[i] == #[trigger] pre[i]
    &&& forall|i: int|
        0 <= i < pre.len() && (#[trigger] pre[i].id) == id ==> post[i] == (SealedPeerView {
            id,
            has_kp: pre[i].has_kp,
            outer: Some(k),
            gid: pre[i].gid,
        })
}

/// A non-retained publish on the peer's welcome topic of a worked envelope
/// that seals a payload of the given type, from this sender and carrying
/// its outer key, to the peer's outer key. An application payload carries
/// no ratchet tree and no identity key.
pub open spec fn sealed_publish(
    a: ActionView,
    peer: Seq<u8>,
    me: Seq<u8>,
    my_outer: Seq<u8>,
    outer: Seq<u8>,
    t: u8,
) -> bool {
    a matches ActionView::Publish { topic, payload, retained } && topic == welcome_topic(peer)
        && !retained && (exists|e: EnvelopeView, iv: InnerView|
        {
            &&& #[trigger] sealed_for(e, iv, outer)
            &&& payload == envelope_enc(e)
            &&& pow_ok(e)
            &&& e.version == 1
            &&& iv.msg_type == t
            &&& iv.sender_user_id == me
            &&& iv.sender_outer_public_key == my_outer
            &&& (t == MSG_TYPE_APPLICATION ==> iv.ratchet_tree.len() == 0
                && iv.sender_identity_key.len() == 0)
        })
}

/// With distinct identifiers, the record at `idx` is the only one carrying
/// its identifier; an outer key present there and a key package or session
/// rule out the `chat` command's own refusals.
proof fn lemma_peer_state_at(pre: Seq<SealedPeerView>, idx: int, peer: Seq<u8>)
    requires
        speers_wf(pre),
        0 <= idx < pre.len(),
        pre[idx].id == peer,
    ensures
        s_has_id(pre, peer),
        forall|j: int| 0 <= j < pre.len() && (#[trigger] pre[j].id) == peer ==> j == idx,
        s_in_session(pre, peer) <==> pre[idx].gid is Some,
        s_kp_known(pre, peer) <==> pre[idx].has_kp,
        s_outer_missing(pre, peer) <==> pre[idx].outer is None,
{
    assert forall|j: int| 0 <= j < pre.len() && (#[trigger] pre[j].id) == peer implies j
        == idx by {
        if j < idx {
            assert(pre[j].id != pre[idx].id);
        } else if j > idx {
            assert(pre[idx].id != pre[j].id);
        }
    }
    if s_in_session(pre, peer) {
        let j = choose|j: int| 0 <= j < pre.len() && pre[j].id == peer && pre[j].gid is Some;
        assert(j == idx);
    }
    if s_kp_known(pre, peer) {
        let j = choose|j: int| 0 <= j < pre.len() && pre[j].id == peer && pre[j].has_kp;
        assert(j == idx);
    }
    if s_outer_missing(pre, peer) {
        let j = choose|j: int| 0 <= j < pre.len() && pre[j].id == peer && pre[j].outer is None;
        assert(j == idx);
    }
}

/// The advertised bundle: the wire-encoded key package and the outer
/// public key, as a two-element array.
pub open spec fn bundle_enc(kp: Seq<u8>, outer: Seq<u8>) -> Seq<u8> {
    arr_hdr(2) + bstr_enc(kp) + bstr_enc(outer)
}

/// Decodes a bundle: exactly the encodings of `bundle_enc`, with nothing
/// following.
pub open spec fn bundle_dec(s: Seq<u8>) -> Option<(Seq<u8>, Seq<u8>)> {
    match arr_dec(s, 0) {
        Some((k, p1)) => if k == 2 {
            match bstr_dec(s, p1) {
                Some((kp, p2)) => match bstr_dec(s, p2) {
                    Some((outer, p3)) => if p3 == s.len() {
                        Some((kp, outer))
                    } else {
                        None
                    },
                    None => None,
                },
                None => None,
            }
        } else {
            None
        },
        None => None,
    }
}

/// Decoding an encoded bundle yields it back.
pub proof fn lemma_bundle_round_trip(kp: Seq<u8>, outer: Seq<u8>)
    requires
        kp.len() < pow256(8),
        outer.len() < pow256(8),
    ensures
        bundle_dec(bundle_enc(kp, outer)) == Some((kp, outer)),
{
    lemma_pow256_values();
    let s = bundle_enc(kp, outer);
    let p1 = arr_hdr(2).len() as int;
    let p2 = p1 + bstr_enc(kp).len();
    let p3 = p2 + bstr_enc(outer).len();
    assert(s.subrange(0, p1) =~= arr_hdr(2));
    assert(s.subrange(p1, p2) =~= bstr_enc(kp));
    assert(s.subrange(p2, p3) =~= bstr_enc(outer));
    lemma_arr_round_trip(s, 0, 2);
    lemma_bstr_round_trip(s, p1, kp);
    lemma_bstr_round_trip(s, p2, outer);
}

/// Encodes a bundle; refuses only oversized contents.
pub fn encode_bundle(kp: &Vec<u8>, outer: &Vec<u8>) -> (r: Option<Vec<u8>>)
    ensures
        r matches Some(v) ==> v@ == bundle_enc(kp@, outer@),
        kp@.len() + outer@.len() <= usize::MAX - 64 ==> r is Some,
{
    if kp.len() > usize::MAX - 64 || outer.len() > (usize::MAX - 64) - kp.len() {
        return None;
    }
    let mut out: Vec<u8> = Vec::new();
    proof {
        lemma_head_enc_len(4, 2);
        lemma_head_enc_len(2, kp@.len() as nat);
        lemma_head_enc_len(2, outer@.len() as nat);
    }
    write_arr_hdr(&mut out, 2);
    write_bstr(&mut out, kp);
    write_bstr(&mut out, outer);
    proof {
        assert(out@ =~= bundle_enc(kp@, outer@));
    }
    Some(out)
}

/// Decodes a bundle; refuses exactly what the spec decoder refuses.
pub fn decode_bundle(bytes: &Vec<u8>) -> (r: Option<(Vec<u8>, Vec<u8>)>)
    requires
        bytes@.len() <= usize::MAX - 9,
    ensures
        match r {
            Some(p) => bundle_dec(bytes@) == Some((p.0@, p.1@)),
            None => bundle_dec(bytes@) is None,
        },
{
    let (k, p1) = match read_arr_hdr(bytes, 0) {
        Some(x) => x,
        None => {
            return None;
        },
    };
    if k != 2 {
        return None;
    }
    let (kp, p2) = match read_bstr(bytes, p1) {
        Some(x) => x,
        None => {
            return None;
        },
    };
    let (outer, p3) = match read_bstr(bytes, p2) {
        Some(x) => x,
        None => {
            return None;
        },
    };
    if p3 != bytes.len() {
        return None;
    }
    Some((kp, outer))
}

/// The sealed-variant client.
pub struct SealedClient {
    /// This client's identifier: 32 bytes of lowercase hex.
    pub client_id: Vec<u8>,
    /// The outer X25519 secret; read-only after construction.
    pub outer_secret: Vec<u8>,
    /// The outer X25519 public key: the base point times the secret.
    pub outer_public: Vec<u8>,
    /// The known peers.
    pub peers: Vec<SealedPeer>,
    /// The MLS provider; opaque to the verified code.
    pub provider: openmls_rust_crypto::OpenMlsRustCrypto,
    /// The signature key pair; opaque to the verified code.
    pub signer: openmls_basic_credential::SignatureKeyPair,
    /// The credential binding the identifier to the signature key.
    pub credential: openmls::credentials::CredentialWithKey,
}

impl SealedClient {
    /// The view of the peer list.
    pub open spec fn pview(&self) -> Seq<SealedPeerView> {
        self.peers@.map_values(|r: SealedPeer| r@)
    }

    /// The client's invariant.
    pub open spec fn wf(&self) -> bool {
        &&& speers_wf(self.pview())
        &&& self.client_id@.len() == 32
        &&& self.outer_secret@.len() == 32
        &&& self.outer_public@.len() == 32
        &&& self.outer_public@ == x25519_base(self.outer_secret@)
    }

    /// Builds a client with the given identifier and a fresh outer key
    /// pair.
    pub fn new(client_id: Vec<u8>) -> (r: Result<SealedClient, RelayError>)
        requires
            client_id@.len() == 32,
        ensures
            r matches Ok(c) ==> c.wf() && c.client_id@ == client_id@ && c.pview() =~= Seq::<
                SealedPeerView,
            >::empty(),
    {
        let provider = mls::new_provider();
        let signer = match mls::new_signer() {
            Ok(s) => s,
            Err(e) => {
                return Err(e);
            },
        };
        match mls::store_signer(&provider, &signer) {
            Ok(u) => u,
            Err(e) => {
                return Err(e);
            },
        };
        let credential = mls::make_credential(&client_id, &signer);
        let (outer_secret, outer_public) = gen_x25519_keypair();
        Ok(
            SealedClient {
                client_id,
                outer_secret,
                outer_public,
                peers: Vec::new(),
                provider,
                signer,
                credential,
            },
        )
    }

    /// The position of the record with the given identifier.
    fn lookup(&self, id: &Vec<u8>) -> (r: Option<usize>)
        ensures
            match r {
                Some(i) => i < self.pview().len() && self.pview()[i as int].id == id@,
                None => !s_has_id(self.pview(), id@),
            },
    {
        let mut i: usize = 0;
        while i < self.peers.len()
            invariant
                i <= self.pview().len(),
                self.pview().len() == self.peers@.len(),
                forall|j: int| 0 <= j < i ==> self.pview()[j].id != id@,
            decreases self.pview().len() - i,
        {
            if bytes_eq(&self.peers[i].peer_id, id) {
                return Some(i);
            }
            i = i + 1;
        }
        None
    }

    /// Builds the retained advertisement of a fresh key package and the
    /// outer public key on this client's key topic.
    pub fn publish_bundle(&self) -> (r: Result<Action, RelayError>)
        requires
            self.wf(),
        ensures
            r matches Ok(a) ==> (a@ matches ActionView::Publish { topic, payload, retained }
                && topic == key_topic(self.client_id@) && retained && (exists|kp: Seq<u8>|
                payload == bundle_enc(kp, self.outer_public@))),
    {
        let kp_bytes = match mls::fresh_key_package_msg(&self.provider, &self.signer,
            &self.credential) {
            Ok(b) => b,
            Err(e) => {
                return Err(e);
            },
        };
        let payload = match encode_bundle(&kp_bytes, &self.outer_public) {
            Some(p) => p,
            None => {
                return Err(RelayError::Serialization);
            },
        };
        let topic = topic_key(&self.client_id);
        Ok(Action::Publish { topic, payload, retained: true })
    }

    /// The topic this client receives welcomes on.
    pub fn subscribe_welcome(&self) -> (r: Action)
        requires
            self.wf(),
        ensures
            r@ == (ActionView::Subscribe { topic: welcome_topic(self.client_id@) }),
    {
        Action::Subscribe { topic: topic_welcome(&self.client_id) }
    }

    /// The `connect` command: a subscription to the peer's key topic,
    /// where its retained bundle waits.
    pub fn connect(&self, peer: &Vec<u8>) -> (r: Action)
        requires
            peer@.len() + 8 <= usize::MAX,
        ensures
            r@ == (ActionView::Subscribe { topic: key_topic(peer@) }),
    {
        Action::Subscribe { topic: topic_key(peer) }
    }

    /// The member identifiers of the group established with the peer.
    pub fn group_members(&self, peer: &Vec<u8>) -> (r: Result<Vec<Vec<u8>>, RelayError>)
        ensures
            !s_has_id(self.pview(), peer@) ==> r == Err::<Vec<Vec<u8>>, RelayError>(
                RelayError::NoSession,
            ),
    {
        let idx = match self.lookup(peer) {
            Some(i) => i,
            None => {
                return Err(RelayError::NoSession);
            },
        };
        match &self.peers[idx].group {
            Some(h) => Ok(mls::member_ids(&h.mls)),
            None => Err(RelayError::NoSession),
        }
    }

    /// Stores a peer's advertised bundle. Our own retained advertisement
    /// is ignored; a record that already carries a group keeps it and only
    /// refreshes the outer key.
    pub fn handle_bundle(&mut self, topic: &Vec<u8>, payload: &Vec<u8>) -> (r: Result<
        (),
        RelayError,
    >)
        requires
            old(self).wf(),
            payload@.len() <= usize::MAX - 9,
        ensures
            final(self).wf(),
            final(self).client_id@ == old(self).client_id@,
            final(self).outer_secret@ == old(self).outer_secret@,
            final(self).outer_public@ == old(self).outer_public@,
            topic@ == key_topic(old(self).client_id@) ==> r is Ok && final(self).pview() == old(
                self,
            ).pview(),
            !crate::bytes::is_prefix(crate::topics::key_prefix(), topic@) ==> r == Err::<
                (),
                RelayError,
            >(RelayError::ProtocolViolation) && final(self).pview() == old(self).pview(),
            r matches Ok(u) && topic@ != key_topic(old(self).client_id@) ==> (bundle_dec(
                payload@,
            ) matches Some(b) && b.1.len() == 32 && s_has_id(final(self).pview(), topic@.skip(8))),
            r is Err ==> final(self).pview() == old(self).pview(),
            (crate::bytes::is_prefix(crate::topics::key_prefix(), topic@) && topic@ != key_topic(
                old(self).client_id@,
            )) ==> {
                &&& bundle_dec(payload@) is None ==> r == Err::<(), RelayError>(
                    RelayError::Serialization,
                )
                &&& (bundle_dec(payload@) matches Some(b) ==> (b.1.len() != 32 ==> r == Err::<
                    (),
                    RelayError,
                >(RelayError::InvalidKey)))
                &&& (bundle_dec(payload@) matches Some(b) ==> (b.1.len() == 32 ==> (r is Ok
                    && bundle_stored(old(self).pview(), final(self).pview(), topic@.skip(8), b.1))))
            },
    {
        proof {
            if topic@ == key_topic(old(self).client_id@) {
                assert(topic@.subrange(0, 8) =~= crate::topics::key_prefix());
            }
        }
        let kind = classify_topic(topic);
        let peer = match kind {
            TopicKind::PeerKey(p) => p,
            _ => {
                return Err(RelayError::ProtocolViolation);
            },
        };
        proof {
            assert(topic@.skip(8) =~= peer@);
            if topic@ == key_topic(old(self).client_id@) {
                crate::topics::lemma_key_topic_injective(peer@, old(self).client_id@);
            }
        }
        if bytes_eq(&peer, &self.client_id) {
            return Ok(());
        }
        let (kp, outer) = match decode_bundle(payload) {
            Some(b) => b,
            None => {
                return Err(RelayError::Serialization);
            },
        };
        if outer.len() != 32 {
            return Err(RelayError::InvalidKey);
        }
        proof {
            assert(topic@.len() == topic.len());
            assert(peer@.len() + 8 <= usize::MAX);
        }
        let ghost pre = self.pview();
        let found = self.lookup(&peer);
        match found {
            Some(i) => {
                let mut rec = self.peers.remove(i);
                if rec.group.is_none() {
                    rec.kp_msg = Some(kp);
                }
                rec.outer_pub = Some(outer);
                self.peers.insert(i, rec);
                proof {
                    assert(self.pview() =~= pre.update(i as int, self.pview()[i as int]));
                    assert(self.pview()[i as int].id == pre[i as int].id);
                    assert(speer_ok(self.pview()[i as int]));
                    assert forall|a: int, b: int|
                        0 <= a < b < self.pview().len() implies self.pview()[a].id
                        != self.pview()[b].id by {
                        assert(self.pview()[a].id == pre[a].id && self.pview()[b].id
                            == pre[b].id);
                    }
                    assert forall|a: int| 0 <= a < self.pview().len() implies speer_ok(
                        #[trigger] self.pview()[a],
                    ) by {
                        if a != i {
                            assert(self.pview()[a] == pre[a]);
                        }
                    }
                    lemma_peer_state_at(pre, i as int, peer@);
                    let post = self.pview();
                    assert forall|j: int|
                        0 <= j < pre.len() && (#[trigger] pre[j].id) == peer@ implies post[j]
                        == (SealedPeerView {
                        id: peer@,
                        has_kp: pre[j].gid is None,
                        outer: Some(outer@),
                        gid: pre[j].gid,
                    }) by {
                        assert(j == i);
                        assert(speer_ok(pre[i as int]));
                    }
                    assert(bundle_stored(pre, post, peer@, outer@));
                }
                Ok(())
            },
            None => {
                let rec = SealedPeer {
                    peer_id: peer,
                    kp_msg: Some(kp),
                    outer_pub: Some(outer),
                    group: None,
                };
                self.peers.push(rec);
                proof {
                    assert(self.pview() =~= pre.push(self.pview().last()));
                    assert(s_has_id(self.pview(), self.pview().last().id));
                    assert(bundle_stored(pre, self.pview(), peer@, outer@));
                    assert forall|a: int, b: int|
                        0 <= a < b < self.pview().len() implies self.pview()[a].id
                        != self.pview()[b].id by {
                        if b == pre.len() {
                            assert(self.pview()[a] == pre[a]);
                            if pre[a].id == self.pview()[b].id {
                                assert(s_has_id(pre, self.pview()[b].id));
                            }
                        } else {
                            assert(self.pview()[a] == pre[a] && self.pview()[b] == pre[b]);
                        }
                    }
                    assert forall|a: int| 0 <= a < self.pview().len() implies speer_ok(
                        #[trigger] self.pview()[a],
                    ) by {
                        if a < pre.len() {
                            assert(self.pview()[a] == pre[a]);
                        }
                    }
                }
                Ok(())
            },
        }
    }
}


/// Updating one record in place preserves well-formedness when the new
/// record keeps the identifier and is itself well formed.
proof fn lemma_speers_update_wf(pre: Seq<SealedPeerView>, post: Seq<SealedPeerView>, i: int)
    requires
        speers_wf(pre),
        0 <= i < pre.len(),
        post == pre.update(i, post[i]),
        post[i].id == pre[i].id,
        speer_ok(post[i]),
    ensures
        speers_wf(post),
{
    assert forall|a: int, b: int| 0 <= a < b < post.len() implies post[a].id != post[b].id by {
        assert(post[a].id == pre[a].id && post[b].id == pre[b].id);
    }
    assert forall|a: int| 0 <= a < post.len() implies speer_ok(#[trigger] post[a]) by {
        if a != i {
            assert(post[a] == pre[a]);
        }
    }
}

/// Refreshing one record's outer key in place keeps the list well formed
/// and realises the refresh relation.
proof fn lemma_outer_refresh(
    pre: Seq<SealedPeerView>,
    post: Seq<SealedPeerView>,
    idx: int,
    k: Seq<u8>,
)
    requires
        speers_wf(pre),
        0 <= idx < pre.len(),
        post == pre.update(idx, post[idx]),
        post[idx] == (SealedPeerView {
            id: pre[idx].id,
            has_kp: pre[idx].has_kp,
            outer: Some(k),
            gid: pre[idx].gid,
        }),
        k.len() == 32,
    ensures
        speers_wf(post),
        outer_refreshed(pre, post, pre[idx].id, k),
{
    assert(speer_ok(pre[idx]));
    assert(speer_ok(post[idx]));
    lemma_speers_update_wf(pre, post, idx);
    lemma_peer_state_at(pre, idx, pre[idx].id);
    assert forall|j: int|
        0 <= j < pre.len() && (#[trigger] pre[j].id) == pre[idx].id implies post[j]
        == (SealedPeerView {
        id: pre[idx].id,
        has_kp: pre[j].has_kp,
        outer: Some(k),
        gid: pre[j].gid,
    }) by {
        assert(j == idx);
    }
}

/// Whether an inner payload fits the encoder's machine bound.
fn inner_fits(p: &InnerPayload) -> (r: bool)
    ensures
        r == crate::sealed::inner_len_ok(p@),
{
    let lim: usize = usize::MAX - 128;
    if p.sender_user_id.len() > lim {
        return false;
    }
    let mut acc: usize = p.sender_user_id.len();
    if p.sender_identity_key.len() > lim - acc {
        return false;
    }
    acc = acc + p.sender_identity_key.len();
    if p.content.len() > lim - acc {
        return false;
    }
    acc = acc + p.content.len();
    if p.ratchet_tree.len() > lim - acc {
        return false;
    }
    acc = acc + p.ratchet_tree.len();
    if p.sender_outer_public_key.len() > lim - acc {
        return false;
    }
    true
}

impl SealedClient {
    /// The `chat` command of the sealed variant. Without a session it first
    /// consumes the peer's advertised key package: it creates the group
    /// and seals the welcome (with the ratchet tree) to the peer's outer
    /// key. It then seals the message to the same topic - all envelopes
    /// for a peer travel on the peer's welcome topic, routed by the sender
    /// identifier inside - and echoes it locally. Every published envelope
    /// satisfies the work target.
    pub fn send_chat(&mut self, peer_id: &Vec<u8>, text: &Vec<u8>) -> (r: Result<
        Vec<Action>,
        RelayError,
    >)
        requires
            old(self).wf(),
        ensures
            final(self).wf(),
            final(self).client_id@ == old(self).client_id@,
            final(self).outer_secret@ == old(self).outer_secret@,
            r == Err::<Vec<Action>, RelayError>(RelayError::UnknownPeer) <==> (!s_has_id(
                old(self).pview(),
                peer_id@,
            ) || s_outer_missing(old(self).pview(), peer_id@) || (!s_in_session(
                old(self).pview(),
                peer_id@,
            ) && !s_kp_known(old(self).pview(), peer_id@))),
            !s_has_id(old(self).pview(), peer_id@) ==> r == Err::<Vec<Action>, RelayError>(
                RelayError::UnknownPeer,
            ) && final(self).pview() == old(self).pview(),
            r matches Ok(a) ==> {
                &&& (exists|i: int|
                    0 <= i < final(self).pview().len()
                        && (#[trigger] final(self).pview()[i]).id == peer_id@
                        && final(self).pview()[i].gid is Some)
                &&& acts(a@).last() == (ActionView::DeliverText {
                    peer: old(self).client_id@,
                    text: text@,
                })
                &&& exists|o: Seq<u8>|
                    {
                        &&& #[trigger] s_outer_of(old(self).pview(), peer_id@, o)
                        &&& (s_in_session(old(self).pview(), peer_id@) ==> a@.len() == 2
                            && sealed_publish(
                            acts(a@)[0],
                            peer_id@,
                            old(self).client_id@,
                            old(self).outer_public@,
                            o,
                            MSG_TYPE_APPLICATION,
                        ))
                        &&& (!s_in_session(old(self).pview(), peer_id@) ==> a@.len() == 3
                            && sealed_publish(
                            acts(a@)[0],
                            peer_id@,
                            old(self).client_id@,
                            old(self).outer_public@,
                            o,
                            MSG_TYPE_WELCOME,
                        ) && sealed_publish(
                            acts(a@)[1],
                            peer_id@,
                            old(self).client_id@,
                            old(self).outer_public@,
                            o,
                            MSG_TYPE_APPLICATION,
                        ))
                    }
            },
    {
        let idx = match self.lookup(peer_id) {
            Some(i) => i,
            None => {
                return Err(RelayError::UnknownPeer);
            },
        };
        let ghost pre = self.pview();
        let mut rec = self.peers.remove(idx);
        proof {
            assert(rec@ == pre[idx as int]);
            assert(speer_ok(pre[idx as int]));
            lemma_peer_state_at(pre, idx as int, peer_id@);
        }
        let mut actions: Vec<Action> = Vec::new();
        let ghost was_sess = pre[idx as int].gid is Some;
        if rec.group.is_none() {
            let outer = match &rec.outer_pub {
                Some(o) => o.clone(),
                None => {
                    self.peers.insert(idx, rec);
                    proof {
                        assert(self.pview() =~= pre);
                    }
                    return Err(RelayError::UnknownPeer);
                },
            };
            let kp_slot = rec.kp_msg;
            rec.kp_msg = None;
            let kp_bytes = match kp_slot {
                Some(b) => b,
                None => {
                    self.peers.insert(idx, rec);
                    proof {
                        assert(self.pview() =~= pre);
                    }
                    return Err(RelayError::UnknownPeer);
                },
            };
            let kp = match mls::parse_validate_key_package(&self.provider, &kp_bytes) {
                Ok(k) => k,
                Err(e) => {
                    rec.kp_msg = Some(kp_bytes);
                    self.peers.insert(idx, rec);
                    proof {
                        assert(self.pview() =~= pre);
                    }
                    return Err(e);
                },
            };
            let gid = crate::cryptobox::random_bytes_16();
            let t_welcome = topic_welcome(&rec.peer_id);
            let created = mls::create_group(&self.provider, &self.signer, &self.credential,
                &gid);
            let mut group = match created {
                Ok(g) => g,
                Err(e) => {
                    rec.kp_msg = Some(kp_bytes);
                    self.peers.insert(idx, rec);
                    proof {
                        assert(self.pview() =~= pre);
                    }
                    return Err(e);
                },
            };
            let added = mls::add_member(&self.provider, &self.signer, &mut group, &kp);
            let (_commit_bytes, welcome_bytes, _info) = match added {
                Ok(x) => x,
                Err(e) => {
                    rec.kp_msg = Some(kp_bytes);
                    self.peers.insert(idx, rec);
                    proof {
                        assert(self.pview() =~= pre);
                    }
                    return Err(e);
                },
            };
            match mls::merge_pending(&self.provider, &mut group) {
                Ok(u) => u,
                Err(e) => {
                    rec.kp_msg = Some(kp_bytes);
                    self.peers.insert(idx, rec);
                    proof {
                        assert(self.pview() =~= pre);
                    }
                    return Err(e);
                },
            };
            let tree_bytes = match mls::export_ratchet_tree_bytes(&group) {
                Ok(t) => t,
                Err(e) => {
                    rec.kp_msg = Some(kp_bytes);
                    self.peers.insert(idx, rec);
                    proof {
                        assert(self.pview() =~= pre);
                    }
                    return Err(e);
                },
            };
            let inner = InnerPayload {
                msg_type: MSG_TYPE_WELCOME,
                sender_user_id: self.client_id.clone(),
                sender_identity_key: Vec::new(),
                content: welcome_bytes,
                ratchet_tree: tree_bytes,
                sender_outer_public_key: self.outer_public.clone(),
            };
            if !inner_fits(&inner) {
                rec.kp_msg = Some(kp_bytes);
                self.peers.insert(idx, rec);
                proof {
                    assert(self.pview() =~= pre);
                }
                return Err(RelayError::Serialization);
            }
            let env = match seal_message(&inner, &outer) {
                Ok(e) => e,
                Err(e) => {
                    rec.kp_msg = Some(kp_bytes);
                    self.peers.insert(idx, rec);
                    proof {
                        assert(self.pview() =~= pre);
                    }
                    return Err(e);
                },
            };
            let ghost wenv = env@;
            let ghost winner = inner@;
            let ghost wouter = outer@;
            let env_bytes = crate::sealed::encode_envelope(&env);
            actions.push(Action::Publish { topic: t_welcome, payload: env_bytes, retained: false });
            rec.group = Some(GroupHandle { mls: group, group_id: gid });
            proof {
                assert(sealed_publish(
                    actions@[0]@,
                    peer_id@,
                    self.client_id@,
                    self.outer_public@,
                    wouter,
                    MSG_TYPE_WELCOME,
                )) by {
                    assert(sealed_for(wenv, winner, wouter));
                    assert(winner.msg_type == MSG_TYPE_WELCOME && winner.sender_user_id
                        == self.client_id@ && winner.sender_outer_public_key
                        == self.outer_public@);
                }
            }
        }
        let gslot = rec.group;
        rec.group = None;
        let mut handle = match gslot {
            Some(h) => h,
            None => {
                proof {
                    assert(false);
                }
                return Err(RelayError::NoSession);
            },
        };
        let outer = match &rec.outer_pub {
            Some(o) => o.clone(),
            None => {
                rec.group = Some(handle);
                self.peers.insert(idx, rec);
                proof {
                    let post = self.pview();
                    assert(post =~= pre.update(idx as int, post[idx as int]));
                    assert(post[idx as int].id == pre[idx as int].id);
                    assert(speer_ok(post[idx as int]));
                    lemma_speers_update_wf(pre, post, idx as int);
                }
                return Err(RelayError::UnknownPeer);
            },
        };
        let encrypted = mls::create_app_message(&self.provider, &self.signer, &mut handle.mls,
            text);
        let msg_bytes = match encrypted {
            Ok(m) => m,
            Err(e) => {
                rec.group = Some(handle);
                self.peers.insert(idx, rec);
                proof {
                    let post = self.pview();
                    assert(post =~= pre.update(idx as int, post[idx as int]));
                    assert(post[idx as int].id == pre[idx as int].id);
                    assert(speer_ok(post[idx as int]));
                    lemma_speers_update_wf(pre, post, idx as int);
                }
                return Err(e);
            },
        };
        let inner = InnerPayload {
            msg_type: MSG_TYPE_APPLICATION,
            sender_user_id: self.client_id.clone(),
            sender_identity_key: Vec::new(),
            content: msg_bytes,
            ratchet_tree: Vec::new(),
            sender_outer_public_key: self.outer_public.clone(),
        };
        if !inner_fits(&inner) {
            rec.group = Some(handle);
            self.peers.insert(idx, rec);
            proof {
                let post = self.pview();
                assert(post =~= pre.update(idx as int, post[idx as int]));
                assert(post[idx as int].id == pre[idx as int].id);
                assert(speer_ok(post[idx as int]));
                lemma_speers_update_wf(pre, post, idx as int);
            }
            return Err(RelayError::Serialization);
        }
        let env = match seal_message(&inner, &outer) {
            Ok(e) => e,
            Err(e) => {
                rec.group = Some(handle);
                self.peers.insert(idx, rec);
                proof {
                    let post = self.pview();
                    assert(post =~= pre.update(idx as int, post[idx as int]));
                    assert(post[idx as int].id == pre[idx as int].id);
                    assert(speer_ok(post[idx as int]));
                    lemma_speers_update_wf(pre, post, idx as int);
                }
                return Err(e);
            },
        };
        let env_bytes = crate::sealed::encode_envelope(&env);
        let t = topic_welcome(&rec.peer_id);
        let ghost gidv = handle.group_id@;
        rec.group = Some(handle);
        self.peers.insert(idx, rec);
        actions.push(Action::Publish { topic: t, payload: env_bytes, retained: false });
        actions.push(
            Action::DeliverText { peer: self.client_id.clone(), text: text.clone() },
        );
        proof {
            let n = actions@.len() as int;
            assert(acts(actions@)[n - 2] == actions@[n - 2]@);
            assert(acts(actions@)[n - 1] == actions@[n - 1]@);
            if !was_sess {
                assert(acts(actions@)[0] == actions@[0]@);
            }
            let post = self.pview();
            assert(post =~= pre.update(idx as int, post[idx as int]));
            assert(post[idx as int].id == peer_id@ && post[idx as int].gid == Some(gidv));
            assert(speer_ok(post[idx as int]));
            assert forall|a2: int, b2: int| 0 <= a2 < b2 < post.len() implies post[a2].id
                != post[b2].id by {
                assert(post[a2].id == pre[a2].id && post[b2].id == pre[b2].id);
            }
            assert forall|a2: int| 0 <= a2 < post.len() implies speer_ok(
                #[trigger] post[a2],
            ) by {
                if a2 != idx {
                    assert(post[a2] == pre[a2]);
                }
            }
            let o = outer@;
            assert(pre[idx as int].outer == Some(o));
            assert(s_outer_of(pre, peer_id@, o));
            assert(sealed_publish(
                actions@[n - 2]@,
                peer_id@,
                self.client_id@,
                self.outer_public@,
                o,
                MSG_TYPE_APPLICATION,
            )) by {
                assert(sealed_for(env@, inner@, o));
                assert(inner@.msg_type == MSG_TYPE_APPLICATION && inner@.sender_user_id
                    == self.client_id@ && inner@.sender_outer_public_key == self.outer_public@
                    && inner@.ratchet_tree.len() == 0 && inner@.sender_identity_key.len() == 0);
            }
            assert(pre[idx as int].has_kp || pre[idx as int].gid is Some);
        }
        Ok(actions)
    }
}


impl SealedClient {
    /// Handles a sealed envelope from this client's welcome topic. A
    /// welcome (type 3) joins the group from its content, with the carried
    /// ratchet tree if any, installs the session under the sender's
    /// identifier, stores the sender's outer key and republishes a fresh
    /// bundle (the old key package was consumed). An application message
    /// (type 5) is routed to the sender's group and delivered; commits are
    /// merged, proposals and the broker's echo of our own publishes are
    /// dropped. The unsealing failures are exactly those of `unseal_spec`.
    #[verifier::rlimit(100)]
    pub fn process_inbox(&mut self, payload: &Vec<u8>) -> (r: Result<Vec<Action>, RelayError>)
        requires
            old(self).wf(),
            payload@.len() <= usize::MAX / 2,
        ensures
            final(self).wf(),
            final(self).client_id@ == old(self).client_id@,
            final(self).outer_secret@ == old(self).outer_secret@,
            envelope_dec(payload@) is None ==> r == Err::<Vec<Action>, RelayError>(
                RelayError::Serialization,
            ) && final(self).pview() == old(self).pview(),
            envelope_dec(payload@) matches Some(e) ==> (unseal_spec(
                e,
                old(self).outer_secret@,
            ) matches Err(er) ==> (r == Err::<Vec<Action>, RelayError>(er) && final(self).pview()
                == old(self).pview())),
            envelope_dec(payload@) matches Some(e) ==> (unseal_spec(
                e,
                old(self).outer_secret@,
            ) matches Ok(iv) ==> ((iv.msg_type != MSG_TYPE_WELCOME && iv.msg_type
                != MSG_TYPE_APPLICATION) ==> (r == Err::<Vec<Action>, RelayError>(
                RelayError::ProtocolViolation,
            ) && final(self).pview() == old(self).pview()))),
            envelope_dec(payload@) matches Some(e) ==> (unseal_spec(
                e,
                old(self).outer_secret@,
            ) matches Ok(iv) ==> (iv.msg_type == MSG_TYPE_WELCOME && r is Ok ==> (r matches Ok(a)
                && {
                &&& (exists|i: int|
                    0 <= i < final(self).pview().len()
                        && (#[trigger] final(self).pview()[i]).id == iv.sender_user_id
                        && final(self).pview()[i].gid is Some && (iv.sender_outer_public_key.len()
                        == 32 ==> final(self).pview()[i].outer == Some(
                        iv.sender_outer_public_key,
                    )))
                &&& a@.len() == 2
                &&& (acts(a@)[0] matches ActionView::Publish { topic, retained, .. } && topic
                    == key_topic(old(self).client_id@) && retained)
                &&& acts(a@)[1] == (ActionView::SessionEstablished { peer: iv.sender_user_id })
            }))),
            envelope_dec(payload@) matches Some(e) ==> (unseal_spec(
                e,
                old(self).outer_secret@,
            ) matches Ok(iv) ==> (iv.msg_type == MSG_TYPE_APPLICATION ==> {
                &&& !s_has_id(old(self).pview(), iv.sender_user_id) ==> (r == Err::<
                    Vec<Action>,
                    RelayError,
                >(RelayError::UnknownPeer) && final(self).pview() == old(self).pview())
                &&& (s_has_id(old(self).pview(), iv.sender_user_id) && !s_in_session(
                    old(self).pview(),
                    iv.sender_user_id,
                )) ==> r == Err::<Vec<Action>, RelayError>(RelayError::NoSession)
                &&& (s_has_id(old(self).pview(), iv.sender_user_id)
                    && iv.sender_outer_public_key.len() == 32) ==> outer_refreshed(
                    old(self).pview(),
                    final(self).pview(),
                    iv.sender_user_id,
                    iv.sender_outer_public_key,
                )
                &&& (!s_has_id(old(self).pview(), iv.sender_user_id)
                    || iv.sender_outer_public_key.len() != 32) ==> final(self).pview() == old(
                    self,
                ).pview()
                &&& (r matches Ok(a) ==> (a@.len() == 0 || (a@.len() == 1 && (acts(a@)[0]
                    matches ActionView::DeliverText { peer, text } && peer
                    == iv.sender_user_id))))
            })),
    {
        let env = match decode_envelope(payload) {
            Some(e) => e,
            None => {
                return Err(RelayError::Serialization);
            },
        };
        proof {
            crate::sealed::lemma_envelope_dec_bounds(payload@);
        }
        let inner = match unseal_message(&env, &self.outer_secret) {
            Ok(i) => i,
            Err(e) => {
                return Err(e);
            },
        };
        if inner.msg_type == MSG_TYPE_WELCOME {
            self.install_from_welcome(inner)
        } else if inner.msg_type == MSG_TYPE_APPLICATION {
            self.deliver_application(inner)
        } else {
            Err(RelayError::ProtocolViolation)
        }
    }

    /// Installs the session a sealed welcome carries; see `process_inbox`.
    fn install_from_welcome(&mut self, inner: InnerPayload) -> (r: Result<Vec<Action>, RelayError>)
        requires
            old(self).wf(),
            inner@.msg_type == MSG_TYPE_WELCOME,
        ensures
            final(self).wf(),
            final(self).client_id@ == old(self).client_id@,
            final(self).outer_secret@ == old(self).outer_secret@,
            r is Err ==> final(self).pview() == old(self).pview(),
            r matches Ok(a) ==> {
                &&& (exists|i: int|
                    0 <= i < final(self).pview().len()
                        && (#[trigger] final(self).pview()[i]).id == inner@.sender_user_id
                        && final(self).pview()[i].gid is Some && (
                    inner@.sender_outer_public_key.len() == 32 ==> final(self).pview()[i].outer
                        == Some(inner@.sender_outer_public_key)))
                &&& a@.len() == 2
                &&& (acts(a@)[0] matches ActionView::Publish { topic, retained, .. } && topic
                    == key_topic(old(self).client_id@) && retained)
                &&& acts(a@)[1] == (ActionView::SessionEstablished {
                    peer: inner@.sender_user_id,
                })
            },
    {
        if inner.sender_user_id.len() > usize::MAX - 8 {
            return Err(RelayError::ProtocolViolation);
        }
        let tree = if inner.ratchet_tree.len() == 0 {
            None
        } else {
            match mls::parse_ratchet_tree(&inner.ratchet_tree) {
                Ok(t) => Some(t),
                Err(e) => {
                    return Err(e);
                },
            }
        };
        let joined_group = match mls::join_from_welcome(&self.provider, &inner.content, tree) {
            Ok(x) => x,
            Err(e) => {
                return Err(e);
            },
        };
        let (group, gid) = joined_group;
        if gid.len() != 16 {
            return Err(RelayError::ProtocolViolation);
        }
        let bundle_act = match self.publish_bundle() {
            Ok(a) => a,
            Err(e) => {
                return Err(e);
            },
        };
        let sender = inner.sender_user_id;
        let ghost pre = self.pview();
        let ghost gidv = gid@;
        let found = self.lookup(&sender);
        match found {
            Some(i) => {
                let mut rec = self.peers.remove(i);
                rec.kp_msg = None;
                rec.group = Some(GroupHandle { mls: group, group_id: gid });
                if inner.sender_outer_public_key.len() == 32 {
                    rec.outer_pub = Some(inner.sender_outer_public_key);
                }
                self.peers.insert(i, rec);
                proof {
                    let post = self.pview();
                    assert(post =~= pre.update(i as int, post[i as int]));
                    assert(post[i as int].id == pre[i as int].id);
                    assert(speer_ok(post[i as int]));
                    lemma_speers_update_wf(pre, post, i as int);
                    assert(post[i as int].id == sender@ && post[i as int].gid == Some(gidv));
                }
            },
            None => {
                let rec = SealedPeer {
                    peer_id: sender.clone(),
                    kp_msg: None,
                    outer_pub: if inner.sender_outer_public_key.len() == 32 {
                        Some(inner.sender_outer_public_key)
                    } else {
                        None
                    },
                    group: Some(GroupHandle { mls: group, group_id: gid }),
                };
                self.peers.push(rec);
                proof {
                    let post = self.pview();
                    assert(post =~= pre.push(post.last()));
                    assert(post.last().id == sender@ && post.last().gid == Some(gidv));
                    assert(speer_ok(post.last()));
                    assert forall|a2: int, b2: int|
                        0 <= a2 < b2 < post.len() implies post[a2].id != post[b2].id by {
                        if b2 == pre.len() {
                            assert(post[a2] == pre[a2]);
                            if pre[a2].id == post[b2].id {
                                assert(s_has_id(pre, post[b2].id));
                            }
                        } else {
                            assert(post[a2] == pre[a2] && post[b2] == pre[b2]);
                        }
                    }
                    assert forall|a2: int| 0 <= a2 < post.len() implies speer_ok(
                        #[trigger] post[a2],
                    ) by {
                        if a2 < pre.len() {
                            assert(post[a2] == pre[a2]);
                        }
                    }
                }
            },
        }
        let mut a: Vec<Action> = Vec::new();
        a.push(bundle_act);
        a.push(Action::SessionEstablished { peer: sender });
        proof {
            assert(acts(a@)[0] == a@[0]@);
            assert(acts(a@)[1] == a@[1]@);
        }
        Ok(a)
    }

    /// After putting the sender's record back, the peer list is either
    /// unchanged or refreshed in that record's outer key alone.
    proof fn restore_shape(
        pre: Seq<SealedPeerView>,
        post: Seq<SealedPeerView>,
        idx: int,
        iv: InnerView,
    )
        requires
            speers_wf(pre),
            0 <= idx < pre.len(),
            pre[idx].id == iv.sender_user_id,
            post == pre.update(idx, post[idx]),
            if iv.sender_outer_public_key.len() == 32 {
                post[idx] == (SealedPeerView {
                    id: pre[idx].id,
                    has_kp: pre[idx].has_kp,
                    outer: Some(iv.sender_outer_public_key),
                    gid: pre[idx].gid,
                })
            } else {
                post[idx] == pre[idx]
            },
        ensures
            speers_wf(post),
            iv.sender_outer_public_key.len() == 32 ==> outer_refreshed(
                pre,
                post,
                iv.sender_user_id,
                iv.sender_outer_public_key,
            ),
            iv.sender_outer_public_key.len() != 32 ==> post == pre,
    {
        if iv.sender_outer_public_key.len() == 32 {
            lemma_outer_refresh(pre, post, idx, iv.sender_outer_public_key);
        } else {
            assert(post =~= pre);
        }
    }

    /// Routes a sealed application message to the sender's group,
    /// refreshing the sender's stored outer key on the way; see
    /// `process_inbox`.
    fn deliver_application(&mut self, inner: InnerPayload) -> (r: Result<Vec<Action>, RelayError>)
        requires
            old(self).wf(),
            inner@.msg_type == MSG_TYPE_APPLICATION,
        ensures
            final(self).wf(),
            final(self).client_id@ == old(self).client_id@,
            final(self).outer_secret@ == old(self).outer_secret@,
            !s_has_id(old(self).pview(), inner@.sender_user_id) ==> r == Err::<
                Vec<Action>,
                RelayError,
            >(RelayError::UnknownPeer) && final(self).pview() == old(self).pview(),
            (s_has_id(old(self).pview(), inner@.sender_user_id) && !s_in_session(
                old(self).pview(),
                inner@.sender_user_id,
            )) ==> r == Err::<Vec<Action>, RelayError>(RelayError::NoSession),
            (s_has_id(old(self).pview(), inner@.sender_user_id)
                && inner@.sender_outer_public_key.len() == 32) ==> outer_refreshed(
                old(self).pview(),
                final(self).pview(),
                inner@.sender_user_id,
                inner@.sender_outer_public_key,
            ),
            (!s_has_id(old(self).pview(), inner@.sender_user_id)
                || inner@.sender_outer_public_key.len() != 32) ==> final(self).pview() == old(
                self,
            ).pview(),
            r matches Ok(a) ==> (a@.len() == 0 || (a@.len() == 1 && (acts(a@)[0]
                matches ActionView::DeliverText { peer, text } && peer
                == inner@.sender_user_id))),
    {
        let idx = match self.lookup(&inner.sender_user_id) {
            Some(i) => i,
            None => {
                return Err(RelayError::UnknownPeer);
            },
        };
        let ghost pre = self.pview();
        let mut rec = self.peers.remove(idx);
        proof {
            assert(rec@ == pre[idx as int]);
            lemma_peer_state_at(pre, idx as int, inner@.sender_user_id);
        }
        let peer_id = rec.peer_id.clone();
        if inner.sender_outer_public_key.len() == 32 {
            rec.outer_pub = Some(inner.sender_outer_public_key.clone());
        }
        let gslot = rec.group;
        rec.group = None;
        let mut handle = match gslot {
            Some(h) => h,
            None => {
                self.peers.insert(idx, rec);
                proof {
                    let post = self.pview();
                    assert(post =~= pre.update(idx as int, post[idx as int]));
                    Self::restore_shape(pre, post, idx as int, inner@);
                }
                return Err(RelayError::NoSession);
            },
        };
        let msg = match mls::parse_protocol_message(&inner.content) {
            Ok(m) => m,
            Err(e) => {
                rec.group = Some(handle);
                self.peers.insert(idx, rec);
                proof {
                    let post = self.pview();
                    assert(post =~= pre.update(idx as int, post[idx as int]));
                    Self::restore_shape(pre, post, idx as int, inner@);
                }
                return Err(e);
            },
        };
        let processed = mls::process_message(&self.provider, &mut handle.mls, msg);
        match processed {
            Ok(mls::MlsProcessed::Application(text)) => {
                rec.group = Some(handle);
                self.peers.insert(idx, rec);
                let mut a: Vec<Action> = Vec::new();
                a.push(Action::DeliverText { peer: peer_id, text });
                proof {
                    let post = self.pview();
                    assert(post =~= pre.update(idx as int, post[idx as int]));
                    Self::restore_shape(pre, post, idx as int, inner@);
                    assert(acts(a@)[0] == a@[0]@);
                    assert(pre[idx as int].id == inner@.sender_user_id);
                }
                Ok(a)
            },
            Ok(mls::MlsProcessed::Commit(staged)) => {
                let merged = mls::merge_staged_commit(&self.provider, &mut handle.mls, staged);
                rec.group = Some(handle);
                self.peers.insert(idx, rec);
                proof {
                    let post = self.pview();
                    assert(post =~= pre.update(idx as int, post[idx as int]));
                    Self::restore_shape(pre, post, idx as int, inner@);
                }
                match merged {
                    Ok(u) => Ok(Vec::new()),
                    Err(e) => Err(e),
                }
            },
            Ok(mls::MlsProcessed::Proposal) => {
                rec.group = Some(handle);
                self.peers.insert(idx, rec);
                proof {
                    let post = self.pview();
                    assert(post =~= pre.update(idx as int, post[idx as int]));
                    Self::restore_shape(pre, post, idx as int, inner@);
                }
                Ok(Vec::new())
            },
            Ok(mls::MlsProcessed::ExternalJoin) => {
                rec.group = Some(handle);
                self.peers.insert(idx, rec);
                proof {
                    let post = self.pview();
                    assert(post =~= pre.update(idx as int, post[idx as int]));
                    Self::restore_shape(pre, post, idx as int, inner@);
                }
                Ok(Vec::new())
            },
            Err(e) => {
                rec.group = Some(handle);
                self.peers.insert(idx, rec);
                proof {
                    let post = self.pview();
                    assert(post =~= pre.update(idx as int, post[idx as int]));
                    Self::restore_shape(pre, post, idx as int, inner@);
                }
                if e == RelayError::OwnMessageEcho {
                    Ok(Vec::new())
                } else {
                    Err(e)
                }
            },
        }
    }

    /// Sorts an inbound broker event to its handler: bundles on key
    /// topics and sealed envelopes addressed to us; anything else is
    /// ignored.
    pub fn handle_event(&mut self, topic: &Vec<u8>, payload: &Vec<u8>) -> (r: Result<
        Vec<Action>,
        RelayError,
    >)
        requires
            old(self).wf(),
            payload@.len() <= usize::MAX / 2,
        ensures
            final(self).wf(),
            final(self).client_id@ == old(self).client_id@,
            final(self).outer_secret@ == old(self).outer_secret@,
            topic@ == key_topic(old(self).client_id@) ==> (r matches Ok(a) && a@.len() == 0)
                && final(self).pview() == old(self).pview(),
    {
        proof {
            if topic@ == key_topic(old(self).client_id@) {
                assert(topic@.subrange(0, 8) =~= crate::topics::key_prefix());
            }
        }
        let kind = classify_topic(topic);
        match kind {
            TopicKind::PeerKey(_) => {
                match self.handle_bundle(topic, payload) {
                    Ok(u) => Ok(Vec::new()),
                    Err(e) => Err(e),
                }
            },
            TopicKind::Welcome(p) => {
                if bytes_eq(&p, &self.client_id) {
                    self.process_inbox(payload)
                } else {
                    Ok(Vec::new())
                }
            },
            TopicKind::GroupMsg(_) => Ok(Vec::new()),
            TopicKind::GroupInfo(_) => Ok(Vec::new()),
            TopicKind::Other => Ok(Vec::new()),
        }
    }
}

} // verus!

