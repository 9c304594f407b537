//! The two-party session state machine.
//!
//! A client owns its identity, a directory of peers and a set of pending
//! connects. Commands and inbound broker events drive it; every operation
//! returns the list of broker actions to perform, so the surrounding program
//! only moves bytes. Messages travel as plain MLS wire messages on the
//! scheme's topics.

use vstd::prelude::*;
use crate::bytes::{bytes_eq, is_prefix};
use crate::cbor::{
    arr_dec, arr_hdr, bstr_dec, bstr_enc, lemma_arr_round_trip, lemma_bstr_round_trip,
    lemma_head_enc_len, lemma_pow256_values, pow256, read_arr_hdr, read_bstr, write_arr_hdr,
    write_bstr,
};
use crate::directory::{
    dir_wf, group_installed, has_id, kp_upserted, Directory, GroupHandle, PeerView,
};
use crate::hexcode::hex_enc;
use crate::topics::{
    classify_topic, group_info_topic, group_msg_topic, key_prefix, key_topic, topic_group_info,
    topic_group_msg, topic_key, topic_welcome, welcome_topic, TopicKind,
};
use crate::mls;
use crate::RelayError;

verus! {

/// A broker action the surrounding program is asked to perform, or a line
/// to show the user.
#[derive(Debug, PartialEq, Eq)]
pub enum Action {
    /// Publish the payload on the topic.
    Publish { topic: Vec<u8>, payload: Vec<u8>, retained: bool },
    /// Subscribe to the topic.
    Subscribe { topic: Vec<u8> },
    /// Show a decrypted application message from the peer (from ourselves,
    /// for a local echo).
    DeliverText { peer: Vec<u8>, text: Vec<u8> },
    /// Report that a session with the peer is established.
    SessionEstablished { peer: Vec<u8> },
}

/// The mathematical shadow of an action.
pub enum ActionView {
    Publish { topic: Seq<u8>, payload: Seq<u8>, retained: bool },
    Subscribe { topic: Seq<u8> },
    DeliverText { peer: Seq<u8>, text: Seq<u8> },
    SessionEstablished { peer: Seq<u8> },
}

impl View for Action {
    type V = ActionView;

    open spec fn view(&self) -> ActionView {
        match self {
            Action::Publish { topic, payload, retained } => (ActionView::Publish {
                topic: topic@,
                payload: payload@,
                retained: *retained,
            }),
            Action::Subscribe { topic } => (ActionView::Subscribe { topic: topic@ }),
            Action::DeliverText { peer, text } => (ActionView::DeliverText {
                peer: peer@,
                text: text@,
            }),
            Action::SessionEstablished { peer } => (ActionView::SessionEstablished {
                peer: peer@,
            }),
        }
    }
}

/// The views of a list of actions.
pub open spec fn acts(s: Seq<Action>) -> Seq<ActionView> {
    s.map_values(|a: Action| a@)
}

/// The views of a list of identifiers.
pub open spec fn ids_view(s: Seq<Vec<u8>>) -> Seq<Seq<u8>> {
    s.map_values(|v: Vec<u8>| v@)
}

/// True when the list holds the identifier.
pub open spec fn ids_contain(s: Seq<Seq<u8>>, x: Seq<u8>) -> bool {
    exists|i: int| 0 <= i < s.len() && s[i] == x
}

/// Pairwise distinct identifiers.
pub open spec fn ids_distinct(s: Seq<Seq<u8>>) -> bool {
    forall|i: int, j: int| 0 <= i < j < s.len() ==> s[i] != s[j]
}

/// Two identifier lists hold the same identifiers.
pub open spec fn ids_same(a: Seq<Seq<u8>>, b: Seq<Seq<u8>>) -> bool {
    forall|x: Seq<u8>| ids_contain(a, x) <==> #[trigger] ids_contain(b, x)
}

/// Removing an identifier and pushing it back yields the same set.
proof fn lemma_remove_then_push(pre: Seq<Seq<u8>>, post: Seq<Seq<u8>>, k: int, x0: Seq<u8>)
    requires
        0 <= k < pre.len(),
        pre[k] == x0,
        post == pre.remove(k).push(x0),
    ensures
        ids_same(pre, post),
{
    assert forall|x: Seq<u8>| ids_contain(pre, x) <==> #[trigger] ids_contain(post, x) by {
        if ids_contain(pre, x) {
            let i = choose|i: int| 0 <= i < pre.len() && pre[i] == x;
            if i == k {
                assert(post[post.len() - 1] == x0);
            } else {
                let ri: int = if i < k {
                    i
                } else {
                    i - 1
                };
                assert(post[ri] == pre[i]);
            }
        }
        if ids_contain(post, x) {
            let i = choose|i: int| 0 <= i < post.len() && post[i] == x;
            if i == post.len() - 1 {
                assert(pre[k] == x);
            } else {
                let pi: int = if i < k {
                    i
                } else {
                    i + 1
                };
                assert(pre[pi] == post[i]);
            }
        }
    }
}

/// The wire form of a key-package publication: a CBOR array whose first
/// element is the wire-encoded key package (room is reserved for a future
/// offer list).
pub open spec fn kp_publication_enc(kp: Seq<u8>) -> Seq<u8> {
    arr_hdr(1) + bstr_enc(kp)
}

/// Reads the first element of a key-package publication; further elements
/// are ignored.
pub open spec fn kp_publication_dec(s: Seq<u8>) -> Option<Seq<u8>> {
    match arr_dec(s, 0) {
        Some((k, p1)) => if k >= 1 {
            match bstr_dec(s, p1) {
                Some((b, _)) => Some(b),
                None => None,
            }
        } else {
            None
        },
        None => None,
    }
}

/// Decoding an encoded publication yields the key package back.
pub proof fn lemma_kp_publication_round_trip(kp: Seq<u8>)
    requires
        kp.len() < pow256(8),
    ensures
        kp_publication_dec(kp_publication_enc(kp)) == Some(kp),
{
    lemma_pow256_values();
    let s = kp_publication_enc(kp);
    let a0 = arr_hdr(1);
    let p1 = a0.len() as int;
    let p2 = p1 + bstr_enc(kp).len();
    assert(s.subrange(0, p1) =~= a0);
    assert(s.subrange(p1, p2) =~= bstr_enc(kp));
    lemma_arr_round_trip(s, 0, 1);
    lemma_bstr_round_trip(s, p1, kp);
}

/// Encodes a key-package publication.
pub fn encode_kp_publication(kp: &Vec<u8>) -> (r: Option<Vec<u8>>)
    ensures
        r matches Some(v) ==> v@ == kp_publication_enc(kp@),
        kp@.len() <= usize::MAX - 32 ==> r is Some,
{
    if kp.len() > usize::MAX - 32 {
        return None;
    }
    let mut out: Vec<u8> = Vec::new();
    proof {
        lemma_head_enc_len(4, 1);
        lemma_head_enc_len(2, kp@.len() as nat);
    }
    write_arr_hdr(&mut out, 1);
    write_bstr(&mut out, kp);
    proof {
        assert(out@ =~= kp_publication_enc(kp@));
    }
    Some(out)
}

/// Decodes a key-package publication; refuses exactly what the spec
/// decoder refuses.
pub fn decode_kp_publication(bytes: &Vec<u8>) -> (r: Option<Vec<u8>>)
    requires
        bytes@.len() <= usize::MAX - 9,
    ensures
        match r {
            Some(v) => kp_publication_dec(bytes@) == Some(v@),
            None => kp_publication_dec(bytes@) is None,
        },
{
    let (k, p1) = match read_arr_hdr(bytes, 0) {
        Some(x) => x,
        None => {
            return None;
        },
    };
    if k < 1 {
        return None;
    }
    match read_bstr(bytes, p1) {
        Some((b, _)) => Some(b),
        None => None,
    }
}

/// Every established session survives: a record that carried a group still
/// carries one (possibly a fresh one, see the duplicate-session note).
pub open spec fn sessions_kept(pre: Seq<PeerView>, post: Seq<PeerView>) -> bool {
    forall|i: int|
        0 <= i < pre.len() && (#[trigger] pre[i]).gid is Some ==> exists|j: int|
            0 <= j < post.len() && (#[trigger] post[j]).id == pre[i].id && post[j].gid is Some
}

/// The actions that establish an outbound session: retained group
/// information, the welcome for the peer, and the subscription to the
/// group's messages.
pub open spec fn establish_acts(a: Seq<ActionView>, p: Seq<u8>, gid: Seq<u8>) -> bool {
    &&& a.len() == 3
    &&& (a[0] matches ActionView::Publish { topic, retained, .. } && topic == group_info_topic(
        gid,
    ) && retained)
    &&& (a[1] matches ActionView::Publish { topic, retained, .. } && topic == welcome_topic(p)
        && !retained)
    &&& a[2] == (ActionView::Subscribe { topic: group_msg_topic(gid) })
}

/// A retained publication of a fresh key package on the client's own key
/// topic.
pub open spec fn republish_act(a: ActionView, me: Seq<u8>) -> bool {
    a matches ActionView::Publish { topic, payload, retained } && topic == key_topic(me)
        && retained && (exists|kp: Seq<u8>| payload == kp_publication_enc(kp))
}

/// A session with `p` was established now: some sixteen-byte group
/// identifier was installed for it and the actions publish the group
/// information, send the welcome, subscribe to the group and report it.
pub open spec fn establishment(
    pre: Seq<PeerView>,
    post: Seq<PeerView>,
    a: Seq<ActionView>,
    p: Seq<u8>,
) -> bool {
    exists|gid: Seq<u8>|
        {
            &&& (#[trigger] group_installed(pre, post, p, gid))
            &&& gid.len() == 16
            &&& a.len() == 4
            &&& establish_acts(a.take(3), p, gid)
            &&& a[3] == (ActionView::SessionEstablished { peer: p })
        }
}

/// The outcome of a `connect` command.
#[derive(Clone, Copy, Debug, PartialEq, Eq, Structural)]
pub enum ConnectOutcome {
    /// A session already exists; nothing to do.
    AlreadyConnected,
    /// The peer's key package was known; the session was established now.
    Established,
    /// Waiting for the peer's key package.
    Pending,
}

/// The client: identity, directory, pending connects, and the MLS state
/// behind the facade.
pub struct RelayClient {
    /// This client's identifier: 32 bytes of lowercase hex.
    pub client_id: Vec<u8>,
    /// The directory of known peers.
    pub directory: Directory,
    /// Peers the user asked to connect to whose key package has not
    /// arrived yet.
    pub pending: Vec<Vec<u8>>,
    /// The MLS provider; opaque to the verified code.
    pub provider: openmls_rust_crypto::OpenMlsRustCrypto,
    /// The signature key pair; opaque to the verified code.
    pub signer: openmls_basic_credential::SignatureKeyPair,
    /// The credential binding the identifier to the signature key.
    pub credential: openmls::credentials::CredentialWithKey,
}

impl RelayClient {
    /// The client's invariant: a well-formed directory, distinct pending
    /// entries, and a 32-byte identifier.
    pub open spec fn wf(&self) -> bool {
        &&& self.directory.wf()
        &&& ids_distinct(ids_view(self.pending@))
        &&& self.client_id@.len() == 32
    }

    /// The pending set, viewed.
    pub open spec fn pending_ids(&self) -> Seq<Seq<u8>> {
        ids_view(self.pending@)
    }

    /// Builds a client with the given identifier.
    pub fn new(client_id: Vec<u8>) -> (r: Result<RelayClient, RelayError>)
        requires
            client_id@.len() == 32,
        ensures
            r matches Ok(c) ==> {
                &&& c.wf()
                &&& c.client_id@ == client_id@
                &&& c.directory@ =~= Seq::<PeerView>::empty()
                &&& c.pending_ids() =~= Seq::<Seq<u8>>::empty()
            },
    {
        let provider = mls::new_provider();
        let signer = match mls::new_signer() {
            Ok(s) => s,
            Err(e) => {
                return Err(e);
            },
        };
        match mls::store_signer(&provider, &signer) {
            Ok(u) => u,
            Err(e) => {
                return Err(e);
            },
        };
        let credential = mls::make_credential(&client_id, &signer);
        Ok(
            RelayClient {
                client_id,
                directory: Directory::new(),
                pending: Vec::new(),
                provider,
                signer,
                credential,
            },
        )
    }

    /// Builds a client under a fresh random identifier: sixteen random
    /// bytes, rendered as lowercase hex.
    pub fn generate() -> (r: Result<RelayClient, RelayError>)
        ensures
            r matches Ok(c) ==> {
                &&& c.wf()
                &&& c.directory@ =~= Seq::<PeerView>::empty()
                &&& c.pending_ids() =~= Seq::<Seq<u8>>::empty()
                &&& exists|raw: Seq<u8>| raw.len() == 16 && c.client_id@ == hex_enc(raw)
            },
    {
        let raw = crate::cryptobox::random_bytes_16();
        let id = crate::hexcode::to_hex(&raw);
        RelayClient::new(id)
    }

    /// The topic this client receives welcomes on.
    pub fn subscribe_welcome(&self) -> (r: Action)
        requires
            self.wf(),
        ensures
            r@ == (ActionView::Subscribe { topic: welcome_topic(self.client_id@) }),
    {
        Action::Subscribe { topic: topic_welcome(&self.client_id) }
    }

    /// Builds a fresh key package and the retained publication of it on
    /// this client's key topic.
    pub fn publish_key_package(&self) -> (r: Result<Action, RelayError>)
        requires
            self.wf(),
        ensures
            r matches Ok(a) ==> republish_act(a@, self.client_id@),
    {
        let kp_bytes = match mls::fresh_key_package_msg(&self.provider, &self.signer,
            &self.credential) {
            Ok(b) => b,
            Err(e) => {
                return Err(e);
            },
        };
        let payload = match encode_kp_publication(&kp_bytes) {
            Some(p) => p,
            None => {
                return Err(RelayError::Serialization);
            },
        };
        let topic = topic_key(&self.client_id);
        Ok(Action::Publish { topic, payload, retained: true })
    }

    /// Lists each known peer and whether a session is established.
    pub fn peers(&self) -> (r: Vec<(Vec<u8>, bool)>)
        ensures
            r@.len() == self.directory@.len(),
            forall|i: int|
                0 <= i < r@.len() ==> (#[trigger] r@[i]).0@ == self.directory@[i].id && r@[i].1
                    == (self.directory@[i].gid is Some),
    {
        self.directory.listing()
    }

    /// The member identifiers of the group established with the peer.
    pub fn group_members(&self, peer: &Vec<u8>) -> (r: Result<Vec<Vec<u8>>, RelayError>)
        requires
            self.wf(),
        ensures
            r is Ok <==> in_session(self.directory@, peer@),
            r is Err ==> r == Err::<Vec<Vec<u8>>, RelayError>(RelayError::NoSession),
    {
        let idx = match self.directory.lookup(peer) {
            Some(i) => i,
            None => {
                return Err(RelayError::NoSession);
            },
        };
        match &self.directory.records[idx].group {
            Some(h) => {
                proof {
                    assert(self.directory@[idx as int] == self.directory.records@[idx as int]@);
                    assert(in_session(self.directory@, peer@));
                }
                Ok(mls::member_ids(&h.mls))
            },
            None => {
                proof {
                    if in_session(self.directory@, peer@) {
                        let j = choose|j: int|
                            0 <= j < self.directory@.len() && self.directory@[j].id == peer@
                                && self.directory@[j].gid is Some;
                        if j != idx as int {
                            assert(self.directory@[j].id != self.directory@[idx as int].id);
                        }
                    }
                }
                Err(RelayError::NoSession)
            },
        }
    }

    /// Resolves a user query to a known peer, exactly or by unique prefix.
    pub fn find_peer(&self, query: &Vec<u8>) -> (r: Result<Vec<u8>, RelayError>)
        ensures
            has_id(self.directory@, query@) ==> (r matches Ok(id) && id@ == query@),
            !has_id(self.directory@, query@) ==> match r {
                Ok(id) => crate::directory::match_count(self.directory@, query@) == 1
                    && is_prefix(query@, id@) && has_id(self.directory@, id@),
                Err(e) => (e == RelayError::AmbiguousPeer && crate::directory::match_count(
                    self.directory@,
                    query@,
                ) >= 2) || (e == RelayError::UnknownPeer && crate::directory::match_count(
                    self.directory@,
                    query@,
                ) == 0),
            },
    {
        self.directory.resolve_prefix(query)
    }
}


/// True when some record for the identifier carries an installed group.
pub open spec fn in_session(s: Seq<PeerView>, id: Seq<u8>) -> bool {
    exists|i: int| 0 <= i < s.len() && s[i].id == id && s[i].gid is Some
}

/// True when some record for the identifier carries a known key package.
pub open spec fn kp_known_for(s: Seq<PeerView>, id: Seq<u8>) -> bool {
    exists|i: int| 0 <= i < s.len() && s[i].id == id && s[i].has_key_package
}

/// Whether the list holds the identifier.
fn pending_contains(v: &Vec<Vec<u8>>, id: &Vec<u8>) -> (r: bool)
    ensures
        r <==> ids_contain(ids_view(v@), id@),
{
    let mut i: usize = 0;
    while i < v.len()
        invariant
            i <= v@.len(),
            forall|j: int| 0 <= j < i ==> ids_view(v@)[j] != id@,
        decreases v@.len() - i,
    {
        if bytes_eq(&v[i], id) {
            proof {
                assert(ids_view(v@)[i as int] == id@);
            }
            return true;
        }
        i = i + 1;
    }
    false
}

/// Removing an element keeps identifiers pairwise distinct.
proof fn lemma_remove_distinct(s: Seq<Seq<u8>>, k: int)
    requires
        ids_distinct(s),
        0 <= k < s.len(),
    ensures
        ids_distinct(s.remove(k)),
{
    let t = s.remove(k);
    assert forall|i: int, j: int| 0 <= i < j < t.len() implies t[i] != t[j] by {
        let si = if i < k { i } else { i + 1 };
        let sj = if j < k { j } else { j + 1 };
        assert(t[i] == s[si] && t[j] == s[sj]);
    }
}

/// Removes the identifier from the list, if present.
fn pending_remove(v: &mut Vec<Vec<u8>>, id: &Vec<u8>)
    requires
        ids_distinct(ids_view(old(v)@)),
    ensures
        ids_distinct(ids_view(final(v)@)),
        !ids_contain(ids_view(final(v)@), id@),
        ids_contain(ids_view(old(v)@), id@) ==> exists|k: int|
            0 <= k < ids_view(old(v)@).len() && ids_view(old(v)@)[k] == id@ && ids_view(
                final(v)@,
            ) =~= ids_view(old(v)@).remove(k),
        !ids_contain(ids_view(old(v)@), id@) ==> final(v)@ == old(v)@,
{
    let mut i: usize = 0;
    while i < v.len()
        invariant
            i <= v@.len(),
            v@ == old(v)@,
            ids_distinct(ids_view(v@)),
            forall|j: int| 0 <= j < i ==> ids_view(v@)[j] != id@,
        decreases v@.len() - i,
    {
        if bytes_eq(&v[i], id) {
            v.remove(i);
            proof {
                let pre = ids_view(old(v)@);
                assert(pre[i as int] == id@);
                assert(ids_view(v@) =~= pre.remove(i as int));
                lemma_remove_distinct(pre, i as int);
                assert forall|j: int| 0 <= j < ids_view(v@).len() implies ids_view(v@)[j]
                    != id@ by {
                    let sj = if j < i { j } else { j + 1 };
                    assert(ids_view(v@)[j] == pre[sj]);
                    if sj != i {
                        assert(pre[sj] != pre[i as int] || sj < i);
                    }
                }
            }
            return ;
        }
        i = i + 1;
    }
}

impl RelayClient {
    /// Establishes an outbound session with a peer whose key package is
    /// known: creates a group under a fresh sixteen-byte identifier, adds
    /// the peer, merges the commit, and returns the establishing actions.
    /// On any failure the directory is left as it was.
    pub fn create_group(&mut self, peer: &Vec<u8>) -> (r: Result<
        (Vec<u8>, Vec<Action>),
        RelayError,
    >)
        requires
            old(self).wf(),
        ensures
            final(self).wf(),
            final(self).client_id@ == old(self).client_id@,
            final(self).pending@ == old(self).pending@,
            !kp_known_for(old(self).directory@, peer@) ==> r is Err,
            r matches Ok(p) ==> {
                &&& p.0@.len() == 16
                &&& group_installed(old(self).directory@, final(self).directory@, peer@, p.0@)
                &&& establish_acts(acts(p.1@), peer@, p.0@)
            },
            r is Err ==> final(self).directory@ == old(self).directory@,
            sessions_kept(old(self).directory@, final(self).directory@),
    {
        let idx = match self.directory.lookup(peer) {
            Some(i) => i,
            None => {
                return Err(RelayError::UnknownPeer);
            },
        };
        let ghost pre = self.directory@;
        let mut rec = self.directory.take_record(idx);
        let kp_slot = rec.key_package;
        rec.key_package = None;
        let kp = match kp_slot {
            Some(k) => k,
            None => {
                self.directory.put_record(idx, rec);
                proof {
                    assert(final(self).directory@ =~= pre);
                }
                return Err(RelayError::NoSession);
            },
        };
        let gid = crate::cryptobox::random_bytes_16();
        if !self.directory.gid_free(&gid, peer) {
            rec.key_package = Some(kp);
            self.directory.put_record(idx, rec);
            proof {
                assert(final(self).directory@ =~= pre);
            }
            return Err(RelayError::Mls);
        }
        let ghost scanned = self.directory@;
        let gid_out = gid.clone();
        let t_info = topic_group_info(&gid);
        let t_msg = topic_group_msg(&gid);
        proof {
            assert(crate::directory::record_ok(pre[idx as int]));
        }
        let t_welcome = topic_welcome(peer);
        let mut group = match mls::create_group(&self.provider, &self.signer, &self.credential,
            &gid) {
            Ok(g) => g,
            Err(e) => {
                rec.key_package = Some(kp);
                self.directory.put_record(idx, rec);
                proof {
                    assert(final(self).directory@ =~= pre);
                }
                return Err(e);
            },
        };
        let added = mls::add_member(&self.provider, &self.signer, &mut group, &kp);
        let (_commit_bytes, welcome_bytes, info_bytes) = match added {
            Ok(x) => x,
            Err(e) => {
                rec.key_package = Some(kp);
                self.directory.put_record(idx, rec);
                proof {
                    assert(final(self).directory@ =~= pre);
                }
                return Err(e);
            },
        };
        match mls::merge_pending(&self.provider, &mut group) {
            Ok(u) => u,
            Err(e) => {
                rec.key_package = Some(kp);
                self.directory.put_record(idx, rec);
                proof {
                    assert(final(self).directory@ =~= pre);
                }
                return Err(e);
            },
        };
        rec.group = Some(GroupHandle { mls: group, group_id: gid });
        self.directory.put_record(idx, rec);
        let mut actions: Vec<Action> = Vec::new();
        actions.push(Action::Publish { topic: t_info, payload: info_bytes, retained: true });
        actions.push(Action::Publish { topic: t_welcome, payload: welcome_bytes, retained: false });
        actions.push(Action::Subscribe { topic: t_msg });
        proof {
            let post = final(self).directory@;
            let gidv = post[idx as int].gid->0;
            assert(post =~= pre.update(idx as int, post[idx as int]));
            assert(scanned == pre.remove(idx as int));
            assert forall|j: int|
                0 <= j < pre.len() && j != idx as int implies pre[j].gid != Some(gidv) by {
                let rj: int = if j < idx as int {
                    j
                } else {
                    j - 1
                };
                assert(pre.remove(idx as int)[rj] == pre[j]);
                assert(pre[j].id != peer@) by {
                    assert(pre[idx as int].id == peer@);
                }
            }
            crate::directory::lemma_update_keeps_wf(pre, post, idx as int);
            assert(pre[idx as int].id == peer@);
            assert forall|i: int| 0 <= i < pre.len() && pre[i].id != peer@ implies post[i]
                == pre[i] by {}
            assert forall|i: int| 0 <= i < pre.len() && (#[trigger] pre[i].id) == peer@
                implies post[i] == (PeerView {
                id: peer@,
                has_key_package: false,
                gid: Some(gidv),
            }) by {
                if i != idx as int {
                    assert(pre[i].id == pre[idx as int].id);
                }
            }
            assert(group_installed(pre, post, peer@, gidv));
            assert(establish_acts(acts(actions@), peer@, gidv)) by {
                assert(acts(actions@)[0] == actions@[0]@);
                assert(acts(actions@)[1] == actions@[1]@);
                assert(acts(actions@)[2] == actions@[2]@);
            }
            assert(sessions_kept(pre, post)) by {
                assert forall|i: int| 0 <= i < pre.len() && (#[trigger] pre[i]).gid is Some
                    implies exists|j: int|
                    0 <= j < post.len() && (#[trigger] post[j]).id == pre[i].id && post[j].gid
                        is Some by {
                    assert(post[i].id == pre[i].id && post[i].gid is Some);
                }
            }
            assert(gid_out@ == gidv);
        }
        Ok((gid_out, actions))
    }

    /// The `connect` command: a no-op with a session, an immediate
    /// establishment with a known key package, and otherwise a subscription
    /// to the peer's key topic with the peer marked pending.
    pub fn connect(&mut self, peer: &Vec<u8>) -> (r: Result<
        (ConnectOutcome, Vec<Action>),
        RelayError,
    >)
        requires
            old(self).wf(),
            peer@.len() + 8 <= usize::MAX,
        ensures
            final(self).wf(),
            final(self).client_id@ == old(self).client_id@,
            sessions_kept(old(self).directory@, final(self).directory@),
            in_session(old(self).directory@, peer@) ==> (r matches Ok(p) && p.0
                == ConnectOutcome::AlreadyConnected && p.1@.len() == 0 && final(self).directory@
                == old(self).directory@ && final(self).pending@ == old(self).pending@),
            (!in_session(old(self).directory@, peer@) && kp_known_for(
                old(self).directory@,
                peer@,
            )) ==> match r {
                Ok(p) => p.0 == ConnectOutcome::Established && final(self).pending@ == old(
                    self,
                ).pending@ && establishment(
                    old(self).directory@,
                    final(self).directory@,
                    acts(p.1@),
                    peer@,
                ),
                Err(_) => final(self).directory@ == old(self).directory@ && final(self).pending@
                    == old(self).pending@,
            },
            (!in_session(old(self).directory@, peer@) && !kp_known_for(
                old(self).directory@,
                peer@,
            )) ==> (r matches Ok(p) && p.0 == ConnectOutcome::Pending && final(self).directory@
                == old(self).directory@ && acts(p.1@) =~= seq![
                (ActionView::Subscribe { topic: key_topic(peer@) }),
            ] && ids_view(final(self).pending@) =~= (if ids_contain(
                ids_view(old(self).pending@),
                peer@,
            ) {
                ids_view(old(self).pending@)
            } else {
                ids_view(old(self).pending@).push(peer@)
            })),
    {
        if self.directory.has_group(peer) {
            return Ok((ConnectOutcome::AlreadyConnected, Vec::new()));
        }
        if self.directory.kp_known(peer) {
            let (gid, a) = match self.create_group(peer) {
                Ok(x) => x,
                Err(e) => {
                    return Err(e);
                },
            };
            let ghost before = a@;
            let mut a = a;
            a.push(Action::SessionEstablished { peer: peer.clone() });
            proof {
                assert(acts(before).len() == 3);
                assert(a@ == before.push(a@[3]));
                assert(acts(a@).take(3) =~= acts(before));
                assert(acts(a@)[3] == a@[3]@);
                assert(group_installed(old(self).directory@, self.directory@, peer@, gid@));
                assert(establishment(old(self).directory@, self.directory@, acts(a@), peer@));
            }
            return Ok((ConnectOutcome::Established, a));
        }
        if !pending_contains(&self.pending, peer) {
            self.pending.push(peer.clone());
            proof {
                let pre = ids_view(old(self).pending@);
                assert(ids_view(self.pending@) =~= pre.push(peer@));
                assert forall|i: int, j: int|
                    0 <= i < j < ids_view(self.pending@).len() implies ids_view(
                    self.pending@,
                )[i] != ids_view(self.pending@)[j] by {
                    if j == pre.len() {
                        assert(ids_view(self.pending@)[i] == pre[i]);
                    }
                }
            }
        }
        let t = topic_key(peer);
        let mut a: Vec<Action> = Vec::new();
        a.push(Action::Subscribe { topic: t });
        proof {
            assert(acts(a@) =~= seq![(ActionView::Subscribe { topic: key_topic(peer@) })]);
        }
        Ok((ConnectOutcome::Pending, a))
    }
}


/// A key-package upsert changes no session: the same peers are in session
/// before and after.
proof fn lemma_upsert_keeps_sessions(pre: Seq<PeerView>, mid: Seq<PeerView>, p: Seq<u8>)
    requires
        kp_upserted(pre, mid, p),
    ensures
        forall|q: Seq<u8>| in_session(mid, q) <==> in_session(pre, q),
        sessions_kept(pre, mid),
{
    assert forall|q: Seq<u8>| in_session(mid, q) <==> in_session(pre, q) by {
        if has_id(pre, p) {
            assert forall|i: int| 0 <= i < pre.len() implies mid[i].id == pre[i].id && (
            mid[i].gid is Some <==> #[trigger] pre[i].gid is Some) by {
                if pre[i].id == p {
                } else {
                }
            }
            if in_session(mid, q) {
                let i = choose|i: int| 0 <= i < mid.len() && mid[i].id == q && mid[i].gid
                    is Some;
                assert(pre[i].id == q && pre[i].gid is Some);
            }
            if in_session(pre, q) {
                let i = choose|i: int| 0 <= i < pre.len() && pre[i].id == q && pre[i].gid
                    is Some;
                assert(mid[i].id == q && mid[i].gid is Some);
            }
        } else {
            if in_session(mid, q) {
                let i = choose|i: int| 0 <= i < mid.len() && mid[i].id == q && mid[i].gid
                    is Some;
                assert(i < pre.len());
                assert(pre[i].id == q && pre[i].gid is Some);
            }
            if in_session(pre, q) {
                let i = choose|i: int| 0 <= i < pre.len() && pre[i].id == q && pre[i].gid
                    is Some;
                assert(mid[i].id == q && mid[i].gid is Some);
            }
        }
    }
    assert forall|i: int| 0 <= i < pre.len() && (#[trigger] pre[i]).gid is Some
        implies exists|j: int|
        0 <= j < mid.len() && (#[trigger] mid[j]).id == pre[i].id && mid[j].gid is Some by {
        if has_id(pre, p) {
            if pre[i].id == p {
                assert(mid[i].id == pre[i].id && mid[i].gid is Some);
            } else {
                assert(mid[i].id == pre[i].id && mid[i].gid is Some);
            }
        } else {
            assert(mid[i].id == pre[i].id && mid[i].gid is Some);
        }
    }
}

/// Upserting a key package and then installing a group amounts to
/// installing the group outright.
proof fn lemma_upsert_then_install(
    pre: Seq<PeerView>,
    mid: Seq<PeerView>,
    post: Seq<PeerView>,
    p: Seq<u8>,
    gid: Seq<u8>,
)
    requires
        kp_upserted(pre, mid, p),
        group_installed(mid, post, p, gid),
    ensures
        group_installed(pre, post, p, gid),
{
    if has_id(pre, p) {
        assert(has_id(mid, p)) by {
            let i = choose|i: int| 0 <= i < pre.len() && pre[i].id == p;
            assert(mid[i].id == p);
        }
        assert(post.len() == pre.len());
        assert forall|i: int| 0 <= i < pre.len() && pre[i].id != p implies post[i]
            == #[trigger] pre[i] by {
            assert(mid[i] == pre[i]);
        }
        assert forall|i: int| 0 <= i < pre.len() && (#[trigger] pre[i].id) == p implies post[i]
            == (PeerView { id: p, has_key_package: false, gid: Some(gid) }) by {
            assert(mid[i].id == p);
        }
    } else {
        assert(has_id(mid, p)) by {
            assert(mid[pre.len() as int].id == p);
        }
        let installed = PeerView { id: p, has_key_package: false, gid: Some(gid) };
        assert(post =~= pre.push(installed)) by {
            assert(post.len() == mid.len());
            assert(mid.len() == pre.len() + 1);
            assert forall|i: int| 0 <= i < pre.len() implies post[i] == pre[i] by {
                assert(mid[i] == pre[i]);
                assert(mid[i].id != p) by {
                    if pre[i].id == p {
                        assert(has_id(pre, p));
                    }
                }
            }
            assert(mid[pre.len() as int].id == p);
            assert(post[pre.len() as int] == installed);
        }
    }
}

impl RelayClient {
    /// Handles an inbound publish on a key topic. Our own retained
    /// publication is ignored. A peer's key package is validated and
    /// stored; if the peer was pending, the session is established now,
    /// unless a welcome already established one in the meantime.
    pub fn handle_key_package(&mut self, topic: &Vec<u8>, payload: &Vec<u8>) -> (r: Result<
        Vec<Action>,
        RelayError,
    >)
        requires
            old(self).wf(),
            payload@.len() <= usize::MAX - 9,
        ensures
            final(self).wf(),
            final(self).client_id@ == old(self).client_id@,
            sessions_kept(old(self).directory@, final(self).directory@),
            !is_prefix(key_prefix(), topic@) ==> r == Err::<Vec<Action>, RelayError>(
                RelayError::ProtocolViolation,
            ) && final(self).directory@ == old(self).directory@ && final(self).pending@ == old(
                self,
            ).pending@,
            topic@ == key_topic(old(self).client_id@) ==> (r matches Ok(a) && a@.len() == 0)
                && final(self).directory@ == old(self).directory@ && final(self).pending@ == old(
                self,
            ).pending@,
            r is Err ==> ids_same(ids_view(old(self).pending@), ids_view(final(self).pending@)),
            (is_prefix(key_prefix(), topic@) && topic@ != key_topic(old(self).client_id@)) ==> (
            kp_publication_dec(payload@) is None ==> r == Err::<Vec<Action>, RelayError>(
                RelayError::Serialization,
            ) && final(self).directory@ == old(self).directory@ && final(self).pending@ == old(
                self,
            ).pending@),
            (is_prefix(key_prefix(), topic@) && topic@ != key_topic(old(self).client_id@) && r
                is Ok) ==> {
                let peer = topic@.skip(8);
                &&& !ids_contain(ids_view(old(self).pending@), peer) ==> (kp_upserted(
                    old(self).directory@,
                    final(self).directory@,
                    peer,
                ) && final(self).pending@ == old(self).pending@ && (r matches Ok(a) && a@.len()
                    == 0))
                &&& ids_contain(ids_view(old(self).pending@), peer) ==> !ids_contain(
                    ids_view(final(self).pending@),
                    peer,
                )
                &&& (ids_contain(ids_view(old(self).pending@), peer) && in_session(
                    old(self).directory@,
                    peer,
                )) ==> (r matches Ok(a) && a@.len() == 0)
                &&& (ids_contain(ids_view(old(self).pending@), peer) && !in_session(
                    old(self).directory@,
                    peer,
                )) ==> (r matches Ok(a) && establishment(
                    old(self).directory@,
                    final(self).directory@,
                    acts(a@),
                    peer,
                ))
            },
    {
        proof {
            if topic@ == key_topic(old(self).client_id@) {
                assert(topic@.subrange(0, 8) =~= key_prefix());
            }
        }
        let kind = classify_topic(topic);
        let peer = match kind {
            TopicKind::PeerKey(p) => p,
            _ => {
                return Err(RelayError::ProtocolViolation);
            },
        };
        proof {
            assert(topic@.skip(8) =~= peer@);
            if topic@ == key_topic(old(self).client_id@) {
                crate::topics::lemma_key_topic_injective(peer@, old(self).client_id@);
            }
        }
        if bytes_eq(&peer, &self.client_id) {
            return Ok(Vec::new());
        }
        let kp_bytes = match decode_kp_publication(payload) {
            Some(b) => b,
            None => {
                return Err(RelayError::Serialization);
            },
        };
        let kp = match mls::parse_validate_key_package(&self.provider, &kp_bytes) {
            Ok(k) => k,
            Err(e) => {
                return Err(e);
            },
        };
        proof {
            assert(topic@.len() == topic.len());
            assert(peer@.len() + 8 <= usize::MAX);
        }
        let ghost pre = self.directory@;
        self.directory.upsert_key_package(&peer, kp);
        let ghost mid = self.directory@;
        proof {
            lemma_upsert_keeps_sessions(pre, mid, peer@);
        }
        if !pending_contains(&self.pending, &peer) {
            return Ok(Vec::new());
        }
        pending_remove(&mut self.pending, &peer);
        let ghost pend_mid = ids_view(self.pending@);
        if self.directory.has_group(&peer) {
            return Ok(Vec::new());
        }
        let (gid, a) = match self.create_group(&peer) {
            Ok(x) => x,
            Err(e) => {
                self.pending.push(peer.clone());
                proof {
                    let pend_old = ids_view(old(self).pending@);
                    let k = choose|k: int|
                        0 <= k < pend_old.len() && pend_old[k] == peer@ && pend_mid =~= pend_old
                            .remove(k);
                    assert(ids_view(self.pending@) =~= pend_mid.push(peer@));
                    assert(ids_view(self.pending@) =~= pend_old.remove(k).push(peer@));
                    lemma_remove_then_push(pend_old, ids_view(self.pending@), k, peer@);
                    assert forall|i2: int, j2: int|
                        0 <= i2 < j2 < ids_view(self.pending@).len() implies ids_view(
                        self.pending@,
                    )[i2] != ids_view(self.pending@)[j2] by {
                        if j2 == ids_view(self.pending@).len() - 1 {
                            assert(ids_view(self.pending@)[i2] == pend_mid[i2]);
                            if pend_mid[i2] == peer@ {
                                assert(ids_contain(pend_mid, peer@));
                            }
                        } else {
                            assert(ids_view(self.pending@)[i2] == pend_mid[i2] && ids_view(
                                self.pending@,
                            )[j2] == pend_mid[j2]);
                        }
                    }
                }
                return Err(e);
            },
        };
        let ghost before = a@;
        let mut a = a;
        a.push(Action::SessionEstablished { peer: peer.clone() });
        proof {
            lemma_upsert_then_install(pre, mid, self.directory@, peer@, gid@);
            assert(acts(before).len() == 3);
            assert(a@ == before.push(a@[3]));
            assert(acts(a@).take(3) =~= acts(before));
            assert(acts(a@)[3] == a@[3]@);
            assert(establishment(pre, self.directory@, acts(a@), peer@));
            assert(sessions_kept(pre, self.directory@)) by {
                assert forall|i: int| 0 <= i < pre.len() && (#[trigger] pre[i]).gid is Some
                    implies exists|j: int|
                    0 <= j < self.directory@.len() && (#[trigger] self.directory@[j]).id
                        == pre[i].id && self.directory@[j].gid is Some by {
                    assert(in_session(pre, pre[i].id));
                    lemma_upsert_keeps_sessions(pre, mid, peer@);
                    assert(in_session(mid, pre[i].id));
                    let k = choose|k: int|
                        0 <= k < mid.len() && mid[k].id == pre[i].id && mid[k].gid is Some;
                    assert(self.directory@[k].id == pre[i].id && self.directory@[k].gid
                        is Some);
                }
            }
        }
        Ok(a)
    }
}


/// A welcome was joined: a session with some peer other than ourselves was
/// installed under a sixteen-byte group identifier, and the actions
/// subscribe to the group, republish a fresh key package (the old one was
/// consumed by the welcome), and report the session.
pub open spec fn joined(
    pre: Seq<PeerView>,
    post: Seq<PeerView>,
    a: Seq<ActionView>,
    me: Seq<u8>,
) -> bool {
    exists|p: Seq<u8>, gid: Seq<u8>|
        {
            &&& (#[trigger] group_installed(pre, post, p, gid))
            &&& p != me
            &&& gid.len() == 16
            &&& a.len() == 3
            &&& a[0] == (ActionView::Subscribe { topic: group_msg_topic(gid) })
            &&& republish_act(a[1], me)
            &&& a[2] == (ActionView::SessionEstablished { peer: p })
        }
}

impl RelayClient {
    /// Handles an inbound welcome: joins the group, identifies the peer as
    /// the member other than ourselves, installs the session, subscribes to
    /// the group's messages and republishes a fresh key package.
    pub fn handle_welcome(&mut self, payload: &Vec<u8>) -> (r: Result<Vec<Action>, RelayError>)
        requires
            old(self).wf(),
        ensures
            final(self).wf(),
            final(self).client_id@ == old(self).client_id@,
            final(self).pending@ == old(self).pending@,
            sessions_kept(old(self).directory@, final(self).directory@),
            r matches Ok(a) ==> joined(
                old(self).directory@,
                final(self).directory@,
                acts(a@),
                old(self).client_id@,
            ),
            r is Err ==> final(self).directory@ == old(self).directory@,
    {
        let joined_group = match mls::join_from_welcome(&self.provider, payload, None) {
            Ok(x) => x,
            Err(e) => {
                return Err(e);
            },
        };
        let (group, gid) = joined_group;
        if gid.len() != 16 {
            return Err(RelayError::ProtocolViolation);
        }
        let members = mls::member_ids(&group);
        let mut peer_found: Option<Vec<u8>> = None;
        let mut i: usize = 0;
        while i < members.len()
            invariant
                peer_found matches Some(p) ==> p@ != old(self).client_id@,
                self == old(self),
            decreases members@.len() - i,
        {
            if !bytes_eq(&members[i], &self.client_id) {
                peer_found = Some(members[i].clone());
                break ;
            }
            i = i + 1;
        }
        let peer = match peer_found {
            Some(p) => p,
            None => {
                return Err(RelayError::ProtocolViolation);
            },
        };
        if peer.len() > usize::MAX - 8 {
            return Err(RelayError::ProtocolViolation);
        }
        let t_msg = topic_group_msg(&gid);
        let republish = match self.publish_key_package() {
            Ok(a) => a,
            Err(e) => {
                return Err(e);
            },
        };
        let ghost pre = self.directory@;
        let ghost gidv = gid@;
        let installed = self.directory.install_group(&peer, GroupHandle { mls: group, group_id: gid });
        if !installed {
            return Err(RelayError::ProtocolViolation);
        }
        let mut a: Vec<Action> = Vec::new();
        a.push(Action::Subscribe { topic: t_msg });
        a.push(republish);
        a.push(Action::SessionEstablished { peer: peer.clone() });
        proof {
            assert(acts(a@)[0] == a@[0]@);
            assert(acts(a@)[1] == a@[1]@);
            assert(acts(a@)[2] == a@[2]@);
            assert(group_installed(pre, self.directory@, peer@, gidv));
            assert(joined(pre, self.directory@, acts(a@), old(self).client_id@));
            assert(sessions_kept(pre, self.directory@)) by {
                assert forall|i2: int| 0 <= i2 < pre.len() && (#[trigger] pre[i2]).gid is Some
                    implies exists|j: int|
                    0 <= j < self.directory@.len() && (#[trigger] self.directory@[j]).id
                        == pre[i2].id && self.directory@[j].gid is Some by {
                    if has_id(pre, peer@) {
                        if pre[i2].id == peer@ {
                            assert(self.directory@[i2].id == pre[i2].id
                                && self.directory@[i2].gid is Some);
                        } else {
                            assert(self.directory@[i2].id == pre[i2].id
                                && self.directory@[i2].gid is Some);
                        }
                    } else {
                        assert(self.directory@[i2].id == pre[i2].id && self.directory@[i2].gid
                            is Some);
                    }
                }
            }
        }
        Ok(a)
    }

    /// Handles an inbound publish on a group's message topic: routes it to
    /// the group installed under that identifier and processes it. An
    /// application message is delivered; a commit is merged; proposals and
    /// the broker's echo of our own publishes are dropped. The directory is
    /// unchanged in every case.
    #[verifier::rlimit(60)]
    pub fn handle_group_message(&mut self, topic: &Vec<u8>, payload: &Vec<u8>) -> (r: Result<
        Vec<Action>,
        RelayError,
    >)
        requires
            old(self).wf(),
        ensures
            final(self).wf(),
            final(self).client_id@ == old(self).client_id@,
            final(self).pending@ == old(self).pending@,
            final(self).directory@ == old(self).directory@,
            sessions_kept(old(self).directory@, final(self).directory@),
            !(is_prefix(crate::topics::group_prefix(), topic@) && topic@.len() >= 10
                && crate::bytes::is_suffix(crate::topics::msg_suffix(), topic@)) ==> r == Err::<
                Vec<Action>,
                RelayError,
            >(RelayError::ProtocolViolation),
            (is_prefix(crate::topics::group_prefix(), topic@) && topic@.len() >= 10
                && crate::bytes::is_suffix(crate::topics::msg_suffix(), topic@) && (forall|i: int|
                0 <= i < old(self).directory@.len() ==> !(#[trigger] old(
                    self,
                ).directory@[i].gid matches Some(g) && hex_enc(g) == topic@.subrange(
                    8,
                    topic@.len() - 2,
                )))) ==> r == Err::<Vec<Action>, RelayError>(RelayError::UnknownPeer),
            r matches Ok(a) ==> (a@.len() == 0 || (a@.len() == 1 && (acts(a@)[0]
                matches ActionView::DeliverText { peer, text } && exists|i: int|
                0 <= i < old(self).directory@.len() && (#[trigger] old(self).directory@[i]).id
                    == peer && old(self).directory@[i].gid is Some))),
    {
        let kind = classify_topic(topic);
        let hexseg = match kind {
            TopicKind::GroupMsg(h) => h,
            _ => {
                return Err(RelayError::ProtocolViolation);
            },
        };
        proof {
            assert(hexseg@ =~= topic@.subrange(8, topic@.len() - 2));
        }
        let idx = match self.directory.lookup_gid_hex(&hexseg) {
            Some(i) => i,
            None => {
                return Err(RelayError::UnknownPeer);
            },
        };
        let ghost pre = self.directory@;
        let mut rec = self.directory.take_record(idx);
        let peer_id = rec.peer_id.clone();
        let gslot = rec.group;
        rec.group = None;
        let mut handle = match gslot {
            Some(h) => h,
            None => {
                proof {
                    assert(false);
                }
                return Err(RelayError::UnknownPeer);
            },
        };
        let msg = match mls::parse_protocol_message(payload) {
            Ok(m) => m,
            Err(e) => {
                rec.group = Some(handle);
                self.directory.put_record(idx, rec);
                proof {
                    assert(final(self).directory@ =~= pre);
                }
                return Err(e);
            },
        };
        let processed = mls::process_message(&self.provider, &mut handle.mls, msg);
        match processed {
            Ok(mls::MlsProcessed::Application(text)) => {
                rec.group = Some(handle);
                self.directory.put_record(idx, rec);
                let mut a: Vec<Action> = Vec::new();
                a.push(Action::DeliverText { peer: peer_id, text });
                proof {
                    assert(final(self).directory@ =~= pre);
                    assert(acts(a@)[0] == a@[0]@);
                    assert(pre[idx as int].id == rec@.id && pre[idx as int].gid is Some);
                }
                Ok(a)
            },
            Ok(mls::MlsProcessed::Commit(staged)) => {
                let merged = mls::merge_staged_commit(&self.provider, &mut handle.mls, staged);
                rec.group = Some(handle);
                self.directory.put_record(idx, rec);
                proof {
                    assert(final(self).directory@ =~= pre);
                }
                match merged {
                    Ok(u) => Ok(Vec::new()),
                    Err(e) => Err(e),
                }
            },
            Ok(mls::MlsProcessed::Proposal) => {
                rec.group = Some(handle);
                self.directory.put_record(idx, rec);
                proof {
                    assert(final(self).directory@ =~= pre);
                }
                Ok(Vec::new())
            },
            Ok(mls::MlsProcessed::ExternalJoin) => {
                rec.group = Some(handle);
                self.directory.put_record(idx, rec);
                proof {
                    assert(final(self).directory@ =~= pre);
                }
                Ok(Vec::new())
            },
            Err(e) => {
                rec.group = Some(handle);
                self.directory.put_record(idx, rec);
                proof {
                    assert(final(self).directory@ =~= pre);
                }
                if e == RelayError::OwnMessageEcho {
                    Ok(Vec::new())
                } else {
                    Err(e)
                }
            },
        }
    }

    /// The `chat` command: resolves the query to a peer, requires an
    /// established session, encrypts the text into the group and returns
    /// the publish together with a local echo.
    pub fn send(&mut self, query: &Vec<u8>, text: &Vec<u8>) -> (r: Result<Vec<Action>, RelayError>)
        requires
            old(self).wf(),
        ensures
            final(self).wf(),
            final(self).client_id@ == old(self).client_id@,
            final(self).pending@ == old(self).pending@,
            final(self).directory@ == old(self).directory@,
            sessions_kept(old(self).directory@, final(self).directory@),
            (!has_id(old(self).directory@, query@) && crate::directory::match_count(
                old(self).directory@,
                query@,
            ) == 0) ==> r == Err::<Vec<Action>, RelayError>(RelayError::UnknownPeer),
            (!has_id(old(self).directory@, query@) && crate::directory::match_count(
                old(self).directory@,
                query@,
            ) >= 2) ==> r == Err::<Vec<Action>, RelayError>(RelayError::AmbiguousPeer),
            (has_id(old(self).directory@, query@) && !in_session(old(self).directory@, query@))
                ==> r == Err::<Vec<Action>, RelayError>(RelayError::NoSession),
            (!has_id(old(self).directory@, query@) && crate::directory::match_count(
                old(self).directory@,
                query@,
            ) == 1 && (forall|i: int|
                0 <= i < old(self).directory@.len() && is_prefix(
                    query@,
                    (#[trigger] old(self).directory@[i]).id,
                ) ==> old(self).directory@[i].gid is None)) ==> r == Err::<Vec<Action>, RelayError>(
                RelayError::NoSession,
            ),
            r matches Ok(a) ==> exists|p: Seq<u8>, gid: Seq<u8>, m: Seq<u8>|
                {
                    &&& in_session(old(self).directory@, p)
                    &&& is_prefix(query@, p)
                    &&& (exists|i: int|
                        0 <= i < old(self).directory@.len() && (#[trigger] old(
                            self,
                        ).directory@[i]).id == p && old(self).directory@[i].gid == Some(gid))
                    &&& acts(a@) =~= seq![
                        (ActionView::Publish {
                            topic: group_msg_topic(gid),
                            payload: m,
                            retained: false,
                        }),
                        (ActionView::DeliverText { peer: old(self).client_id@, text: text@ }),
                    ]
                },
    {
        let peer = match self.find_peer(query) {
            Ok(p) => p,
            Err(e) => {
                return Err(e);
            },
        };
        let idx = match self.directory.lookup(&peer) {
            Some(i) => i,
            None => {
                return Err(RelayError::UnknownPeer);
            },
        };
        let ghost pre = self.directory@;
        let mut rec = self.directory.take_record(idx);
        let gslot = rec.group;
        rec.group = None;
        let mut handle = match gslot {
            Some(h) => h,
            None => {
                self.directory.put_record(idx, rec);
                proof {
                    assert(final(self).directory@ =~= pre);
                    if in_session(pre, peer@) {
                        let j = choose|j: int|
                            0 <= j < pre.len() && pre[j].id == peer@ && pre[j].gid is Some;
                        assert(pre[j].id == pre[idx as int].id);
                    }
                }
                return Err(RelayError::NoSession);
            },
        };
        proof {
            assert(crate::directory::record_ok(pre[idx as int]));
        }
        let encrypted = mls::create_app_message(&self.provider, &self.signer, &mut handle.mls,
            text);
        let msg = match encrypted {
            Ok(m) => m,
            Err(e) => {
                rec.group = Some(handle);
                self.directory.put_record(idx, rec);
                proof {
                    assert(final(self).directory@ =~= pre);
                }
                return Err(e);
            },
        };
        let t = topic_group_msg(&handle.group_id);
        let ghost gidv = handle.group_id@;
        rec.group = Some(handle);
        self.directory.put_record(idx, rec);
        let mut a: Vec<Action> = Vec::new();
        a.push(Action::Publish { topic: t, payload: msg, retained: false });
        a.push(Action::DeliverText { peer: self.client_id.clone(), text: text.clone() });
        proof {
            assert(final(self).directory@ =~= pre);
            assert(acts(a@)[0] == a@[0]@);
            assert(acts(a@)[1] == a@[1]@);
            assert(pre[idx as int].id == peer@ && pre[idx as int].gid == Some(gidv));
            assert(in_session(pre, peer@));
            if has_id(pre, query@) {
                let j = choose|j: int| 0 <= j < pre.len() && pre[j].id == query@;
                assert(pre[j].id == pre[idx as int].id || j != idx);
            }
            assert(is_prefix(peer@, peer@)) by {
                assert(peer@.subrange(0, peer@.len() as int) =~= peer@);
            }
        }
        Ok(a)
    }

    /// Sorts an inbound broker event to its handler: key packages, welcomes
    /// addressed to us, and group messages; anything else is ignored.
    pub fn handle_event(&mut self, topic: &Vec<u8>, payload: &Vec<u8>) -> (r: Result<
        Vec<Action>,
        RelayError,
    >)
        requires
            old(self).wf(),
            payload@.len() <= usize::MAX - 9,
        ensures
            final(self).wf(),
            final(self).client_id@ == old(self).client_id@,
            sessions_kept(old(self).directory@, final(self).directory@),
            topic@ == key_topic(old(self).client_id@) ==> (r matches Ok(a) && a@.len() == 0)
                && final(self).directory@ == old(self).directory@ && final(self).pending@ == old(
                self,
            ).pending@,
    {
        proof {
            if topic@ == key_topic(old(self).client_id@) {
                assert(topic@.subrange(0, 8) =~= key_prefix());
            }
        }
        let kind = classify_topic(topic);
        match kind {
            TopicKind::PeerKey(_) => self.handle_key_package(topic, payload),
            TopicKind::Welcome(p) => {
                if bytes_eq(&p, &self.client_id) {
                    self.handle_welcome(payload)
                } else {
                    Ok(Vec::new())
                }
            },
            TopicKind::GroupMsg(_) => self.handle_group_message(topic, payload),
            TopicKind::GroupInfo(_) => Ok(Vec::new()),
            TopicKind::Other => Ok(Vec::new()),
        }
    }
}

} // verus!
