//! The in-memory index of known peers.
//!
//! A record is keyed by the peer's identifier and holds at most one of a
//! known key package and an active group; the key-package slot is cleared
//! when a group is installed. A group identifier is sixteen raw bytes,
//! rendered as hex in topics. Queries resolve exactly or by unique prefix.

use vstd::prelude::*;
use crate::bytes::{bytes_eq, is_prefix, starts_with};
use crate::hexcode::hex_enc;
use crate::RelayError;

verus! {

/// An established group and the identifier it is addressed by.
pub struct GroupHandle {
    /// The MLS group itself, opaque to the verified code.
    pub mls: openmls::group::MlsGroup,
    /// The raw sixteen-byte group identifier.
    pub group_id: Vec<u8>,
}

/// What is known of one peer.
pub struct PeerRecord {
    /// The peer's identifier: thirty-two bytes of lowercase hex.
    pub peer_id: Vec<u8>,
    /// The peer's current key package, if one was observed and no group is
    /// established yet.
    pub key_package: Option<openmls::key_packages::KeyPackage>,
    /// The established group, if any.
    pub group: Option<GroupHandle>,
}

/// The mathematical shadow of a record: the identifier, whether a key
/// package is held, and the group identifier if a group is installed.
pub struct PeerView {
    pub id: Seq<u8>,
    pub has_key_package: bool,
    pub gid: Option<Seq<u8>>,
}

impl View for PeerRecord {
    type V = PeerView;

    open spec fn view(&self) -> PeerView {
        PeerView {
            id: self.peer_id@,
            has_key_package: self.key_package is Some,
            gid: match self.group {
                Some(ref h) => Some(h.group_id@),
                None => None,
            },
        }
    }
}

/// A record holds at most one of a key package and a group, and an
/// installed group identifier has sixteen bytes.
pub open spec fn record_ok(p: PeerView) -> bool {
    &&& !(p.has_key_package && p.gid is Some)
    &&& (p.gid matches Some(g) ==> g.len() == 16)
    &&& p.id.len() + 8 <= usize::MAX
}

/// Record identifiers are pairwise distinct, each record is well formed,
/// and no two records share an installed group identifier: the map from
/// group identifiers to peers is a bijection.
pub open spec fn dir_wf(s: Seq<PeerView>) -> bool {
    &&& forall|i: int, j: int| 0 <= i < j < s.len() ==> s[i].id != s[j].id
    &&& forall|i: int| 0 <= i < s.len() ==> record_ok(#[trigger] s[i])
    &&& forall|i: int, j: int|
        #![trigger s[i].gid, s[j].gid]
        0 <= i < j < s.len() && s[i].gid is Some ==> s[i].gid != s[j].gid
}

/// True when some record carries the identifier.
pub open spec fn has_id(s: Seq<PeerView>, id: Seq<u8>) -> bool {
    exists|i: int| 0 <= i < s.len() && s[i].id == id
}

/// How many records the query is a prefix of.
pub open spec fn match_count(s: Seq<PeerView>, q: Seq<u8>) -> nat
    decreases s.len(),
{
    if s.len() == 0 {
        0
    } else {
        (if is_prefix(q, s[0].id) {
            1nat
        } else {
            0nat
        }) + match_count(s.drop_first(), q)
    }
}

/// The directory of peers.
pub struct Directory {
    /// The records, one per known peer.
    pub records: Vec<PeerRecord>,
}

impl View for Directory {
    type V = Seq<PeerView>;

    open spec fn view(&self) -> Seq<PeerView> {
        self.records@.map_values(|r: PeerRecord| r@)
    }
}

impl Directory {
    /// Whether the directory's invariant holds.
    pub open spec fn wf(&self) -> bool {
        dir_wf(self@)
    }

    /// An empty directory.
    pub fn new() -> (r: Directory)
        ensures
            r@ =~= Seq::<PeerView>::empty(),
            r.wf(),
    {
        Directory { records: Vec::new() }
    }

    /// The number of records.
    pub fn len(&self) -> (r: usize)
        ensures
            r == self@.len(),
    {
        self.records.len()
    }

    /// The position of the record with the given identifier.
    pub fn lookup(&self, id: &Vec<u8>) -> (r: Option<usize>)
        ensures
            match r {
                Some(i) => i < self@.len() && self@[i as int].id == id@,
                None => !has_id(self@, id@),
            },
    {
        let mut i: usize = 0;
        while i < self.records.len()
            invariant
                i <= self@.len(),
                self@.len() == self.records@.len(),
                forall|j: int| 0 <= j < i ==> self@[j].id != id@,
            decreases self@.len() - i,
        {
            if bytes_eq(&self.records[i].peer_id, id) {
                return Some(i);
            }
            i = i + 1;
        }
        None
    }

    /// Whether a record for the identifier carries an installed group.
    pub fn has_group(&self, id: &Vec<u8>) -> (r: bool)
        ensures
            r <==> exists|i: int| 0 <= i < self@.len() && self@[i].id == id@ && self@[i].gid
                is Some,
    {
        let mut i: usize = 0;
        while i < self.records.len()
            invariant
                i <= self@.len(),
                self@.len() == self.records@.len(),
                forall|j: int| 0 <= j < i ==> !(self@[j].id == id@ && self@[j].gid is Some),
            decreases self@.len() - i,
        {
            if bytes_eq(&self.records[i].peer_id, id) && self.records[i].group.is_some() {
                proof {
                    assert(self@[i as int] == self.records@[i as int]@);
                    assert(self@[i as int].id == id@ && self@[i as int].gid is Some);
                }
                return true;
            }
            i = i + 1;
        }
        false
    }

    /// Whether a record for the identifier carries a known key package.
    pub fn kp_known(&self, id: &Vec<u8>) -> (r: bool)
        ensures
            r <==> exists|i: int|
                0 <= i < self@.len() && self@[i].id == id@ && self@[i].has_key_package,
    {
        let mut i: usize = 0;
        while i < self.records.len()
            invariant
                i <= self@.len(),
                self@.len() == self.records@.len(),
                forall|j: int| 0 <= j < i ==> !(self@[j].id == id@ && self@[j].has_key_package),
            decreases self@.len() - i,
        {
            if bytes_eq(&self.records[i].peer_id, id) && self.records[i].key_package.is_some() {
                proof {
                    assert(self@[i as int] == self.records@[i as int]@);
                    assert(self@[i as int].id == id@ && self@[i as int].has_key_package);
                }
                return true;
            }
            i = i + 1;
        }
        false
    }

    /// Removes and returns the record at `i`.
    pub fn take_record(&mut self, i: usize) -> (r: PeerRecord)
        requires
            i < old(self)@.len(),
        ensures
            r@ == old(self)@[i as int],
            final(self)@ == old(self)@.remove(i as int),
    {
        let r = self.records.remove(i);
        proof {
            assert(final(self)@ =~= old(self)@.remove(i as int));
        }
        r
    }

    /// Puts a record back at `i`.
    pub fn put_record(&mut self, i: usize, rec: PeerRecord)
        requires
            i <= old(self)@.len(),
        ensures
            final(self)@ == old(self)@.insert(i as int, rec@),
    {
        self.records.insert(i, rec);
        proof {
            assert(final(self)@ =~= old(self)@.insert(i as int, rec@));
        }
    }

    /// Stores the peer's key package, creating the record on first
    /// observation. A record that already carries a group is left as it is:
    /// a session, once established, is never demoted.
    pub fn upsert_key_package(
        &mut self,
        id: &Vec<u8>,
        kp: openmls::key_packages::KeyPackage,
    )
        requires
            old(self).wf(),
            id@.len() + 8 <= usize::MAX,
        ensures
            final(self).wf(),
            has_id(final(self)@, id@),
            kp_upserted(old(self)@, final(self)@, id@),
    {
        let found = self.lookup(id);
        match found {
            Some(i) => {
                let mut rec = self.take_record(i);
                if rec.group.is_none() {
                    rec.key_package = Some(kp);
                }
                self.put_record(i, rec);
                proof {
                    assert(final(self)@ =~= old(self)@.update(
                        i as int,
                        final(self)@[i as int],
                    ));
                    lemma_update_keeps_wf(old(self)@, final(self)@, i as int);
                }
            },
            None => {
                let rec = PeerRecord { peer_id: id.clone(), key_package: Some(kp), group: None };
                let n = self.records.len();
                self.put_record(n, rec);
                proof {
                    assert(final(self)@ =~= old(self)@.push(final(self)@.last()));
                }
            },
        }
    }

    /// Whether no record carries the group identifier, the one for `id`
    /// excepted.
    pub fn gid_free(&self, gid: &Vec<u8>, id: &Vec<u8>) -> (r: bool)
        ensures
            r <==> forall|i: int|
                0 <= i < self@.len() && (#[trigger] self@[i]).id != id@ ==> self@[i].gid != Some(
                    gid@,
                ),
    {
        let mut i: usize = 0;
        while i < self.records.len()
            invariant
                i <= self@.len(),
                self@.len() == self.records@.len(),
                forall|j: int|
                    0 <= j < i && (#[trigger] self@[j]).id != id@ ==> self@[j].gid != Some(gid@),
            decreases self@.len() - i,
        {
            match &self.records[i].group {
                Some(h) => {
                    if bytes_eq(&h.group_id, gid) && !bytes_eq(&self.records[i].peer_id, id) {
                        proof {
                            assert(self@[i as int] == self.records@[i as int]@);
                            assert(self@[i as int].id != id@ && self@[i as int].gid == Some(
                                gid@,
                            ));
                        }
                        return false;
                    }
                },
                None => {},
            }
            i = i + 1;
        }
        true
    }

    /// Installs a group for the peer, clearing any held key package (it was
    /// consumed), and creating the record on first observation. Refused if
    /// another peer already holds the group identifier: the group index
    /// stays a bijection.
    pub fn install_group(&mut self, id: &Vec<u8>, handle: GroupHandle) -> (r: bool)
        requires
            old(self).wf(),
            id@.len() + 8 <= usize::MAX,
            handle.group_id@.len() == 16,
        ensures
            final(self).wf(),
            r ==> group_installed(old(self)@, final(self)@, id@, handle.group_id@),
            !r ==> final(self)@ == old(self)@ && (exists|j: int|
                0 <= j < old(self)@.len() && (#[trigger] old(self)@[j]).id != id@
                    && old(self)@[j].gid == Some(handle.group_id@)),
    {
        if !self.gid_free(&handle.group_id, id) {
            return false;
        }
        let found = self.lookup(id);
        match found {
            Some(i) => {
                let mut rec = self.take_record(i);
                let ghost gidv = handle.group_id@;
                rec.key_package = None;
                rec.group = Some(handle);
                self.put_record(i, rec);
                proof {
                    assert(final(self)@ =~= old(self)@.update(
                        i as int,
                        final(self)@[i as int],
                    ));
                    assert forall|j: int| 0 <= j < old(self)@.len() && j != i implies old(
                        self,
                    )@[j].gid != final(self)@[i as int].gid by {
                        assert(old(self)@[j].id != id@);
                    }
                    lemma_update_keeps_wf(old(self)@, final(self)@, i as int);
                }
            },
            None => {
                let ghost gidv = handle.group_id@;
                let rec = PeerRecord {
                    peer_id: id.clone(),
                    key_package: None,
                    group: Some(handle),
                };
                let n = self.records.len();
                self.put_record(n, rec);
                proof {
                    assert(final(self)@ =~= old(self)@.push(final(self)@.last()));
                    assert forall|a: int, b: int|
                        #![trigger final(self)@[a].gid, final(self)@[b].gid]
                        0 <= a < b < final(self)@.len() && final(self)@[a].gid
                            is Some implies final(self)@[a].gid != final(self)@[b].gid by {
                        if b == old(self)@.len() {
                            assert(final(self)@[a] == old(self)@[a]);
                            assert(old(self)@[a].id != id@) by {
                                if old(self)@[a].id == id@ {
                                    assert(has_id(old(self)@, id@));
                                }
                            }
                        } else {
                            assert(final(self)@[a] == old(self)@[a] && final(self)@[b] == old(
                                self,
                            )@[b]);
                        }
                    }
                }
            },
        }
        true
    }

    /// The position of the record whose installed group renders to the
    /// given hex segment.
    pub fn lookup_gid_hex(&self, hex: &Vec<u8>) -> (r: Option<usize>)
        requires
            self.wf(),
        ensures
            match r {
                Some(i) => i < self@.len() && (self@[i as int].gid matches Some(g) && hex_enc(g)
                    == hex@),
                None => forall|i: int|
                    0 <= i < self@.len() ==> !(#[trigger] self@[i].gid matches Some(g) && hex_enc(
                        g,
                    ) == hex@),
            },
    {
        let mut i: usize = 0;
        while i < self.records.len()
            invariant
                self.wf(),
                i <= self@.len(),
                self@.len() == self.records@.len(),
                forall|j: int|
                    0 <= j < i ==> !(#[trigger] self@[j].gid matches Some(g) && hex_enc(g)
                        == hex@),
            decreases self@.len() - i,
        {
            match &self.records[i].group {
                Some(h) => {
                    proof {
                        assert(self@[i as int] == self.records@[i as int]@);
                        assert(record_ok(self@[i as int]));
                    }
                    let gh = crate::hexcode::to_hex(&h.group_id);
                    if bytes_eq(&gh, hex) {
                        return Some(i);
                    }
                },
                None => {},
            }
            i = i + 1;
        }
        None
    }

    /// Resolves a query to a peer identifier: an exact match wins, else a
    /// unique prefix match; otherwise the query is ambiguous or unknown.
    pub fn resolve_prefix(&self, q: &Vec<u8>) -> (r: Result<Vec<u8>, RelayError>)
        ensures
            has_id(self@, q@) ==> (r matches Ok(id) && id@ == q@),
            !has_id(self@, q@) ==> match r {
                Ok(id) => match_count(self@, q@) == 1 && is_prefix(q@, id@) && has_id(
                    self@,
                    id@,
                ),
                Err(e) => (e == RelayError::AmbiguousPeer && match_count(self@, q@) >= 2) || (e
                    == RelayError::UnknownPeer && match_count(self@, q@) == 0),
            },
            r is Err ==> (r matches Err(e) && (e == RelayError::AmbiguousPeer || e
                == RelayError::UnknownPeer)),
    {
        let exact = self.lookup(q);
        match exact {
            Some(i) => {
                return Ok(self.records[i].peer_id.clone());
            },
            None => {},
        }
        let mut found: Option<usize> = None;
        let mut count: usize = 0;
        let mut i: usize = 0;
        proof {
            assert(self@.skip(0) =~= self@);
        }
        while i < self.records.len()
            invariant
                i <= self@.len(),
                self@.len() == self.records@.len(),
                count <= i,
                match_count(self@, q@) == count + match_count(self@.skip(i as int), q@),
                count > 0 ==> (found matches Some(k) && k < i && is_prefix(q@, self@[k as int].id)),
                count == 0 ==> found is None,
            decreases self@.len() - i,
        {
            proof {
                assert(self@.skip(i as int).drop_first() =~= self@.skip(i + 1));
                assert(self@.skip(i as int)[0] == self@[i as int]);
            }
            if starts_with(&self.records[i].peer_id, q) {
                found = Some(i);
                count = count + 1;
            }
            i = i + 1;
        }
        proof {
            assert(self@.skip(self@.len() as int) =~= Seq::<PeerView>::empty());
        }
        if count == 1 {
            match found {
                Some(k) => Ok(self.records[k].peer_id.clone()),
                None => Err(RelayError::UnknownPeer),
            }
        } else if count >= 2 {
            Err(RelayError::AmbiguousPeer)
        } else {
            Err(RelayError::UnknownPeer)
        }
    }

    /// Lists each known peer and whether a session is established with it.
    pub fn listing(&self) -> (r: Vec<(Vec<u8>, bool)>)
        ensures
            r@.len() == self@.len(),
            forall|i: int|
                0 <= i < r@.len() ==> (#[trigger] r@[i]).0@ == self@[i].id && r@[i].1 == (
                self@[i].gid is Some),
    {
        let mut r: Vec<(Vec<u8>, bool)> = Vec::new();
        let mut i: usize = 0;
        while i < self.records.len()
            invariant
                i <= self@.len(),
                self@.len() == self.records@.len(),
                r@.len() == i,
                forall|j: int|
                    0 <= j < i ==> (#[trigger] r@[j]).0@ == self@[j].id && r@[j].1 == (self@[j].gid
                        is Some),
            decreases self@.len() - i,
        {
            let id = self.records[i].peer_id.clone();
            let has = self.records[i].group.is_some();
            r.push((id, has));
            i = i + 1;
        }
        r
    }
}

/// How a key-package upsert relates the new view to the old one: the
/// identified record holds a key package unless it already held a group;
/// every other record is untouched.
pub open spec fn kp_upserted(pre: Seq<PeerView>, post: Seq<PeerView>, id: Seq<u8>) -> bool {
    if has_id(pre, id) {
        &&& post.len() == pre.len()
        &&& forall|i: int| 0 <= i < pre.len() && pre[i].id != id ==> post[i] == #[trigger] pre[i]
        &&& forall|i: int|
            0 <= i < pre.len() && (#[trigger] pre[i].id) == id ==> post[i] == (PeerView {
                id,
                has_key_package: pre[i].gid is None,
                gid: pre[i].gid,
            })
    } else {
        post =~= pre.push(PeerView { id, has_key_package: true, gid: None })
    }
}

/// How a group installation relates the new view to the old one: the
/// identified record carries the group and no key package; every other
/// record is untouched.
pub open spec fn group_installed(
    pre: Seq<PeerView>,
    post: Seq<PeerView>,
    id: Seq<u8>,
    gid: Seq<u8>,
) -> bool {
    if has_id(pre, id) {
        &&& post.len() == pre.len()
        &&& forall|i: int| 0 <= i < pre.len() && pre[i].id != id ==> post[i] == #[trigger] pre[i]
        &&& forall|i: int|
            0 <= i < pre.len() && (#[trigger] pre[i].id) == id ==> post[i] == (PeerView {
                id,
                has_key_package: false,
                gid: Some(gid),
            })
    } else {
        post =~= pre.push(PeerView { id, has_key_package: false, gid: Some(gid) })
    }
}

/// Updating one record in place preserves well-formedness when the new
/// record keeps the identifier, is itself well formed, and carries either
/// its old group identifier or one no other record holds.
pub proof fn lemma_update_keeps_wf(pre: Seq<PeerView>, post: Seq<PeerView>, i: int)
    requires
        dir_wf(pre),
        0 <= i < pre.len(),
        post == pre.update(i, post[i]),
        post.len() == pre.len(),
        post[i].id == pre[i].id,
        record_ok(post[i]),
        post[i].gid is None || post[i].gid == pre[i].gid || (forall|j: int|
            0 <= j < pre.len() && j != i ==> pre[j].gid != post[i].gid),
    ensures
        dir_wf(post),
{
    assert(forall|j: int| 0 <= j < post.len() && j != i ==> post[j] == pre[j]);
    assert forall|a: int, b: int|
        #![trigger post[a].gid, post[b].gid]
        0 <= a < b < post.len() && post[a].gid is Some implies post[a].gid != post[b].gid by {
        if a != i && b != i {
            assert(post[a] == pre[a] && post[b] == pre[b]);
        }
    }
}

} // verus!
