//! The embeddable MLS client surface.
//!
//! `RelayMlsClient` packages the protocol's MLS operations for a host
//! program that brings its own transport: key-package publication bytes,
//! group creation, joins from welcomes, and per-group encryption and
//! decryption. Groups are indexed by their hex-rendered identifier. The
//! free functions and `OpenMlsGroup` are an older, self-contained surface
//! kept for embedders that manage groups one by one.

use vstd::prelude::*;
use crate::bytes::bytes_eq;
use crate::client::{ids_contain, ids_distinct, kp_publication_dec, kp_publication_enc};
use crate::hexcode::{hex_enc, to_hex};
use crate::mls;
use crate::RelayError;

verus! {

/// The errors the embeddable surface reports.
#[derive(Clone, Copy, Debug, PartialEq, Eq, Structural)]
pub enum OpenMlsError {
    /// The MLS provider reported an error.
    MlsError,
    /// A wire encoding could not be produced or understood.
    SerializationError,
    /// An input had an unexpected shape.
    InvalidInput,
    /// No group is stored under the given identifier.
    GroupNotFound,
}

/// Maps a library error onto the embeddable surface's kinds.
pub fn to_facade_error(e: RelayError) -> (r: OpenMlsError)
    ensures
        r == facade_error_of(e),
{
    match e {
        RelayError::Serialization => OpenMlsError::SerializationError,
        RelayError::ProtocolViolation => OpenMlsError::InvalidInput,
        _ => OpenMlsError::MlsError,
    }
}

/// The facade kind each library error maps to.
pub open spec fn facade_error_of(e: RelayError) -> OpenMlsError {
    match e {
        RelayError::Serialization => OpenMlsError::SerializationError,
        RelayError::ProtocolViolation => OpenMlsError::InvalidInput,
        _ => OpenMlsError::MlsError,
    }
}

/// A client identity: the identifier, the wire-encoded credential and the
/// signature public key.
pub struct ClientIdentity {
    /// The client's identifier bytes.
    pub client_id: Vec<u8>,
    /// The TLS-encoded basic credential wrapping the identifier.
    pub credential_bytes: Vec<u8>,
    /// The signature public key.
    pub signature_public_key: Vec<u8>,
}

/// A freshly built key package: its raw wire form and its hash.
pub struct KeyPackageBundle {
    /// The TLS-encoded key package.
    pub key_package_bytes: Vec<u8>,
    /// The key package's hash reference.
    pub key_package_hash: Vec<u8>,
}

/// What adding a member produced: the welcome for the new member and the
/// commit for the existing ones.
pub struct AddMemberResult {
    /// The wire-encoded welcome.
    pub welcome_bytes: Vec<u8>,
    /// The wire-encoded commit.
    pub commit_bytes: Vec<u8>,
}

/// A decrypted application message.
pub struct DecryptedMessage {
    /// The plaintext.
    pub plaintext: Vec<u8>,
    /// The sender's identifier; this surface cannot identify the sender
    /// and reports `unknown` (in a two-party group the other member is the
    /// only candidate).
    pub sender_client_id: Vec<u8>,
}

/// The placeholder sender of a decrypted message.
pub open spec fn unknown_sender() -> Seq<u8> {
    seq![117u8, 110u8, 107u8, 110u8, 111u8, 119u8, 110u8]
}

fn unknown_sender_vec() -> (r: Vec<u8>)
    ensures
        r@ == unknown_sender(),
{
    let mut v: Vec<u8> = Vec::new();
    v.push(117);
    v.push(110);
    v.push(107);
    v.push(110);
    v.push(111);
    v.push(119);
    v.push(110);
    proof {
        assert(v@ =~= unknown_sender());
    }
    v
}

/// What joining from a welcome produced: the hex-rendered group identifier.
pub struct JoinGroupResult {
    /// The group identifier, hex-rendered.
    pub group_id: Vec<u8>,
}

/// One stored group, keyed by its hex-rendered identifier.
pub struct FacadeGroup {
    /// The hex-rendered group identifier.
    pub key: Vec<u8>,
    /// The group itself, opaque to the verified code.
    pub mls: openmls::group::MlsGroup,
}

/// The keys of a group list, viewed.
pub open spec fn group_keys(s: Seq<FacadeGroup>) -> Seq<Seq<u8>> {
    s.map_values(|g: FacadeGroup| g.key@)
}

/// The embeddable client: identity material and the groups it is a member
/// of.
pub struct RelayMlsClient {
    /// This client's identifier bytes.
    pub client_id: Vec<u8>,
    /// The groups, keyed by hex-rendered identifier.
    pub groups: Vec<FacadeGroup>,
    /// The MLS provider; opaque to the verified code.
    pub provider: openmls_rust_crypto::OpenMlsRustCrypto,
    /// The signature key pair; opaque to the verified code.
    pub signer: openmls_basic_credential::SignatureKeyPair,
    /// The credential binding the identifier to the signature key.
    pub credential: openmls::credentials::CredentialWithKey,
}

impl RelayMlsClient {
    /// The stored group keys, viewed.
    pub open spec fn keys(&self) -> Seq<Seq<u8>> {
        group_keys(self.groups@)
    }

    /// The client's invariant: distinct group keys.
    pub open spec fn wf(&self) -> bool {
        ids_distinct(self.keys())
    }

    /// Builds a client under the given identifier: a fresh signature key
    /// pair, stored with the provider, and a credential wrapping the
    /// identifier.
    pub fn new(client_id: Vec<u8>) -> (r: Result<RelayMlsClient, OpenMlsError>)
        ensures
            r matches Ok(c) ==> c.wf() && c.client_id@ == client_id@ && c.keys() =~= Seq::<
                Seq<u8>,
            >::empty(),
    {
        let provider = mls::new_provider();
        let signer = match mls::new_signer() {
            Ok(s) => s,
            Err(e) => {
                return Err(to_facade_error(e));
            },
        };
        match mls::store_signer(&provider, &signer) {
            Ok(u) => u,
            Err(e) => {
                return Err(to_facade_error(e));
            },
        };
        let credential = mls::make_credential(&client_id, &signer);
        Ok(RelayMlsClient { client_id, groups: Vec::new(), provider, signer, credential })
    }

    /// This client's identifier.
    pub fn client_id(&self) -> (r: Vec<u8>)
        ensures
            r@ == self.client_id@,
    {
        self.client_id.clone()
    }

    /// A fresh key package in the protocol's publication form: the
    /// wire-encoded message wrapped in a one-element array.
    pub fn create_key_package(&self) -> (r: Result<Vec<u8>, OpenMlsError>)
        ensures
            r matches Ok(v) ==> exists|kp: Seq<u8>| v@ == kp_publication_enc(kp),
    {
        let kp_bytes = match mls::fresh_key_package_msg(&self.provider, &self.signer,
            &self.credential) {
            Ok(b) => b,
            Err(e) => {
                return Err(to_facade_error(e));
            },
        };
        match crate::client::encode_kp_publication(&kp_bytes) {
            Some(v) => Ok(v),
            None => Err(OpenMlsError::SerializationError),
        }
    }

    /// The position of the group stored under the key.
    fn lookup(&self, key: &Vec<u8>) -> (r: Option<usize>)
        ensures
            match r {
                Some(i) => i < self.keys().len() && self.keys()[i as int] == key@,
                None => !ids_contain(self.keys(), key@),
            },
    {
        let mut i: usize = 0;
        while i < self.groups.len()
            invariant
                i <= self.keys().len(),
                self.keys().len() == self.groups@.len(),
                forall|j: int| 0 <= j < i ==> self.keys()[j] != key@,
            decreases self.keys().len() - i,
        {
            if bytes_eq(&self.groups[i].key, key) {
                return Some(i);
            }
            i = i + 1;
        }
        None
    }

    /// Creates a new group under a fresh random sixteen-byte identifier
    /// and returns the identifier, hex-rendered.
    pub fn create_group(&mut self) -> (r: Result<Vec<u8>, OpenMlsError>)
        requires
            old(self).wf(),
        ensures
            final(self).wf(),
            final(self).client_id@ == old(self).client_id@,
            r matches Ok(h) ==> (exists|raw: Seq<u8>| raw.len() == 16 && h@ == hex_enc(raw))
                && final(self).keys() =~= old(self).keys().push(h@),
            r is Err ==> final(self).keys() == old(self).keys(),
    {
        let gid = crate::cryptobox::random_bytes_16();
        let hex = to_hex(&gid);
        match self.lookup(&hex) {
            Some(u) => {
                return Err(OpenMlsError::MlsError);
            },
            None => {},
        };
        let group = match mls::create_group(&self.provider, &self.signer, &self.credential,
            &gid) {
            Ok(g) => g,
            Err(e) => {
                return Err(to_facade_error(e));
            },
        };
        let ghost pre = self.keys();
        self.groups.push(FacadeGroup { key: hex.clone(), mls: group });
        proof {
            assert(self.keys() =~= pre.push(hex@));
            assert forall|a: int, b: int|
                0 <= a < b < self.keys().len() implies self.keys()[a] != self.keys()[b] by {
                if b == pre.len() {
                    assert(self.keys()[a] == pre[a]);
                    if pre[a] == self.keys()[b] {
                        assert(ids_contain(pre, hex@));
                    }
                } else {
                    assert(self.keys()[a] == pre[a] && self.keys()[b] == pre[b]);
                }
            }
        }
        Ok(hex)
    }

    /// Adds a member to the group from a key package in publication form,
    /// then merges the pending commit.
    pub fn add_member(&mut self, group_id: &Vec<u8>, key_package_bytes: &Vec<u8>) -> (r: Result<
        AddMemberResult,
        OpenMlsError,
    >)
        requires
            old(self).wf(),
            key_package_bytes@.len() <= usize::MAX - 9,
        ensures
            final(self).wf(),
            final(self).client_id@ == old(self).client_id@,
            final(self).keys() == old(self).keys(),
            kp_publication_dec(key_package_bytes@) is None ==> r == Err::<
                AddMemberResult,
                OpenMlsError,
            >(OpenMlsError::SerializationError),
            (kp_publication_dec(key_package_bytes@) is Some && !ids_contain(
                old(self).keys(),
                group_id@,
            )) ==> r == Err::<AddMemberResult, OpenMlsError>(OpenMlsError::GroupNotFound),
    {
        let kp_msg = match crate::client::decode_kp_publication(key_package_bytes) {
            Some(b) => b,
            None => {
                return Err(OpenMlsError::SerializationError);
            },
        };
        let idx = match self.lookup(group_id) {
            Some(i) => i,
            None => {
                return Err(OpenMlsError::GroupNotFound);
            },
        };
        let kp = match mls::parse_validate_key_package(&self.provider, &kp_msg) {
            Ok(k) => k,
            Err(e) => {
                return Err(to_facade_error(e));
            },
        };
        let ghost pre = self.keys();
        let mut entry = self.groups.remove(idx);
        let added = mls::add_member(&self.provider, &self.signer, &mut entry.mls, &kp);
        let (commit_bytes, welcome_bytes, _info) = match added {
            Ok(x) => x,
            Err(e) => {
                self.groups.insert(idx, entry);
                proof {
                    assert(self.keys() =~= pre);
                }
                return Err(to_facade_error(e));
            },
        };
        let merged = mls::merge_pending(&self.provider, &mut entry.mls);
        self.groups.insert(idx, entry);
        proof {
            assert(self.keys() =~= pre);
        }
        match merged {
            Ok(u) => Ok(AddMemberResult { welcome_bytes, commit_bytes }),
            Err(e) => Err(to_facade_error(e)),
        }
    }

    /// Joins a group from a wire-encoded welcome and stores it under its
    /// hex-rendered identifier.
    pub fn join_from_welcome(&mut self, welcome_bytes: &Vec<u8>) -> (r: Result<
        JoinGroupResult,
        OpenMlsError,
    >)
        requires
            old(self).wf(),
        ensures
            final(self).wf(),
            final(self).client_id@ == old(self).client_id@,
            r matches Ok(j) ==> (exists|raw: Seq<u8>| j.group_id@ == hex_enc(raw))
                && final(self).keys() =~= old(self).keys().push(j.group_id@),
            r is Err ==> final(self).keys() == old(self).keys(),
    {
        let joined = match mls::join_from_welcome(&self.provider, welcome_bytes, None) {
            Ok(x) => x,
            Err(e) => {
                return Err(to_facade_error(e));
            },
        };
        let (group, gid) = joined;
        if gid.len() > usize::MAX / 2 {
            return Err(OpenMlsError::InvalidInput);
        }
        let hex = to_hex(&gid);
        match self.lookup(&hex) {
            Some(u) => {
                return Err(OpenMlsError::MlsError);
            },
            None => {},
        };
        let ghost pre = self.keys();
        self.groups.push(FacadeGroup { key: hex.clone(), mls: group });
        proof {
            assert(self.keys() =~= pre.push(hex@));
            assert forall|a: int, b: int|
                0 <= a < b < self.keys().len() implies self.keys()[a] != self.keys()[b] by {
                if b == pre.len() {
                    assert(self.keys()[a] == pre[a]);
                    if pre[a] == self.keys()[b] {
                        assert(ids_contain(pre, hex@));
                    }
                } else {
                    assert(self.keys()[a] == pre[a] && self.keys()[b] == pre[b]);
                }
            }
        }
        Ok(JoinGroupResult { group_id: hex })
    }

    /// Encrypts an application message into the group.
    pub fn encrypt(&mut self, group_id: &Vec<u8>, plaintext: &Vec<u8>) -> (r: Result<
        Vec<u8>,
        OpenMlsError,
    >)
        requires
            old(self).wf(),
        ensures
            final(self).wf(),
            final(self).client_id@ == old(self).client_id@,
            final(self).keys() == old(self).keys(),
            !ids_contain(old(self).keys(), group_id@) ==> r == Err::<Vec<u8>, OpenMlsError>(
                OpenMlsError::GroupNotFound,
            ),
    {
        let idx = match self.lookup(group_id) {
            Some(i) => i,
            None => {
                return Err(OpenMlsError::GroupNotFound);
            },
        };
        let ghost pre = self.keys();
        let mut entry = self.groups.remove(idx);
        let encrypted = mls::create_app_message(&self.provider, &self.signer, &mut entry.mls,
            plaintext);
        self.groups.insert(idx, entry);
        proof {
            assert(self.keys() =~= pre);
        }
        match encrypted {
            Ok(ct) => Ok(ct),
            Err(e) => Err(to_facade_error(e)),
        }
    }

    /// Decrypts an inbound group message. A commit is merged and reported
    /// as an error, as are proposals: the caller asked for an application
    /// message.
    pub fn decrypt(&mut self, group_id: &Vec<u8>, ciphertext: &Vec<u8>) -> (r: Result<
        DecryptedMessage,
        OpenMlsError,
    >)
        requires
            old(self).wf(),
        ensures
            final(self).wf(),
            final(self).client_id@ == old(self).client_id@,
            final(self).keys() == old(self).keys(),
            !ids_contain(old(self).keys(), group_id@) ==> r == Err::<
                DecryptedMessage,
                OpenMlsError,
            >(OpenMlsError::GroupNotFound),
            r matches Ok(m) ==> m.sender_client_id@ == unknown_sender(),
    {
        let idx = match self.lookup(group_id) {
            Some(i) => i,
            None => {
                return Err(OpenMlsError::GroupNotFound);
            },
        };
        let msg = match mls::parse_protocol_message(ciphertext) {
            Ok(m) => m,
            Err(e) => {
                return Err(to_facade_error(e));
            },
        };
        let ghost pre = self.keys();
        let mut entry = self.groups.remove(idx);
        let processed = mls::process_message(&self.provider, &mut entry.mls, msg);
        match processed {
            Ok(mls::MlsProcessed::Application(plaintext)) => {
                self.groups.insert(idx, entry);
                proof {
                    assert(self.keys() =~= pre);
                }
                Ok(DecryptedMessage { plaintext, sender_client_id: unknown_sender_vec() })
            },
            Ok(mls::MlsProcessed::Commit(staged)) => {
                let merged = mls::merge_staged_commit(&self.provider, &mut entry.mls, staged);
                self.groups.insert(idx, entry);
                proof {
                    assert(self.keys() =~= pre);
                }
                match merged {
                    Ok(u) => Err(OpenMlsError::InvalidInput),
                    Err(e) => Err(to_facade_error(e)),
                }
            },
            Ok(mls::MlsProcessed::Proposal) => {
                self.groups.insert(idx, entry);
                proof {
                    assert(self.keys() =~= pre);
                }
                Err(OpenMlsError::InvalidInput)
            },
            Ok(mls::MlsProcessed::ExternalJoin) => {
                self.groups.insert(idx, entry);
                proof {
                    assert(self.keys() =~= pre);
                }
                Err(OpenMlsError::InvalidInput)
            },
            Err(e) => {
                self.groups.insert(idx, entry);
                proof {
                    assert(self.keys() =~= pre);
                }
                Err(to_facade_error(e))
            },
        }
    }

    /// The identifiers of the group's members: the credential contents of
    /// each member. Succeeds exactly when the group is stored.
    pub fn members(&self, group_id: &Vec<u8>) -> (r: Result<Vec<Vec<u8>>, OpenMlsError>)
        ensures
            r is Ok <==> ids_contain(self.keys(), group_id@),
            r is Err ==> r == Err::<Vec<Vec<u8>>, OpenMlsError>(OpenMlsError::GroupNotFound),
    {
        let idx = match self.lookup(group_id) {
            Some(i) => i,
            None => {
                return Err(OpenMlsError::GroupNotFound);
            },
        };
        proof {
            assert(ids_contain(self.keys(), group_id@));
        }
        Ok(mls::member_ids(&self.groups[idx].mls))
    }
}

/// Builds a client identity: a fresh signature key pair and the
/// wire-encoded credential wrapping the identifier.
pub fn generate_client_identity(client_id: Vec<u8>) -> (r: Result<ClientIdentity, OpenMlsError>)
    ensures
        r matches Ok(c) ==> c.client_id@ == client_id@,
{
    let signer = match mls::new_signer() {
        Ok(s) => s,
        Err(e) => {
            return Err(to_facade_error(e));
        },
    };
    let credential_bytes = match mls::credential_tls_bytes(&client_id) {
        Ok(b) => b,
        Err(e) => {
            return Err(to_facade_error(e));
        },
    };
    let signature_public_key = mls::signer_public_bytes(&signer);
    Ok(ClientIdentity { client_id, credential_bytes, signature_public_key })
}

/// Builds a one-off key package under a fresh provider and signer: its raw
/// wire form and its hash.
pub fn create_key_package(client_id: Vec<u8>) -> (r: Result<KeyPackageBundle, OpenMlsError>) {
    let provider = mls::new_provider();
    let signer = match mls::new_signer() {
        Ok(s) => s,
        Err(e) => {
            return Err(to_facade_error(e));
        },
    };
    let credential = mls::make_credential(&client_id, &signer);
    match mls::fresh_key_package_with_hash(&provider, &signer, &credential) {
        Ok((key_package_bytes, key_package_hash)) => Ok(
            KeyPackageBundle { key_package_bytes, key_package_hash },
        ),
        Err(e) => Err(to_facade_error(e)),
    }
}

/// A single self-contained group with its own provider and signer. The
/// identifier it was created or joined under is kept beside the group, so
/// `group_id` is tied to it.
pub struct OpenMlsGroup {
    /// The group itself, opaque to the verified code.
    pub mls: openmls::group::MlsGroup,
    /// The raw group identifier the group stands under.
    pub group_id: Vec<u8>,
    /// The MLS provider; opaque to the verified code.
    pub provider: openmls_rust_crypto::OpenMlsRustCrypto,
    /// The signature key pair; opaque to the verified code.
    pub signer: openmls_basic_credential::SignatureKeyPair,
}

impl OpenMlsGroup {
    /// The identifier is short enough to render as hex.
    pub open spec fn wf(&self) -> bool {
        self.group_id@.len() <= usize::MAX / 2
    }

    /// Creates a group for the given client, with a fresh provider and
    /// signer. An identifier that reads as lowercase hex is decoded first;
    /// any other identifier is taken as raw bytes.
    pub fn new(group_id: Vec<u8>, client_id: Vec<u8>) -> (r: Result<OpenMlsGroup, OpenMlsError>)
        requires
            group_id@.len() <= usize::MAX / 2,
        ensures
            r matches Ok(g) ==> g.wf() && ((exists|b: Seq<u8>|
                group_id@ == hex_enc(b) && g.group_id@ == b) || ((forall|b: Seq<u8>|
                group_id@ != hex_enc(b)) && g.group_id@ == group_id@)),
    {
        let gid_bytes = match crate::hexcode::from_hex(&group_id) {
            Some(b) => b,
            None => group_id,
        };
        let provider = mls::new_provider();
        let signer = match mls::new_signer() {
            Ok(s) => s,
            Err(e) => {
                return Err(to_facade_error(e));
            },
        };
        match mls::store_signer(&provider, &signer) {
            Ok(u) => u,
            Err(e) => {
                return Err(to_facade_error(e));
            },
        };
        let credential = mls::make_credential(&client_id, &signer);
        match mls::create_group(&provider, &signer, &credential, &gid_bytes) {
            Ok(g) => Ok(OpenMlsGroup { mls: g, group_id: gid_bytes, provider, signer }),
            Err(e) => Err(to_facade_error(e)),
        }
    }

    /// Joins a group from a wire-encoded welcome, with a fresh provider
    /// and signer; the joined group's identifier is kept.
    pub fn join_from_welcome(welcome_bytes: Vec<u8>, _client_id: Vec<u8>) -> (r: Result<
        OpenMlsGroup,
        OpenMlsError,
    >)
        ensures
            r matches Ok(g) ==> g.wf(),
    {
        let provider = mls::new_provider();
        let signer = match mls::new_signer() {
            Ok(s) => s,
            Err(e) => {
                return Err(to_facade_error(e));
            },
        };
        match mls::join_from_welcome(&provider, &welcome_bytes, None) {
            Ok((g, gid)) => {
                if gid.len() > usize::MAX / 2 {
                    return Err(OpenMlsError::InvalidInput);
                }
                Ok(OpenMlsGroup { mls: g, group_id: gid, provider, signer })
            },
            Err(e) => Err(to_facade_error(e)),
        }
    }

    /// Adds a member from a raw wire-encoded key package and merges the
    /// pending commit.
    pub fn add_member(&mut self, key_package_bytes: &Vec<u8>) -> (r: Result<
        AddMemberResult,
        OpenMlsError,
    >) {
        let kp = match mls::parse_validate_raw_key_package(&self.provider, key_package_bytes) {
            Ok(k) => k,
            Err(e) => {
                return Err(to_facade_error(e));
            },
        };
        let added = mls::add_member(&self.provider, &self.signer, &mut self.mls, &kp);
        let (commit_bytes, welcome_bytes, _info) = match added {
            Ok(x) => x,
            Err(e) => {
                return Err(to_facade_error(e));
            },
        };
        match mls::merge_pending(&self.provider, &mut self.mls) {
            Ok(u) => Ok(AddMemberResult { welcome_bytes, commit_bytes }),
            Err(e) => Err(to_facade_error(e)),
        }
    }

    /// Encrypts an application message into the group.
    pub fn encrypt(&mut self, plaintext: &Vec<u8>) -> (r: Result<Vec<u8>, OpenMlsError>) {
        match mls::create_app_message(&self.provider, &self.signer, &mut self.mls, plaintext) {
            Ok(m) => Ok(m),
            Err(e) => Err(to_facade_error(e)),
        }
    }

    /// Decrypts an inbound group message; commits and proposals are
    /// refused without being applied, as this standalone surface expects
    /// application traffic only.
    pub fn decrypt(&mut self, ciphertext: &Vec<u8>) -> (r: Result<DecryptedMessage, OpenMlsError>)
        ensures
            r matches Ok(m) ==> m.sender_client_id@ == unknown_sender(),
    {
        let msg = match mls::parse_protocol_message(ciphertext) {
            Ok(m) => m,
            Err(e) => {
                return Err(to_facade_error(e));
            },
        };
        match mls::process_message(&self.provider, &mut self.mls, msg) {
            Ok(mls::MlsProcessed::Application(plaintext)) => Ok(
                DecryptedMessage { plaintext, sender_client_id: unknown_sender_vec() },
            ),
            Ok(mls::MlsProcessed::Commit(_)) => Err(OpenMlsError::InvalidInput),
            Ok(mls::MlsProcessed::Proposal) => Err(OpenMlsError::InvalidInput),
            Ok(mls::MlsProcessed::ExternalJoin) => Err(OpenMlsError::InvalidInput),
            Err(e) => Err(to_facade_error(e)),
        }
    }

    /// The group's identifier, hex-rendered.
    pub fn group_id(&self) -> (r: Vec<u8>)
        requires
            self.wf(),
        ensures
            r@ == hex_enc(self.group_id@),
    {
        to_hex(&self.group_id)
    }

    /// The identifiers of the group's members.
    pub fn members(&self) -> (r: Vec<Vec<u8>>) {
        mls::member_ids(&self.mls)
    }
}

} // verus!
