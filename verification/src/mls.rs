//! The facade over the MLS provider.
//!
//! Every call into the MLS implementation goes through a trusted wrapper
//! here. The MLS values themselves (provider, signer, credential, key
//! package, group) are opaque to the verified code, which only carries them
//! between calls; what each wrapper relies on is named in its doc comment.
//! The ciphersuite is fixed at MLS_128_DHKEMX25519_AES128GCM_SHA256_Ed25519
//! and the protocol version at MLS 1.0.

use vstd::prelude::*;
use crate::RelayError;
use openmls::group::{MlsGroupCreateConfig, MlsGroupJoinConfig, StagedWelcome};
use openmls::prelude::{
    BasicCredential, Ciphersuite, GroupId, MlsMessageBodyIn, MlsMessageIn, MlsMessageOut,
    ProcessMessageError, ProcessedMessageContent, ProtocolVersion, ValidationError,
};
use openmls::framing::errors::{MessageDecryptionError, SecretTreeError};
use openmls_traits::OpenMlsProvider;
use tls_codec::{Deserialize as TlsDeserialize, Serialize as TlsSerialize};

verus! {

#[verifier::external_type_specification]
#[verifier::external_body]
pub struct ExProvider(openmls_rust_crypto::OpenMlsRustCrypto);

#[verifier::external_type_specification]
#[verifier::external_body]
pub struct ExSignatureKeyPair(openmls_basic_credential::SignatureKeyPair);

#[verifier::external_type_specification]
#[verifier::external_body]
pub struct ExCredentialWithKey(openmls::credentials::CredentialWithKey);

#[verifier::external_type_specification]
#[verifier::external_body]
pub struct ExKeyPackage(openmls::key_packages::KeyPackage);

#[verifier::external_type_specification]
#[verifier::external_body]
pub struct ExMlsGroup(openmls::group::MlsGroup);

#[verifier::external_type_specification]
#[verifier::external_body]
pub struct ExStagedCommit(openmls::group::StagedCommit);

#[verifier::external_type_specification]
#[verifier::external_body]
pub struct ExProtocolMessage(openmls::framing::ProtocolMessage);

#[verifier::external_type_specification]
#[verifier::external_body]
pub struct ExRatchetTreeIn(openmls::treesync::RatchetTreeIn);

/// What processing an inbound group message produced.
pub enum MlsProcessed {
    /// An application message, decrypted.
    Application(Vec<u8>),
    /// A commit, staged and awaiting a merge.
    Commit(Box<openmls::group::StagedCommit>),
    /// A standalone proposal; two-party sessions ignore these.
    Proposal,
    /// An external join proposal; two-party sessions ignore these.
    ExternalJoin,
}

/// Relies on OpenMlsRustCrypto::default for a fresh provider with empty
/// storage.
#[verifier::external_body]
pub(crate) fn new_provider() -> openmls_rust_crypto::OpenMlsRustCrypto {
    openmls_rust_crypto::OpenMlsRustCrypto::default()
}

/// Relies on SignatureKeyPair::new to draw a fresh Ed25519 signature key
/// pair for the fixed ciphersuite.
#[verifier::external_body]
pub(crate) fn new_signer() -> (r: Result<openmls_basic_credential::SignatureKeyPair, RelayError>)
    ensures
        r matches Err(e) ==> e == RelayError::Crypto,
{
    openmls_basic_credential::SignatureKeyPair::new(
        Ciphersuite::MLS_128_DHKEMX25519_AES128GCM_SHA256_Ed25519.signature_algorithm(),
    ).map_err(|_| RelayError::Crypto)
}

/// Relies on SignatureKeyPair::store to persist the signer in the
/// provider's storage, where group operations expect it.
#[verifier::external_body]
pub(crate) fn store_signer(
    provider: &openmls_rust_crypto::OpenMlsRustCrypto,
    signer: &openmls_basic_credential::SignatureKeyPair,
) -> (r: Result<(), RelayError>)
    ensures
        r matches Err(e) ==> e == RelayError::Mls,
{
    signer.store(provider.storage()).map_err(|_| RelayError::Mls)
}

/// Relies on BasicCredential::new: the credential wraps exactly the identity
/// bytes, which `member_ids` later hands back.
#[verifier::external_body]
pub(crate) fn make_credential(
    id: &Vec<u8>,
    signer: &openmls_basic_credential::SignatureKeyPair,
) -> openmls::credentials::CredentialWithKey {
    openmls::credentials::CredentialWithKey {
        credential: BasicCredential::new(id.clone()).into(),
        signature_key: signer.public().into(),
    }
}

/// Relies on KeyPackage::builder().build and MlsMessageOut's TLS
/// serialization: the result is a fresh one-time key package, wire-encoded.
#[verifier::external_body]
pub(crate) fn fresh_key_package_msg(
    provider: &openmls_rust_crypto::OpenMlsRustCrypto,
    signer: &openmls_basic_credential::SignatureKeyPair,
    credential: &openmls::credentials::CredentialWithKey,
) -> (r: Result<Vec<u8>, RelayError>)
    ensures
        r matches Err(e) ==> (e == RelayError::Mls || e == RelayError::Serialization),
{
    let bundle = openmls::key_packages::KeyPackage::builder()
        .build(
            Ciphersuite::MLS_128_DHKEMX25519_AES128GCM_SHA256_Ed25519,
            provider,
            signer,
            credential.clone(),
        )
        .map_err(|_| RelayError::Mls)?;
    MlsMessageOut::from(bundle.key_package().clone())
        .tls_serialize_detached()
        .map_err(|_| RelayError::Serialization)
}

/// Relies on MlsMessageIn's TLS deserialization and KeyPackageIn::validate
/// against MLS 1.0: `Ok` only for a wire-encoded, valid key package.
#[verifier::external_body]
pub(crate) fn parse_validate_key_package(
    provider: &openmls_rust_crypto::OpenMlsRustCrypto,
    bytes: &Vec<u8>,
) -> (r: Result<openmls::key_packages::KeyPackage, RelayError>)
    ensures
        r matches Err(e) ==> (e == RelayError::Serialization || e == RelayError::Mls || e
            == RelayError::ProtocolViolation),
{
    let msg = MlsMessageIn::tls_deserialize(&mut bytes.as_slice())
        .map_err(|_| RelayError::Serialization)?;
    match msg.extract() {
        MlsMessageBodyIn::KeyPackage(kp) => kp
            .validate(provider.crypto(), ProtocolVersion::Mls10)
            .map_err(|_| RelayError::Mls),
        _ => Err(RelayError::ProtocolViolation),
    }
}

/// Relies on MlsGroup::new_with_group_id with the ratchet-tree extension
/// enabled: the created group carries exactly the given group identifier.
#[verifier::external_body]
pub(crate) fn create_group(
    provider: &openmls_rust_crypto::OpenMlsRustCrypto,
    signer: &openmls_basic_credential::SignatureKeyPair,
    credential: &openmls::credentials::CredentialWithKey,
    gid: &Vec<u8>,
) -> (r: Result<openmls::group::MlsGroup, RelayError>)
    ensures
        r matches Err(e) ==> e == RelayError::Mls,
{
    let config = MlsGroupCreateConfig::builder()
        .ciphersuite(Ciphersuite::MLS_128_DHKEMX25519_AES128GCM_SHA256_Ed25519)
        .use_ratchet_tree_extension(true)
        .build();
    openmls::group::MlsGroup::new_with_group_id(
        provider,
        signer,
        &config,
        GroupId::from_slice(gid.as_slice()),
        credential.clone(),
    ).map_err(|_| RelayError::Mls)
}

/// Relies on MlsGroup::add_members: on success the group has a pending
/// commit, and the returned triple holds the wire-encoded commit, the
/// wire-encoded `Welcome` for the added member, and the wire-encoded
/// optional `GroupInfo`.
#[verifier::external_body]
pub(crate) fn add_member(
    provider: &openmls_rust_crypto::OpenMlsRustCrypto,
    signer: &openmls_basic_credential::SignatureKeyPair,
    group: &mut openmls::group::MlsGroup,
    kp: &openmls::key_packages::KeyPackage,
) -> (r: Result<(Vec<u8>, Vec<u8>, Vec<u8>), RelayError>)
    ensures
        r matches Err(e) ==> (e == RelayError::Mls || e == RelayError::Serialization),
{
    let (commit, welcome, group_info) = group
        .add_members(provider, signer, &[kp.clone()])
        .map_err(|_| RelayError::Mls)?;
    let commit_bytes = commit.tls_serialize_detached().map_err(|_| RelayError::Serialization)?;
    let welcome_bytes = welcome.tls_serialize_detached().map_err(|_| RelayError::Serialization)?;
    let info_bytes = group_info.tls_serialize_detached().map_err(|_| RelayError::Serialization)?;
    Ok((commit_bytes, welcome_bytes, info_bytes))
}

/// Relies on BasicCredential::new and the credential's TLS serialization:
/// the wire form of a basic credential wrapping the identity bytes.
#[verifier::external_body]
pub(crate) fn credential_tls_bytes(id: &Vec<u8>) -> (r: Result<Vec<u8>, RelayError>)
    ensures
        r matches Err(e) ==> e == RelayError::Serialization,
{
    let credential: openmls::credentials::Credential = BasicCredential::new(id.clone()).into();
    credential.tls_serialize_detached().map_err(|_| RelayError::Serialization)
}

/// Relies on SignatureKeyPair::public: the signer's public key bytes.
#[verifier::external_body]
pub(crate) fn signer_public_bytes(
    signer: &openmls_basic_credential::SignatureKeyPair,
) -> Vec<u8> {
    signer.public().to_vec()
}

/// Relies on KeyPackage::builder().build, the key package's TLS
/// serialization and KeyPackage::hash_ref: a fresh key package's raw wire
/// form and its hash.
#[verifier::external_body]
pub(crate) fn fresh_key_package_with_hash(
    provider: &openmls_rust_crypto::OpenMlsRustCrypto,
    signer: &openmls_basic_credential::SignatureKeyPair,
    credential: &openmls::credentials::CredentialWithKey,
) -> (r: Result<(Vec<u8>, Vec<u8>), RelayError>)
    ensures
        r matches Err(e) ==> (e == RelayError::Mls || e == RelayError::Serialization),
{
    let bundle = openmls::key_packages::KeyPackage::builder()
        .build(
            Ciphersuite::MLS_128_DHKEMX25519_AES128GCM_SHA256_Ed25519,
            provider,
            signer,
            credential.clone(),
        )
        .map_err(|_| RelayError::Mls)?;
    let kp_bytes = bundle.key_package().tls_serialize_detached().map_err(
        |_| RelayError::Serialization,
    )?;
    let hash = bundle.key_package().hash_ref(provider.crypto()).map_err(|_| RelayError::Mls)?;
    Ok((kp_bytes, hash.as_slice().to_vec()))
}

/// Relies on KeyPackageIn's TLS deserialization and its validation against
/// MLS 1.0: `Ok` only for a raw wire-encoded, valid key package.
#[verifier::external_body]
pub(crate) fn parse_validate_raw_key_package(
    provider: &openmls_rust_crypto::OpenMlsRustCrypto,
    bytes: &Vec<u8>,
) -> (r: Result<openmls::key_packages::KeyPackage, RelayError>)
    ensures
        r matches Err(e) ==> (e == RelayError::Serialization || e == RelayError::Mls),
{
    let kp_in = openmls::key_packages::KeyPackageIn::tls_deserialize(&mut bytes.as_slice())
        .map_err(|_| RelayError::Serialization)?;
    kp_in.validate(provider.crypto(), ProtocolVersion::Mls10).map_err(|_| RelayError::Mls)
}

/// Relies on MlsGroup::merge_pending_commit: the commit produced by
/// `add_member` becomes the group's current epoch.
#[verifier::external_body]
pub(crate) fn merge_pending(
    provider: &openmls_rust_crypto::OpenMlsRustCrypto,
    group: &mut openmls::group::MlsGroup,
) -> (r: Result<(), RelayError>)
    ensures
        r matches Err(e) ==> e == RelayError::Mls,
{
    group.merge_pending_commit(provider).map_err(|_| RelayError::Mls)
}

/// Relies on RatchetTreeIn's TLS deserialization.
#[verifier::external_body]
pub(crate) fn parse_ratchet_tree(
    bytes: &Vec<u8>,
) -> (r: Result<openmls::treesync::RatchetTreeIn, RelayError>)
    ensures
        r matches Err(e) ==> e == RelayError::Serialization,
{
    openmls::treesync::RatchetTreeIn::tls_deserialize(&mut bytes.as_slice())
        .map_err(|_| RelayError::Serialization)
}

/// Relies on MlsMessageIn's TLS deserialization, StagedWelcome::
/// new_from_welcome and into_group: `Ok` holds the joined group and its raw
/// group identifier.
#[verifier::external_body]
pub(crate) fn join_from_welcome(
    provider: &openmls_rust_crypto::OpenMlsRustCrypto,
    welcome_bytes: &Vec<u8>,
    tree: Option<openmls::treesync::RatchetTreeIn>,
) -> (r: Result<(openmls::group::MlsGroup, Vec<u8>), RelayError>)
    ensures
        r matches Err(e) ==> (e == RelayError::Serialization || e == RelayError::ProtocolViolation
            || e == RelayError::Mls),
{
    let msg = MlsMessageIn::tls_deserialize(&mut welcome_bytes.as_slice())
        .map_err(|_| RelayError::Serialization)?;
    let welcome = match msg.extract() {
        MlsMessageBodyIn::Welcome(w) => w,
        _ => return Err(RelayError::ProtocolViolation),
    };
    let config = MlsGroupJoinConfig::builder().build();
    let group = StagedWelcome::new_from_welcome(provider, &config, welcome, tree)
        .map_err(|_| RelayError::Mls)?
        .into_group(provider)
        .map_err(|_| RelayError::Mls)?;
    let gid = group.group_id().as_slice().to_vec();
    Ok((group, gid))
}

/// Relies on MlsGroup::members: one entry for each member, holding the
/// serialized content of that member's credential (the identity bytes a
/// basic credential was built from).
#[verifier::external_body]
pub(crate) fn member_ids(group: &openmls::group::MlsGroup) -> Vec<Vec<u8>> {
    group.members().map(|m| m.credential.serialized_content().to_vec()).collect()
}

/// Relies on MlsGroup::create_message: the result is the wire-encoded MLS
/// private message carrying the plaintext for the current epoch.
#[verifier::external_body]
pub(crate) fn create_app_message(
    provider: &openmls_rust_crypto::OpenMlsRustCrypto,
    signer: &openmls_basic_credential::SignatureKeyPair,
    group: &mut openmls::group::MlsGroup,
    plaintext: &Vec<u8>,
) -> (r: Result<Vec<u8>, RelayError>)
    ensures
        r matches Err(e) ==> (e == RelayError::Mls || e == RelayError::Serialization),
{
    let msg = group
        .create_message(provider, signer, plaintext.as_slice())
        .map_err(|_| RelayError::Mls)?;
    msg.tls_serialize_detached().map_err(|_| RelayError::Serialization)
}

/// Relies on MlsMessageIn's TLS deserialization: `Ok` only for a wire
/// message whose body is a private or a public message.
#[verifier::external_body]
pub(crate) fn parse_protocol_message(
    bytes: &Vec<u8>,
) -> (r: Result<openmls::framing::ProtocolMessage, RelayError>)
    ensures
        r matches Err(e) ==> (e == RelayError::Serialization || e == RelayError::ProtocolViolation),
{
    let msg = MlsMessageIn::tls_deserialize(&mut bytes.as_slice())
        .map_err(|_| RelayError::Serialization)?;
    match msg.extract() {
        MlsMessageBodyIn::PrivateMessage(m) => Ok(m.into()),
        MlsMessageBodyIn::PublicMessage(m) => Ok(m.into()),
        _ => Err(RelayError::ProtocolViolation),
    }
}

/// Relies on MlsGroup::process_message. A failure to derive decryption
/// secrets for the sender's own ratchet marks the broker's echo of our own
/// publish and is reported as `OwnMessageEcho`.
#[verifier::external_body]
pub(crate) fn process_message(
    provider: &openmls_rust_crypto::OpenMlsRustCrypto,
    group: &mut openmls::group::MlsGroup,
    message: openmls::framing::ProtocolMessage,
) -> (r: Result<MlsProcessed, RelayError>)
    ensures
        r matches Err(e) ==> (e == RelayError::Mls || e == RelayError::OwnMessageEcho),
{
    let processed = group.process_message(provider, message).map_err(|e| match e {
        ProcessMessageError::ValidationError(ValidationError::UnableToDecrypt(
            MessageDecryptionError::SecretTreeError(SecretTreeError::RatchetTypeError),
        )) => RelayError::OwnMessageEcho,
        _ => RelayError::Mls,
    })?;
    Ok(match processed.into_content() {
        ProcessedMessageContent::ApplicationMessage(m) => MlsProcessed::Application(m.into_bytes()),
        ProcessedMessageContent::StagedCommitMessage(c) => MlsProcessed::Commit(c),
        ProcessedMessageContent::ProposalMessage(_) => MlsProcessed::Proposal,
        ProcessedMessageContent::ExternalJoinProposalMessage(_) => MlsProcessed::ExternalJoin,
    })
}

/// Relies on MlsGroup::merge_staged_commit: the staged commit becomes the
/// group's current epoch.
#[verifier::external_body]
pub(crate) fn merge_staged_commit(
    provider: &openmls_rust_crypto::OpenMlsRustCrypto,
    group: &mut openmls::group::MlsGroup,
    staged: Box<openmls::group::StagedCommit>,
) -> (r: Result<(), RelayError>)
    ensures
        r matches Err(e) ==> e == RelayError::Mls,
{
    group.merge_staged_commit(provider, *staged).map_err(|_| RelayError::Mls)
}

/// Relies on MlsGroup::export_ratchet_tree and its TLS serialization.
#[verifier::external_body]
pub(crate) fn export_ratchet_tree_bytes(
    group: &openmls::group::MlsGroup,
) -> (r: Result<Vec<u8>, RelayError>)
    ensures
        r matches Err(e) ==> e == RelayError::Serialization,
{
    group.export_ratchet_tree().tls_serialize_detached().map_err(|_| RelayError::Serialization)
}

} // verus!
