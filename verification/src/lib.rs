//! Relay: a verified core for a peer-to-peer end-to-end encrypted chat client.
//!
//! Two peers who know only each other's identifier exchange MLS key packages
//! over a publish/subscribe broker, form a two-member MLS group, and chat over
//! it. The broker and the cryptographic primitives are outside collaborators;
//! the state machine, the wire formats and the addressing scheme are verified.

use vstd::prelude::*;

pub mod bytes;
pub mod cbor;
pub mod client;
pub mod cryptobox;
pub mod directory;
pub mod facade;
pub mod hexcode;
pub mod mls;
pub mod sealed;
pub mod sealed_client;
pub mod topics;

verus! {

/// The error kinds the library reports.
#[derive(Clone, Copy, Debug, PartialEq, Eq, Structural)]
pub enum RelayError {
    /// A wire encoding could not be produced or understood.
    Serialization,
    /// A cryptographic primitive failed.
    Crypto,
    /// The proof-of-work prefix of an envelope is not satisfied.
    PowInvalid,
    /// An envelope's encrypted payload is shorter than a nonce.
    ShortPayload,
    /// An ephemeral public key has the wrong length.
    InvalidKey,
    /// Authenticated decryption failed.
    DecryptFail,
    /// The MLS provider reported an error.
    Mls,
    /// No known peer matches the query.
    UnknownPeer,
    /// More than one known peer matches the query.
    AmbiguousPeer,
    /// No established session with the peer.
    NoSession,
    /// An inbound message had an unexpected shape.
    ProtocolViolation,
    /// The broker echoed one of our own publishes back to us.
    OwnMessageEcho,
}

} // verus!
