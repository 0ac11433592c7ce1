//! What the listener does with the bytes a peer sends: a handshake whose
//! signature verifies under its own identity key admits the peer, any
//! other handshake is dropped, and an encrypted message is handed on.
use crate::handshake::{lemma_handshake_view_wf, HandshakeMessage};
use crate::message::{lemma_payload_roundtrip, parse_payload, PayloadView, WhisperPayload};
use crate::primitives::ed25519_verifies;
use vstd::prelude::*;

verus! {

/// The listener's decision on one received payload.
pub enum InboundAction {
    /// A verified handshake: record the peer's identity key.
    AcceptPeer { identity_key: [u8; 32] },
    /// A handshake whose signature does not verify: drop it.
    RejectSignature,
    /// An encrypted message, to be decrypted by the session it belongs to.
    Encrypted { sender_identity: [u8; 32], ciphertext: Vec<u8> },
    /// Bytes that hold no payload.
    Undecodable,
}

impl InboundAction {
    /// Whether this is the decision owed to the received bytes `data`.
    pub open spec fn decides(&self, data: Seq<u8>) -> bool {
        match parse_payload(data) {
            None => *self is Undecodable,
            Some((PayloadView::Handshake(h), _)) => if ed25519_verifies(
                h.identity_key,
                h.ephemeral_key,
                h.signed_prekey_sig,
            ) {
                *self matches InboundAction::AcceptPeer { identity_key } && identity_key@
                    == h.identity_key
            } else {
                *self is RejectSignature
            },
            Some((PayloadView::Message { sender_identity: s, ciphertext: c }, _)) => {
                *self matches InboundAction::Encrypted { sender_identity, ciphertext }
                    && sender_identity@ == s && ciphertext@ == c
            },
        }
    }
}

/// A handshake whose signature verifies under its own identity key, once
/// serialized and received, whatever follows it, admits the peer with that
/// identity key. With `HandshakeMessage::new`, whose messages always
/// verify, this is the promise that a handshake sent by `/connect` is
/// accepted by the listener.
pub proof fn law_signed_handshake_is_accepted(
    m: &HandshakeMessage,
    rest: Seq<u8>,
    action: InboundAction,
)
    requires
        ed25519_verifies(m.identity_key@, m.ephemeral_key@, m.signed_prekey_sig@),
        action.decides(PayloadView::Handshake(m@).encoding() + rest),
    ensures
        action matches InboundAction::AcceptPeer { identity_key } && identity_key == m.identity_key,
{
    lemma_handshake_view_wf(m);
    lemma_payload_roundtrip(PayloadView::Handshake(m@), rest);
    if let InboundAction::AcceptPeer { identity_key } = action {
        assert(identity_key@ =~= m.identity_key@);
    }
}

/// Decides what to do with the bytes `data` received from a peer.
pub fn classify_inbound(data: &[u8]) -> (action: InboundAction)
    ensures
        action.decides(data@),
{
    match WhisperPayload::deserialize(data) {
        None => InboundAction::Undecodable,
        Some(WhisperPayload::Handshake(msg)) => {
            if msg.verify_signature(&msg.identity_key) {
                InboundAction::AcceptPeer { identity_key: msg.identity_key }
            } else {
                InboundAction::RejectSignature
            }
        },
        Some(WhisperPayload::Message { sender_identity, ciphertext }) => {
            InboundAction::Encrypted { sender_identity, ciphertext }
        },
    }
}

} // verus!
