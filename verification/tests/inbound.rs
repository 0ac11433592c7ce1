use ed25519_dalek::SigningKey;
use whispernet::handshake::HandshakeMessage;
use whispernet::inbound::{classify_inbound, InboundAction};
use whispernet::message::WhisperPayload;

#[test]
fn signed_handshake_admits_peer() {
    let sk = [0x61u8; 32];
    let eph = [0x62u8; 32];
    let msg = HandshakeMessage::new(&sk, &eph);
    let bytes = WhisperPayload::Handshake(msg).serialize();
    match classify_inbound(&bytes) {
        InboundAction::AcceptPeer { identity_key } => {
            assert_eq!(identity_key, SigningKey::from_bytes(&sk).verifying_key().to_bytes())
        }
        _ => panic!("a signed handshake was not accepted"),
    }
}

#[test]
fn forged_handshake_is_rejected() {
    let mut msg = HandshakeMessage::new(&[0x61u8; 32], &[0x62u8; 32]);
    msg.signed_prekey_sig[5] ^= 0x80;
    let bytes = WhisperPayload::Handshake(msg).serialize();
    assert!(matches!(classify_inbound(&bytes), InboundAction::RejectSignature));
}

#[test]
fn message_is_handed_on() {
    let bytes = WhisperPayload::Message { sender_identity: [8; 32], ciphertext: vec![4, 4] }.serialize();
    match classify_inbound(&bytes) {
        InboundAction::Encrypted { sender_identity, ciphertext } => {
            assert_eq!(sender_identity, [8; 32]);
            assert_eq!(ciphertext, vec![4, 4]);
        }
        _ => panic!("a message was not handed on"),
    }
}

#[test]
fn garbage_is_undecodable() {
    assert!(matches!(classify_inbound(&[9, 9, 9, 9, 9]), InboundAction::Undecodable));
    assert!(matches!(classify_inbound(&[]), InboundAction::Undecodable));
}
