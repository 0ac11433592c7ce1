use whispernet::handshake::HandshakeMessage;
use whispernet::message::WhisperPayload;

fn sample_handshake() -> HandshakeMessage {
    let mut sig = [0u8; 64];
    for (i, b) in sig.iter_mut().enumerate() {
        *b = (i * 3) as u8;
    }
    HandshakeMessage {
        identity_key: [7u8; 32],
        ephemeral_key: [9u8; 32],
        signed_prekey_sig: sig,
        ciphertext: vec![1, 2, 3, 4, 5],
    }
}

fn same_handshake(a: &HandshakeMessage, b: &HandshakeMessage) -> bool {
    a.identity_key == b.identity_key
        && a.ephemeral_key == b.ephemeral_key
        && a.signed_prekey_sig == b.signed_prekey_sig
        && a.ciphertext == b.ciphertext
}

#[test]
fn handshake_encoding_layout() {
    let h = sample_handshake();
    let bytes = h.serialize();
    assert_eq!(bytes.len(), 32 + 32 + 64 + 8 + 5);
    assert_eq!(&bytes[0..32], &[7u8; 32]);
    assert_eq!(&bytes[32..64], &[9u8; 32]);
    assert_eq!(&bytes[64..128], &h.signed_prekey_sig[..]);
    assert_eq!(&bytes[128..136], &[5, 0, 0, 0, 0, 0, 0, 0]);
    assert_eq!(&bytes[136..], &[1, 2, 3, 4, 5]);
}

#[test]
fn handshake_encoding_matches_bincode() {
    let h = sample_handshake();
    let identity = x25519_dalek::PublicKey::from(h.identity_key);
    let ephemeral = x25519_dalek::PublicKey::from(h.ephemeral_key);
    let sig = ed25519_dalek::Signature::from_bytes(&h.signed_prekey_sig);
    let reference =
        bincode::serialize(&(identity, ephemeral, sig, h.ciphertext.clone())).unwrap();
    assert_eq!(h.serialize(), reference);
}

#[test]
fn handshake_roundtrip_with_trailing_bytes() {
    let h = sample_handshake();
    let mut bytes = h.serialize();
    bytes.extend_from_slice(&[0xAA, 0xBB]);
    let back = HandshakeMessage::deserialize(&bytes);
    assert!(same_handshake(&h, &back));
}

#[test]
fn handshake_rejects_truncated_input() {
    let h = sample_handshake();
    let bytes = h.serialize();
    for cut in [0usize, 10, 127, 128, 135, 136, bytes.len() - 1] {
        assert!(HandshakeMessage::try_deserialize(&bytes[..cut]).is_none(), "cut {}", cut);
    }
    assert!(HandshakeMessage::try_deserialize(&bytes).is_some());
}

#[test]
fn handshake_rejects_oversized_length_prefix() {
    let h = sample_handshake();
    let mut bytes = h.serialize();
    bytes[128..136].copy_from_slice(&u64::MAX.to_le_bytes());
    assert!(HandshakeMessage::try_deserialize(&bytes).is_none());
}

#[test]
fn payload_message_encoding_matches_bincode() {
    let p = WhisperPayload::Message { sender_identity: [0x11; 32], ciphertext: vec![9, 8, 7] };
    let reference = bincode::serialize(&(1u32, [0x11u8; 32], vec![9u8, 8, 7])).unwrap();
    assert_eq!(p.serialize(), reference);
    assert_eq!(&reference[0..4], &[1, 0, 0, 0]);
}

#[test]
fn payload_handshake_encoding_matches_bincode() {
    let h = sample_handshake();
    let identity = x25519_dalek::PublicKey::from(h.identity_key);
    let ephemeral = x25519_dalek::PublicKey::from(h.ephemeral_key);
    let sig = ed25519_dalek::Signature::from_bytes(&h.signed_prekey_sig);
    let reference =
        bincode::serialize(&(0u32, (identity, ephemeral, sig, h.ciphertext.clone()))).unwrap();
    let p = WhisperPayload::Handshake(h);
    assert_eq!(p.serialize(), reference);
}

#[test]
fn payload_roundtrip_both_variants() {
    let h = sample_handshake();
    let p = WhisperPayload::Handshake(sample_handshake());
    match WhisperPayload::deserialize(&p.serialize()) {
        Some(WhisperPayload::Handshake(back)) => assert!(same_handshake(&h, &back)),
        _ => panic!("handshake did not come back"),
    }
    let m = WhisperPayload::Message { sender_identity: [3; 32], ciphertext: vec![] };
    let mut bytes = m.serialize();
    assert_eq!(bytes.len(), 4 + 32 + 8);
    bytes.push(0xFF);
    match WhisperPayload::deserialize(&bytes) {
        Some(WhisperPayload::Message { sender_identity, ciphertext }) => {
            assert_eq!(sender_identity, [3; 32]);
            assert!(ciphertext.is_empty());
        }
        _ => panic!("message did not come back"),
    }
}

#[test]
fn payload_rejects_unknown_tag_and_short_input() {
    let m = WhisperPayload::Message { sender_identity: [3; 32], ciphertext: vec![1] };
    let mut bytes = m.serialize();
    bytes[0] = 2;
    assert!(WhisperPayload::deserialize(&bytes).is_none());
    assert!(WhisperPayload::deserialize(&[]).is_none());
    assert!(WhisperPayload::deserialize(&[1, 0, 0]).is_none());
    assert!(WhisperPayload::deserialize(&[1, 0, 0, 0, 5]).is_none());
    let good = m.serialize();
    assert!(WhisperPayload::deserialize(&good[..good.len() - 1]).is_none());
}

#[test]
fn payload_accepts_bincode_output() {
    let reference = bincode::serialize(&(1u32, [0x42u8; 32], vec![5u8; 40])).unwrap();
    match WhisperPayload::deserialize(&reference) {
        Some(WhisperPayload::Message { sender_identity, ciphertext }) => {
            assert_eq!(sender_identity, [0x42; 32]);
            assert_eq!(ciphertext, vec![5u8; 40]);
        }
        _ => panic!("bincode output was refused"),
    }
}
