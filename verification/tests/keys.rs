use ed25519_dalek::{Signature, SigningKey, Verifier};
use whispernet::handshake::HandshakeMessage;
use whispernet::keys::KeyBundle;

#[test]
fn bundle_from_secrets_derives_each_key() {
    let a = [1u8; 32];
    let b = [2u8; 32];
    let c = [3u8; 32];
    let bundle = KeyBundle::from_secrets(&a, &b, &c);
    let pk = |s: [u8; 32]| x25519_dalek::PublicKey::from(&x25519_dalek::StaticSecret::from(s)).to_bytes();
    assert_eq!(bundle.identity_key, pk(a));
    assert_eq!(bundle.signed_prekey, pk(b));
    assert_eq!(bundle.ephemeral_prekey, pk(c));
    assert_ne!(bundle.identity_key, a);
    let signing = SigningKey::from_bytes(&a);
    let sig = Signature::from_bytes(&bundle.signed_prekey_sig);
    assert!(signing.verifying_key().verify(&bundle.signed_prekey, &sig).is_ok());
}

#[test]
fn bundle_signature_checks_through_handshake() {
    let a = [0x21u8; 32];
    let bundle = KeyBundle::from_secrets(&a, &[0x22; 32], &[0x23; 32]);
    let vk = SigningKey::from_bytes(&a).verifying_key().to_bytes();
    let msg = HandshakeMessage {
        identity_key: bundle.identity_key,
        ephemeral_key: bundle.signed_prekey,
        signed_prekey_sig: bundle.signed_prekey_sig,
        ciphertext: vec![],
    };
    assert!(msg.verify_signature(&vk));
    let mut tampered = msg;
    tampered.ephemeral_key[0] ^= 1;
    assert!(!tampered.verify_signature(&vk));
}

#[test]
fn verify_signature_refuses_undecodable_key() {
    let msg = HandshakeMessage {
        identity_key: [0; 32],
        ephemeral_key: [0; 32],
        signed_prekey_sig: [0; 64],
        ciphertext: vec![],
    };
    let mut bad_key = [0xFFu8; 32];
    bad_key[31] = 0x7F;
    assert!(!msg.verify_signature(&bad_key));
}

#[test]
fn generate_gives_fresh_bundles() {
    let one = KeyBundle::generate();
    let two = KeyBundle::generate();
    assert_ne!(one.identity_key, two.identity_key);
    assert_ne!(one.signed_prekey, one.ephemeral_prekey);
}

#[test]
fn new_handshake_verifies_under_its_identity_key() {
    let signing = [0x44u8; 32];
    let ephemeral = x25519_dalek::PublicKey::from(&x25519_dalek::StaticSecret::from([0x55u8; 32])).to_bytes();
    let msg = HandshakeMessage::new(&signing, &ephemeral);
    assert_eq!(msg.identity_key, SigningKey::from_bytes(&signing).verifying_key().to_bytes());
    assert_eq!(msg.ephemeral_key, ephemeral);
    assert!(msg.ciphertext.is_empty());
    assert!(msg.verify_signature(&msg.identity_key));
    let other = SigningKey::from_bytes(&[0x45u8; 32]).verifying_key().to_bytes();
    assert!(!msg.verify_signature(&other));
}
