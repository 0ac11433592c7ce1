use hkdf::Hkdf;
use sha2::Sha256;
use whispernet::ratchet::{RatchetState, RATCHET_INFO};

fn expected_okm(root: &[u8; 32], dh: &[u8; 32]) -> [u8; 96] {
    let hk = Hkdf::<Sha256>::new(Some(root), dh);
    let mut okm = [0u8; 96];
    hk.expand(b"WhisperNet_Ratchet", &mut okm).unwrap();
    okm
}

#[test]
fn info_string_is_the_protocol_label() {
    assert_eq!(&RATCHET_INFO, b"WhisperNet_Ratchet");
}

#[test]
fn step_splits_hkdf_output() {
    let root = [0x5Au8; 32];
    let dh = [0x17u8; 32];
    let mut state = RatchetState { root_key: root, send_chain_key: [1; 32], receive_chain_key: [2; 32] };
    state.step_ratchet(dh);
    let okm = expected_okm(&root, &dh);
    assert_eq!(&state.root_key[..], &okm[0..32]);
    assert_eq!(&state.send_chain_key[..], &okm[32..64]);
    assert_eq!(&state.receive_chain_key[..], &okm[64..96]);
    assert_ne!(state.root_key, root);
}

#[test]
fn step_ignores_old_chain_keys() {
    let dh = [0x33u8; 32];
    let mut a = RatchetState { root_key: [4; 32], send_chain_key: [1; 32], receive_chain_key: [2; 32] };
    let mut b = RatchetState { root_key: [4; 32], send_chain_key: [8; 32], receive_chain_key: [9; 32] };
    a.step_ratchet(dh);
    b.step_ratchet(dh);
    assert_eq!(a.root_key, b.root_key);
    assert_eq!(a.send_chain_key, b.send_chain_key);
    assert_eq!(a.receive_chain_key, b.receive_chain_key);
}

#[test]
fn successive_steps_chain_through_the_root_key() {
    let dh1 = [0x01u8; 32];
    let dh2 = [0x02u8; 32];
    let mut state = RatchetState { root_key: [0; 32], send_chain_key: [0; 32], receive_chain_key: [0; 32] };
    state.step_ratchet(dh1);
    let first_root = state.root_key;
    state.step_ratchet(dh2);
    let okm = expected_okm(&first_root, &dh2);
    assert_eq!(&state.root_key[..], &okm[0..32]);
}

#[test]
fn absorb_key_material_splits_in_order() {
    let mut okm = [0u8; 96];
    for (i, b) in okm.iter_mut().enumerate() {
        *b = i as u8;
    }
    let mut state = RatchetState { root_key: [0; 32], send_chain_key: [0; 32], receive_chain_key: [0; 32] };
    state.absorb_key_material(&okm);
    assert_eq!(state.root_key[0], 0);
    assert_eq!(state.send_chain_key[0], 32);
    assert_eq!(state.receive_chain_key[31], 95);
}
