use sha3::{Digest, Sha3_256};
use whispernet::onion::{ascii_lowercase, encode_v3_onion};

fn reference_address(pk: &[u8; 32]) -> String {
    let mut h = Sha3_256::new();
    h.update(b".onion checksum");
    h.update(pk);
    h.update([3u8]);
    let checksum = h.finalize();
    let mut payload = Vec::new();
    payload.extend_from_slice(pk);
    payload.extend_from_slice(&checksum[..2]);
    payload.push(3);
    data_encoding::BASE32_NOPAD.encode(&payload).to_lowercase()
}

#[test]
fn address_matches_reference_construction() {
    for seed in [0u8, 1, 0x7F, 0xFF] {
        let pk = [seed; 32];
        assert_eq!(encode_v3_onion(&pk), reference_address(&pk));
    }
}

#[test]
fn address_shape() {
    let pk = [0xABu8; 32];
    let addr = encode_v3_onion(&pk);
    assert_eq!(addr.len(), 56);
    assert!(addr.ends_with('d'));
    assert!(addr.chars().all(|c| c.is_ascii_lowercase() || ('2'..='7').contains(&c)));
}

#[test]
fn known_address_of_zero_key() {
    let addr = encode_v3_onion(&[0u8; 32]);
    assert!(addr.starts_with("aaaaaaaaaaaaaaaaaaaaaaaaaaaaaaaaaaaaaaaaaaaaaaaaaaa"));
    assert_eq!(addr, reference_address(&[0u8; 32]));
}

#[test]
fn lowercase_leaves_non_letters() {
    assert_eq!(ascii_lowercase("AbZ2-7é"), "abz2-7é");
    assert_eq!(ascii_lowercase(""), "");
}

#[test]
fn address_decodes_to_key_checksum_and_version() {
    let pk: [u8; 32] = core::array::from_fn(|i| (i * 7 + 1) as u8);
    let addr = encode_v3_onion(&pk);
    let bytes = data_encoding::BASE32_NOPAD.decode(addr.to_uppercase().as_bytes()).unwrap();
    assert_eq!(bytes.len(), 35);
    assert_eq!(&bytes[..32], &pk);
    let mut h = Sha3_256::new();
    h.update(b".onion checksum");
    h.update(pk);
    h.update([3u8]);
    assert_eq!(&bytes[32..34], &h.finalize()[..2]);
    assert_eq!(bytes[34], 3);
}

#[test]
fn distinct_keys_give_distinct_addresses() {
    let a = [0x10u8; 32];
    let mut b = a;
    b[31] ^= 1;
    assert_ne!(encode_v3_onion(&a), encode_v3_onion(&b));
}

#[test]
fn all_ones_key_gives_run_of_sevens() {
    let addr = encode_v3_onion(&[0xFFu8; 32]);
    assert!(addr[..51].chars().all(|c| c == '7'));
    assert!(addr.ends_with('d'));
}
