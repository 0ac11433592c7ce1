//! Version 3 onion addresses: the service's 32-byte public key, two bytes of
//! a SHA3-256 checksum and the version byte, in lower-case base32.
use crate::base32::{
    base32_encoding, base32_group, base32_groups, base32_symbol, bytes_of_groups, is_base32_char,
    lemma_encoding_alphabet, lemma_group_bound, lemma_groups_decode, block_value, block_group,
};
use crate::primitives::{base32_nopad_encode, sha3_256, sha3_256_digest};
use vstd::prelude::*;

verus! {

/// The checksum's domain separator, ".onion checksum".
pub const ONION_CHECKSUM_PREFIX: [u8; 15] = [
    46, 111, 110, 105, 111, 110, 32, 99, 104, 101, 99, 107, 115, 117, 109,
];

/// The version byte of a version 3 address.
pub const ONION_VERSION: u8 = 3;

/// What the checksum is the digest of: the domain separator, the public key
/// and the version byte.
pub open spec fn checksum_input(pubkey: Seq<u8>) -> Seq<u8> {
    ONION_CHECKSUM_PREFIX@ + pubkey + seq![ONION_VERSION]
}

/// The 35 bytes an address encodes: the public key, the first two bytes of
/// the checksum and the version byte.
pub open spec fn address_payload(pubkey: Seq<u8>, checksum: Seq<u8>) -> Seq<u8> {
    pubkey + checksum.subrange(0, 2) + seq![ONION_VERSION]
}

/// The lower-case form of an ASCII letter; other characters stay.
pub open spec fn ascii_lower(c: char) -> char {
    if 'A' <= c && c <= 'Z' {
        ((c as int) + 32) as char
    } else {
        c
    }
}

/// The characters of `s`, each in its lower-case form.
pub open spec fn lowercase_chars(s: Seq<char>) -> Seq<char> {
    Seq::new(s.len(), |i: int| ascii_lower(s[i]))
}

/// The address of the service with public key `pubkey`.
pub open spec fn onion_address(pubkey: Seq<u8>) -> Seq<char> {
    lowercase_chars(
        base32_encoding(address_payload(pubkey, sha3_256_digest(checksum_input(pubkey))@)),
    )
}

/// A character of a lower-case base32 address: `a`..`z` and `2`..`7`.
pub open spec fn is_address_char(c: char) -> bool {
    ('a' <= c && c <= 'z') || ('2' <= c && c <= '7')
}

/// The five-bit group that a character of a lower-case address stands for.
pub open spec fn address_char_value(c: char) -> u64 {
    if 'a' <= c && c <= 'z' {
        (c as int - 97) as u64
    } else {
        (c as int - 24) as u64
    }
}

/// The bytes a lower-case base32 address decodes to.
pub open spec fn decode_address(address: Seq<char>) -> Seq<u8> {
    bytes_of_groups(Seq::new(address.len(), |i: int| address_char_value(address[i])))
}

/// A group survives being written as a lower-case address character.
proof fn lemma_address_char_value(g: u64)
    requires
        g < 32,
    ensures
        address_char_value(ascii_lower(base32_symbol(g))) == g,
{
}

/// An address decodes back to the 35 bytes it encodes: the public key, the
/// first two bytes of its checksum, and the version byte.
pub proof fn law_address_decodes(pubkey: Seq<u8>)
    requires
        pubkey.len() == 32,
    ensures
        ({
            let bytes = decode_address(onion_address(pubkey));
            let checksum = sha3_256_digest(checksum_input(pubkey))@;
            &&& bytes == address_payload(pubkey, checksum)
            &&& bytes.subrange(0, 32) == pubkey
            &&& bytes.subrange(32, 34) == checksum.subrange(0, 2)
            &&& bytes[34] == ONION_VERSION
        }),
{
    let checksum = sha3_256_digest(checksum_input(pubkey))@;
    let payload = address_payload(pubkey, checksum);
    let address = onion_address(pubkey);
    let groups = base32_groups(payload);
    let values = Seq::new(address.len(), |i: int| address_char_value(address[i]));
    assert forall|i: int| 0 <= i < values.len() implies values[i] == groups[i] by {
        lemma_group_bound(block_value(payload, i / 8), i % 8);
        lemma_address_char_value(base32_group(payload, i));
    }
    assert(values =~= groups);
    lemma_groups_decode(payload);
    assert(payload.subrange(0, 32) =~= pubkey);
    assert(payload.subrange(32, 34) =~= checksum.subrange(0, 2));
}

/// Distinct public keys never share an address.
pub proof fn law_distinct_keys_distinct_addresses(a: Seq<u8>, b: Seq<u8>)
    requires
        a.len() == 32,
        b.len() == 32,
        a != b,
    ensures
        onion_address(a) != onion_address(b),
{
    law_address_decodes(a);
    law_address_decodes(b);
}

/// Every address ends in `d`, the last five bits of the version byte.
pub proof fn law_address_ends_with_d(pubkey: Seq<u8>)
    requires
        pubkey.len() == 32,
    ensures
        onion_address(pubkey).len() == 56,
        onion_address(pubkey)[55] == 'd',
{
    let checksum = sha3_256_digest(checksum_input(pubkey))@;
    let payload = address_payload(pubkey, checksum);
    let v = block_value(payload, 6);
    assert(payload[34] == ONION_VERSION);
    let b0 = payload[30] as u64;
    let b1 = payload[31] as u64;
    let b2 = payload[32] as u64;
    let b3 = payload[33] as u64;
    assert(v == (b0 << 32u64) | (b1 << 24u64) | (b2 << 16u64) | (b3 << 8u64) | 3u64);
    assert(((b0 << 32u64) | (b1 << 24u64) | (b2 << 16u64) | (b3 << 8u64) | 3u64) & 31 == 3)
        by (bit_vector);
    assert(block_group(v, 7) == 3);
    assert(base32_group(payload, 55) == 3);
}

/// A key of 32 equal bytes `x`, each 0 or 255, shows in the first 51
/// characters of its address, the ones made of key bits alone: all `a` for
/// zeros, all `7` for ones.
pub proof fn law_uniform_key_address_run(x: u8)
    requires
        x == 0 || x == 255,
    ensures
        ({
            let address = onion_address(Seq::new(32, |i: int| x));
            forall|i: int| 0 <= i < 51 ==> #[trigger] address[i] == (if x == 0 {
                'a'
            } else {
                '7'
            })
        }),
{
    let pubkey = Seq::new(32, |i: int| x);
    let checksum = sha3_256_digest(checksum_input(pubkey))@;
    let payload = address_payload(pubkey, checksum);
    let address = onion_address(pubkey);
    let g: u64 = if x == 0 { 0 } else { 31 };
    let xv = x as u64;
    assert(((xv << 32u64) | (xv << 24u64) | (xv << 16u64) | (xv << 8u64) | xv) & 31 == g
        && ((((xv << 32u64) | (xv << 24u64) | (xv << 16u64) | (xv << 8u64) | xv) >> 5u64) & 31)
        == g && ((((xv << 32u64) | (xv << 24u64) | (xv << 16u64) | (xv << 8u64) | xv) >> 10u64)
        & 31) == g && ((((xv << 32u64) | (xv << 24u64) | (xv << 16u64) | (xv << 8u64) | xv)
        >> 15u64) & 31) == g && ((((xv << 32u64) | (xv << 24u64) | (xv << 16u64) | (xv << 8u64)
        | xv) >> 20u64) & 31) == g && ((((xv << 32u64) | (xv << 24u64) | (xv << 16u64) | (xv
        << 8u64) | xv) >> 25u64) & 31) == g && ((((xv << 32u64) | (xv << 24u64) | (xv << 16u64)
        | (xv << 8u64) | xv) >> 30u64) & 31) == g && ((((xv << 32u64) | (xv << 24u64) | (xv
        << 16u64) | (xv << 8u64) | xv) >> 35u64) & 31) == g) by (bit_vector)
        requires
            xv == 0 || xv == 255,
            g == (if xv == 0 { 0u64 } else { 31u64 }),
    ;
    assert forall|b2: u64, b3: u64|
        b2 < 256 && b3 < 256 implies #[trigger] (((xv << 32u64) | (xv << 24u64) | (b2 << 16u64) | (b3
            << 8u64) | 3u64) >> 35u64) & 31 == g && ((((xv << 32u64) | (xv << 24u64) | (b2
            << 16u64) | (b3 << 8u64) | 3u64) >> 30u64) & 31) == g && ((((xv << 32u64) | (xv
            << 24u64) | (b2 << 16u64) | (b3 << 8u64) | 3u64) >> 25u64) & 31) == g by {
        assert(b2 < 256 && b3 < 256 ==> (((xv << 32u64) | (xv << 24u64) | (b2 << 16u64) | (b3
            << 8u64) | 3u64) >> 35u64) & 31 == g && ((((xv << 32u64) | (xv << 24u64) | (b2
            << 16u64) | (b3 << 8u64) | 3u64) >> 30u64) & 31) == g && ((((xv << 32u64) | (xv
            << 24u64) | (b2 << 16u64) | (b3 << 8u64) | 3u64) >> 25u64) & 31) == g) by (bit_vector)
            requires
                xv == 0 || xv == 255,
                g == (if xv == 0 { 0u64 } else { 31u64 }),
        ;
    }
    assert forall|i: int| 0 <= i < 51 implies #[trigger] address[i] == (if x == 0 {
        'a'
    } else {
        '7'
    }) by {
        let blk = i / 8;
        assert(payload.len() == 35);
        let v = block_value(payload, blk);
        if blk < 6 {
            assert(payload[5 * blk] == x && payload[5 * blk + 1] == x && payload[5 * blk + 2] == x
                && payload[5 * blk + 3] == x && payload[5 * blk + 4] == x);
            assert(v == (xv << 32u64) | (xv << 24u64) | (xv << 16u64) | (xv << 8u64) | xv);
        } else {
            assert(blk == 6);
            assert(i % 8 < 3);
            assert(payload[30] == x && payload[31] == x && payload[34] == ONION_VERSION);
            let b2 = payload[32] as u64;
            let b3 = payload[33] as u64;
            assert(v == (xv << 32u64) | (xv << 24u64) | (b2 << 16u64) | (b3 << 8u64) | 3u64);
            assert(((xv << 32u64) | (xv << 24u64) | (b2 << 16u64) | (b3 << 8u64) | 3u64)
                >> 35u64 & 31 == g);
        }
        assert(block_group(v, i % 8) == g);
        assert(base32_group(payload, i) == g);
    }
}

/// The bytes the checksum is computed over.
pub fn checksum_input_bytes(pubkey: &[u8]) -> (out: Vec<u8>)
    ensures
        out@ == checksum_input(pubkey@),
{
    let mut out: Vec<u8> = Vec::new();
    out.extend_from_slice(ONION_CHECKSUM_PREFIX.as_slice());
    out.extend_from_slice(pubkey);
    out.push(ONION_VERSION);
    assert(out@ =~= checksum_input(pubkey@));
    out
}

/// The 35 bytes of an address, from the public key and its checksum.
pub fn address_payload_bytes(pubkey: &[u8], checksum: &[u8; 32]) -> (out: [u8; 35])
    requires
        pubkey@.len() == 32,
    ensures
        out@ == address_payload(pubkey@, checksum@),
{
    let mut out: [u8; 35] = [0u8; 35];
    let mut i: usize = 0;
    while i < 32
        invariant
            i <= 32,
            pubkey@.len() == 32,
            out@.len() == 35,
            forall|j: int| 0 <= j < i ==> out@[j] == pubkey@[j],
        decreases 32 - i,
    {
        out[i] = pubkey[i];
        i = i + 1;
    }
    out[32] = checksum[0];
    out[33] = checksum[1];
    out[34] = ONION_VERSION;
    assert(out@ =~= address_payload(pubkey@, checksum@));
    out
}

/// `s` with every ASCII upper-case letter made lower-case.
pub fn ascii_lowercase(s: &str) -> (out: String)
    ensures
        out@ == lowercase_chars(s@),
{
    let lower = "abcdefghijklmnopqrstuvwxyz";
    proof {
        reveal_strlit("abcdefghijklmnopqrstuvwxyz");
    }
    let n: usize = s.unicode_len();
    let mut out = String::new();
    let mut i: usize = 0;
    while i < n
        invariant
            i <= n,
            n == s@.len(),
            lower@ == "abcdefghijklmnopqrstuvwxyz"@,
            lower@.len() == 26,
            forall|k: int| 0 <= k < 26 ==> #[trigger] lower@[k] == ((97 + k) as char),
            out@ == lowercase_chars(s@.subrange(0, i as int)),
        decreases n - i,
    {
        let c: char = s.get_char(i);
        if 'A' <= c && c <= 'Z' {
            let k: usize = (c as u32 - 65) as usize;
            let piece = lower.substring_char(k, k + 1);
            assert(lower@[k as int] == ((97 + k) as char));
            assert(ascii_lower(c) == lower@[k as int]);
            out.append(piece);
        } else {
            let piece = s.substring_char(i, i + 1);
            out.append(piece);
        }
        i = i + 1;
        assert(out@ =~= lowercase_chars(s@.subrange(0, i as int)));
    }
    assert(s@.subrange(0, n as int) =~= s@);
    out
}

/// The version 3 onion address of the service with public key
/// `pubkey_bytes`, without the ".onion" suffix: 56 characters of lower-case
/// base32.
pub fn encode_v3_onion(pubkey_bytes: &[u8]) -> (address: String)
    requires
        pubkey_bytes@.len() == 32,
    ensures
        address@ == onion_address(pubkey_bytes@),
        address@.len() == 56,
        forall|i: int| 0 <= i < address@.len() ==> is_address_char(#[trigger] address@[i]),
{
    let input = checksum_input_bytes(pubkey_bytes);
    let checksum = sha3_256(input.as_slice());
    let payload = address_payload_bytes(pubkey_bytes, &checksum);
    let encoded = base32_nopad_encode(payload.as_slice());
    let address = ascii_lowercase(encoded.as_str());
    proof {
        lemma_encoding_alphabet(payload@);
    }
    assert forall|i: int| 0 <= i < address@.len() implies is_address_char(
        #[trigger] address@[i],
    ) by {
        assert(is_base32_char(encoded@[i]));
    }
    address
}

} // verus!
