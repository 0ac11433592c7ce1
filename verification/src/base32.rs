//! RFC 4648 base32 without padding: the input bits, most significant first
//! and zero-padded at the end, in groups of five, each group written as one
//! of `A`..`Z`, `2`..`7`. Every five bytes make one block of eight
//! characters; a last, shorter block is filled with zero bytes and cut to
//! `ceil(8 n / 5)` characters in all.
use vstd::prelude::*;

verus! {

/// The character of a five-bit group: `A`..`Z` for 0..25, `2`..`7` for
/// 26..31.
pub open spec fn base32_symbol(g: u64) -> char {
    if g < 26 {
        (65 + g) as char
    } else {
        (24 + g) as char
    }
}

/// Byte `k` of `d`, or zero past its end.
pub open spec fn padded_byte(d: Seq<u8>, k: int) -> u64 {
    if 0 <= k < d.len() {
        d[k] as u64
    } else {
        0
    }
}

/// The 40-bit value of block `blk`: its five bytes, most significant first.
pub open spec fn block_value(d: Seq<u8>, blk: int) -> u64 {
    (padded_byte(d, 5 * blk) << 32u64) | (padded_byte(d, 5 * blk + 1) << 24u64) | (padded_byte(
        d,
        5 * blk + 2,
    ) << 16u64) | (padded_byte(d, 5 * blk + 3) << 8u64) | padded_byte(d, 5 * blk + 4)
}

/// Group `j` (0..8) of a 40-bit block value, most significant first.
pub open spec fn block_group(v: u64, j: int) -> u64 {
    if j == 0 {
        (v >> 35u64) & 31
    } else if j == 1 {
        (v >> 30u64) & 31
    } else if j == 2 {
        (v >> 25u64) & 31
    } else if j == 3 {
        (v >> 20u64) & 31
    } else if j == 4 {
        (v >> 15u64) & 31
    } else if j == 5 {
        (v >> 10u64) & 31
    } else if j == 6 {
        (v >> 5u64) & 31
    } else {
        v & 31
    }
}

/// Group `i` of the whole input.
pub open spec fn base32_group(d: Seq<u8>, i: int) -> u64 {
    block_group(block_value(d, i / 8), i % 8)
}

/// The base32 encoding of `d`, without padding.
pub open spec fn base32_encoding(d: Seq<u8>) -> Seq<char> {
    Seq::new(((8 * d.len() + 4) / 5) as nat, |i: int| base32_symbol(base32_group(d, i)))
}

/// The block value made from eight five-bit groups.
pub open spec fn groups_value(g: Seq<u64>) -> u64 {
    (g[0] << 35u64) | (g[1] << 30u64) | (g[2] << 25u64) | (g[3] << 20u64) | (g[4] << 15u64) | (
    g[5] << 10u64) | (g[6] << 5u64) | g[7]
}

/// Byte `m` (0..5) of a 40-bit block value, most significant first.
pub open spec fn block_byte(v: u64, m: int) -> u8 {
    if m == 0 {
        ((v >> 32u64) & 255) as u8
    } else if m == 1 {
        ((v >> 24u64) & 255) as u8
    } else if m == 2 {
        ((v >> 16u64) & 255) as u8
    } else if m == 3 {
        ((v >> 8u64) & 255) as u8
    } else {
        (v & 255) as u8
    }
}

/// Bytes decoded from groups: every eight groups give five bytes.
pub open spec fn bytes_of_groups(g: Seq<u64>) -> Seq<u8> {
    Seq::new(
        (g.len() / 8 * 5) as nat,
        |k: int| block_byte(groups_value(g.subrange(8 * (k / 5), 8 * (k / 5) + 8)), k % 5),
    )
}

/// A group is below 32.
pub proof fn lemma_group_bound(v: u64, j: int)
    ensures
        block_group(v, j) < 32,
{
    assert((v >> 35u64) & 31 < 32) by (bit_vector);
    assert((v >> 30u64) & 31 < 32) by (bit_vector);
    assert((v >> 25u64) & 31 < 32) by (bit_vector);
    assert((v >> 20u64) & 31 < 32) by (bit_vector);
    assert((v >> 15u64) & 31 < 32) by (bit_vector);
    assert((v >> 10u64) & 31 < 32) by (bit_vector);
    assert((v >> 5u64) & 31 < 32) by (bit_vector);
    assert(v & 31 < 32) by (bit_vector);
}

/// The eight groups of five bytes give the five bytes back.
pub proof fn lemma_block_roundtrip(b0: u8, b1: u8, b2: u8, b3: u8, b4: u8)
    ensures
        ({
            let v = ((b0 as u64) << 32u64) | ((b1 as u64) << 24u64) | ((b2 as u64) << 16u64) | ((
            b3 as u64) << 8u64) | (b4 as u64);
            let w = groups_value(seq![block_group(v, 0), block_group(v, 1), block_group(v, 2), block_group(v, 3), block_group(v, 4), block_group(v, 5), block_group(v, 6), block_group(v, 7)]);
            &&& block_byte(w, 0) == b0
            &&& block_byte(w, 1) == b1
            &&& block_byte(w, 2) == b2
            &&& block_byte(w, 3) == b3
            &&& block_byte(w, 4) == b4
        }),
{
    let v = ((b0 as u64) << 32u64) | ((b1 as u64) << 24u64) | ((b2 as u64) << 16u64) | ((
    b3 as u64) << 8u64) | (b4 as u64);
    let w = ((v >> 35u64) & 31) << 35u64 | ((v >> 30u64) & 31) << 30u64 | ((v >> 25u64) & 31)
        << 25u64 | ((v >> 20u64) & 31) << 20u64 | ((v >> 15u64) & 31) << 15u64 | ((v >> 10u64)
        & 31) << 10u64 | ((v >> 5u64) & 31) << 5u64 | (v & 31);
    assert(w == v) by (bit_vector)
        requires
            v == ((b0 as u64) << 32u64) | ((b1 as u64) << 24u64) | ((b2 as u64) << 16u64) | ((
            b3 as u64) << 8u64) | (b4 as u64),
            w == ((v >> 35u64) & 31) << 35u64 | ((v >> 30u64) & 31) << 30u64 | ((v >> 25u64) & 31)
                << 25u64 | ((v >> 20u64) & 31) << 20u64 | ((v >> 15u64) & 31) << 15u64 | ((v
                >> 10u64) & 31) << 10u64 | ((v >> 5u64) & 31) << 5u64 | (v & 31),
    ;
    assert(((v >> 32u64) & 255) as u8 == b0 && ((v >> 24u64) & 255) as u8 == b1 && ((v
        >> 16u64) & 255) as u8 == b2 && ((v >> 8u64) & 255) as u8 == b3 && (v & 255) as u8
        == b4) by (bit_vector)
        requires
            v == ((b0 as u64) << 32u64) | ((b1 as u64) << 24u64) | ((b2 as u64) << 16u64) | ((
            b3 as u64) << 8u64) | (b4 as u64),
    ;
    let g = seq![block_group(v, 0), block_group(v, 1), block_group(v, 2), block_group(v, 3), block_group(v, 4), block_group(v, 5), block_group(v, 6), block_group(v, 7)];
    assert(groups_value(g) == w);
}

/// The groups of `d`'s encoding, one per character.
pub open spec fn base32_groups(d: Seq<u8>) -> Seq<u64> {
    Seq::new(((8 * d.len() + 4) / 5) as nat, |i: int| base32_group(d, i))
}

/// Whether `c` is a character of the base32 alphabet.
pub open spec fn is_base32_char(c: char) -> bool {
    ('A' <= c && c <= 'Z') || ('2' <= c && c <= '7')
}

/// Every character of an encoding is in the alphabet.
pub proof fn lemma_encoding_alphabet(d: Seq<u8>)
    ensures
        forall|i: int|
            0 <= i < base32_encoding(d).len() ==> is_base32_char(#[trigger] base32_encoding(d)[i]),
{
    assert forall|i: int| 0 <= i < base32_encoding(d).len() implies is_base32_char(
        #[trigger] base32_encoding(d)[i],
    ) by {
        lemma_group_bound(block_value(d, i / 8), i % 8);
    }
}

/// When the input is a whole number of five-byte blocks, its groups decode
/// back to it.
pub proof fn lemma_groups_decode(d: Seq<u8>)
    requires
        d.len() % 5 == 0,
    ensures
        bytes_of_groups(base32_groups(d)) == d,
{
    let g = base32_groups(d);
    let q = d.len() / 5;
    assert(g.len() == 8 * q);
    assert(g.len() / 8 * 5 == d.len());
    assert forall|k: int| 0 <= k < d.len() implies #[trigger] bytes_of_groups(g)[k] == d[k] by {
        let blk = k / 5;
        assert(0 <= blk < q);
        let v = block_value(d, blk);
        lemma_block_roundtrip(d[5 * blk], d[5 * blk + 1], d[5 * blk + 2], d[5 * blk + 3], d[5 * blk + 4]);
        let sub = g.subrange(8 * blk, 8 * blk + 8);
        let expected = seq![block_group(v, 0), block_group(v, 1), block_group(v, 2), block_group(v, 3), block_group(v, 4), block_group(v, 5), block_group(v, 6), block_group(v, 7)];
        assert forall|j: int| 0 <= j < 8 implies sub[j] == expected[j] by {
            assert((8 * blk + j) / 8 == blk);
            assert((8 * blk + j) % 8 == j);
        }
        assert(sub =~= expected);
        assert(k == 5 * blk + k % 5);
    }
    assert(bytes_of_groups(g) =~= d);
}

} // verus!
