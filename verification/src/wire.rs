//! Byte-level building blocks of the wire format: fixed-size fields are raw
//! bytes, integers are little-endian, and a byte string is its length as a
//! `u64` followed by its bytes.
use vstd::bytes::*;
use vstd::prelude::*;
use vstd::slice::*;

verus! {

/// The encoding of a variant tag.
pub open spec fn tag_bytes(tag: u32) -> Seq<u8> {
    spec_u32_to_le_bytes(tag)
}

/// The encoding of a byte string: its length as a `u64`, then its bytes.
pub open spec fn bytes_field(b: Seq<u8>) -> Seq<u8> {
    spec_u64_to_le_bytes(b.len() as u64) + b
}

/// Decodes a byte string at the start of `d`, with the number of bytes it
/// took; `None` when `d` is too short for the length field or for the bytes
/// that it announces.
pub open spec fn parse_bytes_field(d: Seq<u8>) -> Option<(Seq<u8>, nat)> {
    if d.len() < 8 {
        None
    } else {
        let n: nat = spec_u64_from_le_bytes(d.subrange(0, 8)) as nat;
        if n > d.len() - 8 {
            None
        } else {
            Some((d.subrange(8, 8 + n as int), (8 + n) as nat))
        }
    }
}

/// A byte string followed by anything decodes to itself.
pub proof fn lemma_bytes_field_roundtrip(b: Seq<u8>, rest: Seq<u8>)
    requires
        b.len() <= u64::MAX,
    ensures
        parse_bytes_field(bytes_field(b) + rest) == Some((b, (8 + b.len()) as nat)),
{
    lemma_auto_spec_u64_to_from_le_bytes();
    let d = bytes_field(b) + rest;
    assert(d.subrange(0, 8) =~= spec_u64_to_le_bytes(b.len() as u64));
    assert(d.subrange(8, 8 + b.len() as int) =~= b);
}

/// What a byte string decodes from is its own encoding.
pub proof fn lemma_bytes_field_parsed(d: Seq<u8>)
    requires
        parse_bytes_field(d) is Some,
    ensures
        ({
            let (b, n) = parse_bytes_field(d).unwrap();
            d.subrange(0, n as int) == bytes_field(b) && b.len() <= u64::MAX
        }),
{
    lemma_auto_spec_u64_to_from_le_bytes();
    let (b, n) = parse_bytes_field(d).unwrap();
    let len_bytes = d.subrange(0, 8);
    assert(spec_u64_to_le_bytes(spec_u64_from_le_bytes(len_bytes)) == len_bytes);
    assert(d.subrange(0, n as int) =~= bytes_field(b));
}

/// Copies `N` bytes of `data`, from `start` on, into an array.
pub fn read_array<const N: usize>(data: &[u8], start: usize) -> (out: [u8; N])
    requires
        start + N <= data@.len(),
    ensures
        out@ == data@.subrange(start as int, start + N),
{
    let mut out: [u8; N] = [0u8; N];
    let mut i: usize = 0;
    while i < N
        invariant
            i <= N,
            start + N <= data.len(),
            out@.len() == N,
            forall|j: int| 0 <= j < i ==> out@[j] == data@[start + j],
        decreases N - i,
    {
        out[i] = data[start + i];
        i = i + 1;
    }
    assert(out@ =~= data@.subrange(start as int, start + N));
    out
}

/// Reads the variant tag at the start of `data`.
pub fn read_tag(data: &[u8]) -> (tag: u32)
    requires
        4 <= data@.len(),
    ensures
        tag == spec_u32_from_le_bytes(data@.subrange(0, 4)),
{
    let s = slice_subrange(data, 0, 4);
    u32_from_le_bytes(s)
}

/// Decodes a byte string starting at `start`; the result and the number of
/// bytes taken are those of `parse_bytes_field` on the rest of `data`.
pub fn read_bytes_field(data: &[u8], start: usize) -> (out: Option<(Vec<u8>, usize)>)
    requires
        start <= data@.len(),
    ensures
        match (out, parse_bytes_field(data@.subrange(start as int, data@.len() as int))) {
            (None, None) => true,
            (Some((v, n)), Some((b, m))) => v@ == b && n == m,
            _ => false,
        },
{
    let ghost d = data@.subrange(start as int, data@.len() as int);
    if data.len() - start < 8 {
        return None;
    }
    let len_slice = slice_subrange(data, start, start + 8);
    assert(len_slice@ =~= d.subrange(0, 8));
    let n: u64 = u64_from_le_bytes(len_slice);
    if n > (data.len() - start - 8) as u64 {
        return None;
    }
    let n: usize = n as usize;
    let body = slice_subrange(data, start + 8, start + 8 + n);
    assert(body@ =~= d.subrange(8, 8 + n as int));
    Some((slice_to_vec(body), 8 + n))
}

/// Appends the encoding of the byte string `b` to `out`.
pub fn write_bytes_field(out: &mut Vec<u8>, b: &[u8])
    ensures
        final(out)@ == old(out)@ + bytes_field(b@),
{
    let len_bytes = u64_to_le_bytes(b.len() as u64);
    out.extend_from_slice(len_bytes.as_slice());
    out.extend_from_slice(b);
    assert(final(out)@ =~= old(out)@ + bytes_field(b@));
}

} // verus!
