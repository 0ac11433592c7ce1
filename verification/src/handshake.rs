//! The handshake message that opens a session: the sender's identity key,
//! an ephemeral key, a signature over the ephemeral key, and a ciphertext.
use crate::primitives::{
    ed25519_public, ed25519_public_key, ed25519_sign, ed25519_signature, ed25519_verifies,
    ed25519_verify,
};
use crate::wire::{
    bytes_field, lemma_bytes_field_parsed, lemma_bytes_field_roundtrip, parse_bytes_field,
    read_array, read_bytes_field, write_bytes_field,
};
use vstd::bytes::lemma_auto_spec_u64_to_from_le_bytes;
use vstd::prelude::*;

verus! {

/// A handshake message as the library holds it: keys and signature as raw
/// bytes.
pub struct HandshakeMessage {
    pub identity_key: [u8; 32],
    pub ephemeral_key: [u8; 32],
    pub signed_prekey_sig: [u8; 64],
    pub ciphertext: Vec<u8>,
}

/// The mathematical value of a handshake message.
pub struct HandshakeView {
    pub identity_key: Seq<u8>,
    pub ephemeral_key: Seq<u8>,
    pub signed_prekey_sig: Seq<u8>,
    pub ciphertext: Seq<u8>,
}

impl HandshakeView {
    /// The field lengths that a message value can have.
    pub open spec fn wf(self) -> bool {
        &&& self.identity_key.len() == 32
        &&& self.ephemeral_key.len() == 32
        &&& self.signed_prekey_sig.len() == 64
        &&& self.ciphertext.len() <= u64::MAX
    }

    /// The encoding: the three fixed-size fields as raw bytes, then the
    /// ciphertext as a length-prefixed byte string.
    pub open spec fn encoding(self) -> Seq<u8> {
        self.identity_key + self.ephemeral_key + self.signed_prekey_sig + bytes_field(
            self.ciphertext,
        )
    }
}

impl View for HandshakeMessage {
    type V = HandshakeView;

    open spec fn view(&self) -> HandshakeView {
        HandshakeView {
            identity_key: self.identity_key@,
            ephemeral_key: self.ephemeral_key@,
            signed_prekey_sig: self.signed_prekey_sig@,
            ciphertext: self.ciphertext@,
        }
    }
}

/// Decodes a handshake message at the start of `d`, with the number of bytes
/// it took; `None` when `d` holds no complete message. Bytes after the
/// message are left alone.
pub open spec fn parse_handshake(d: Seq<u8>) -> Option<(HandshakeView, nat)> {
    if d.len() < 128 {
        None
    } else {
        match parse_bytes_field(d.subrange(128, d.len() as int)) {
            None => None,
            Some((ct, n)) => Some(
                (
                    HandshakeView {
                        identity_key: d.subrange(0, 32),
                        ephemeral_key: d.subrange(32, 64),
                        signed_prekey_sig: d.subrange(64, 128),
                        ciphertext: ct,
                    },
                    (128 + n) as nat,
                ),
            ),
        }
    }
}

/// Decoding an encoded message, whatever follows it, gives the message back
/// and takes exactly its encoding.
pub proof fn lemma_handshake_roundtrip(h: HandshakeView, rest: Seq<u8>)
    requires
        h.wf(),
    ensures
        parse_handshake(h.encoding() + rest) == Some((h, h.encoding().len())),
{
    let d = h.encoding() + rest;
    assert(d.subrange(128, d.len() as int) =~= bytes_field(h.ciphertext) + rest);
    lemma_bytes_field_roundtrip(h.ciphertext, rest);
    lemma_auto_spec_u64_to_from_le_bytes();
    assert(h.encoding().len() == 136 + h.ciphertext.len());
    assert(d.subrange(0, 32) =~= h.identity_key);
    assert(d.subrange(32, 64) =~= h.ephemeral_key);
    assert(d.subrange(64, 128) =~= h.signed_prekey_sig);
}

/// Whatever decodes is a well-formed message, read from its own encoding.
pub proof fn lemma_handshake_parsed(d: Seq<u8>)
    requires
        parse_handshake(d) is Some,
    ensures
        ({
            let (h, n) = parse_handshake(d).unwrap();
            h.wf() && n <= d.len() && d.subrange(0, n as int) == h.encoding()
        }),
{
    let (h, n) = parse_handshake(d).unwrap();
    let tail = d.subrange(128, d.len() as int);
    lemma_bytes_field_parsed(tail);
    let m: nat = parse_bytes_field(tail).unwrap().1;
    assert(tail.subrange(0, m as int) =~= d.subrange(128, n as int));
    assert(d.subrange(0, n as int) =~= h.encoding());
}

/// Every message the library holds has a well-formed value.
pub proof fn lemma_handshake_view_wf(m: &HandshakeMessage)
    ensures
        m@.wf(),
{
    assert(m.ciphertext.len() == m.ciphertext@.len());
}

/// What `serialize` writes for a message, followed by any bytes, is decoded
/// by `deserialize` back to that message.
pub proof fn law_handshake_serialize_deserialize(m: &HandshakeMessage, rest: Seq<u8>)
    ensures
        parse_handshake(m@.encoding() + rest) == Some((m@, m@.encoding().len())),
{
    lemma_handshake_view_wf(m);
    lemma_handshake_roundtrip(m@, rest);
}

impl HandshakeMessage {
    /// The handshake that opens a session with an ephemeral key: it carries
    /// the sender's Ed25519 verifying key as its identity key, the
    /// ephemeral key, the Ed25519 signature of the ephemeral key's bytes by
    /// the sender's identity, and no ciphertext.
    pub fn new(signing_key: &[u8; 32], ephemeral_key: &[u8; 32]) -> (m: HandshakeMessage)
        ensures
            m.identity_key@ == ed25519_public(signing_key@),
            m.ephemeral_key == *ephemeral_key,
            m.signed_prekey_sig@ == ed25519_signature(signing_key@, ephemeral_key@),
            m.ciphertext@.len() == 0,
            ed25519_verifies(m.identity_key@, m.ephemeral_key@, m.signed_prekey_sig@),
    {
        HandshakeMessage {
            identity_key: ed25519_public_key(signing_key),
            ephemeral_key: *ephemeral_key,
            signed_prekey_sig: ed25519_sign(signing_key, ephemeral_key.as_slice()),
            ciphertext: Vec::new(),
        }
    }

    /// Decodes a message from `data` at `start`, with the number of bytes it
    /// took.
    pub fn decode_at(data: &[u8], start: usize) -> (out: Option<(HandshakeMessage, usize)>)
        requires
            start <= data@.len(),
        ensures
            match (out, parse_handshake(data@.subrange(start as int, data@.len() as int))) {
                (None, None) => true,
                (Some((m, n)), Some((h, k))) => m@ == h && n == k,
                _ => false,
            },
    {
        let ghost d = data@.subrange(start as int, data@.len() as int);
        if data.len() - start < 128 {
            return None;
        }
        assert(data@.subrange(start + 128, data@.len() as int) =~= d.subrange(
            128,
            d.len() as int,
        ));
        match read_bytes_field(data, start + 128) {
            None => None,
            Some((ciphertext, n)) => {
                let identity_key: [u8; 32] = read_array(data, start);
                let ephemeral_key: [u8; 32] = read_array(data, start + 32);
                let signed_prekey_sig: [u8; 64] = read_array(data, start + 64);
                assert(identity_key@ =~= d.subrange(0, 32));
                assert(ephemeral_key@ =~= d.subrange(32, 64));
                assert(signed_prekey_sig@ =~= d.subrange(64, 128));
                let m = HandshakeMessage {
                    identity_key,
                    ephemeral_key,
                    signed_prekey_sig,
                    ciphertext,
                };
                Some((m, 128 + n))
            },
        }
    }

    /// Appends the encoding of this message to `out`.
    pub fn encode_into(&self, out: &mut Vec<u8>)
        ensures
            final(out)@ == old(out)@ + self@.encoding(),
    {
        out.extend_from_slice(self.identity_key.as_slice());
        out.extend_from_slice(self.ephemeral_key.as_slice());
        out.extend_from_slice(self.signed_prekey_sig.as_slice());
        write_bytes_field(out, self.ciphertext.as_slice());
        assert(final(out)@ =~= old(out)@ + self@.encoding());
    }

    /// The encoding of this message.
    pub fn serialize(&self) -> (out: Vec<u8>)
        ensures
            out@ == self@.encoding(),
    {
        let mut out: Vec<u8> = Vec::new();
        self.encode_into(&mut out);
        assert(out@ =~= self@.encoding());
        out
    }

    /// Decodes a message from the start of `data`; `None` when `data` holds
    /// no complete message.
    pub fn try_deserialize(data: &[u8]) -> (out: Option<HandshakeMessage>)
        ensures
            match (out, parse_handshake(data@)) {
                (None, None) => true,
                (Some(m), Some((h, _))) => m@ == h,
                _ => false,
            },
    {
        assert(data@.subrange(0, data@.len() as int) =~= data@);
        match Self::decode_at(data, 0) {
            None => None,
            Some((m, _)) => Some(m),
        }
    }

    /// Decodes a message from the start of `data`, which must hold one.
    pub fn deserialize(data: &[u8]) -> (out: HandshakeMessage)
        requires
            parse_handshake(data@) is Some,
        ensures
            out@ == parse_handshake(data@).unwrap().0,
    {
        match Self::try_deserialize(data) {
            Some(m) => m,
            None => {
                assert(false);
                HandshakeMessage {
                    identity_key: [0u8; 32],
                    ephemeral_key: [0u8; 32],
                    signed_prekey_sig: [0u8; 64],
                    ciphertext: Vec::new(),
                }
            },
        }
    }

    /// Whether `signed_prekey_sig` is a valid Ed25519 signature of the
    /// ephemeral key's bytes under the verifying key `identity_vk`.
    pub fn verify_signature(&self, identity_vk: &[u8; 32]) -> (ok: bool)
        ensures
            ok == ed25519_verifies(identity_vk@, self.ephemeral_key@, self.signed_prekey_sig@),
    {
        ed25519_verify(identity_vk, self.ephemeral_key.as_slice(), &self.signed_prekey_sig)
    }
}

} // verus!
