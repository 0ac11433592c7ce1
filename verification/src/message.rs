//! The payloads that travel between nodes: a handshake, or an encrypted
//! message with its sender's identity.
use crate::handshake::{
    lemma_handshake_parsed, lemma_handshake_roundtrip, lemma_handshake_view_wf, parse_handshake, HandshakeMessage,
    HandshakeView,
};
use crate::wire::{
    bytes_field, lemma_bytes_field_parsed, lemma_bytes_field_roundtrip, parse_bytes_field,
    read_array, read_bytes_field, read_tag, tag_bytes, write_bytes_field,
};
use vstd::bytes::*;
use vstd::prelude::*;

verus! {

/// A payload: the tag of its variant, then the variant's fields.
pub enum WhisperPayload {
    Handshake(HandshakeMessage),
    Message { sender_identity: [u8; 32], ciphertext: Vec<u8> },
}

/// The mathematical value of a payload.
pub enum PayloadView {
    Handshake(HandshakeView),
    Message { sender_identity: Seq<u8>, ciphertext: Seq<u8> },
}

/// The tag that announces a handshake.
pub const HANDSHAKE_TAG: u32 = 0;

/// The tag that announces an encrypted message.
pub const MESSAGE_TAG: u32 = 1;

impl PayloadView {
    /// The field lengths that a payload value can have.
    pub open spec fn wf(self) -> bool {
        match self {
            PayloadView::Handshake(h) => h.wf(),
            PayloadView::Message { sender_identity, ciphertext } => {
                sender_identity.len() == 32 && ciphertext.len() <= u64::MAX
            },
        }
    }

    /// The encoding of a payload.
    pub open spec fn encoding(self) -> Seq<u8> {
        match self {
            PayloadView::Handshake(h) => tag_bytes(HANDSHAKE_TAG) + h.encoding(),
            PayloadView::Message { sender_identity, ciphertext } => tag_bytes(MESSAGE_TAG)
                + sender_identity + bytes_field(ciphertext),
        }
    }
}

impl View for WhisperPayload {
    type V = PayloadView;

    open spec fn view(&self) -> PayloadView {
        match self {
            WhisperPayload::Handshake(h) => PayloadView::Handshake(h@),
            WhisperPayload::Message { sender_identity, ciphertext } => PayloadView::Message {
                sender_identity: sender_identity@,
                ciphertext: ciphertext@,
            },
        }
    }
}

/// Decodes a payload at the start of `d`, with the number of bytes it took;
/// `None` when `d` is too short or its tag names no variant. Bytes after the
/// payload are left alone.
pub open spec fn parse_payload(d: Seq<u8>) -> Option<(PayloadView, nat)> {
    if d.len() < 4 {
        None
    } else {
        let tag: u32 = spec_u32_from_le_bytes(d.subrange(0, 4));
        let body = d.subrange(4, d.len() as int);
        if tag == HANDSHAKE_TAG {
            match parse_handshake(body) {
                None => None,
                Some((h, n)) => Some((PayloadView::Handshake(h), (4 + n) as nat)),
            }
        } else if tag == MESSAGE_TAG {
            if body.len() < 32 {
                None
            } else {
                match parse_bytes_field(body.subrange(32, body.len() as int)) {
                    None => None,
                    Some((ct, n)) => Some(
                        (
                            PayloadView::Message {
                                sender_identity: body.subrange(0, 32),
                                ciphertext: ct,
                            },
                            (36 + n) as nat,
                        ),
                    ),
                }
            }
        } else {
            None
        }
    }
}

/// Decoding an encoded payload, whatever follows it, gives the payload back
/// and takes exactly its encoding.
pub proof fn lemma_payload_roundtrip(p: PayloadView, rest: Seq<u8>)
    requires
        p.wf(),
    ensures
        parse_payload(p.encoding() + rest) == Some((p, p.encoding().len())),
{
    lemma_auto_spec_u32_to_from_le_bytes();
    lemma_auto_spec_u64_to_from_le_bytes();
    let d = p.encoding() + rest;
    let body = d.subrange(4, d.len() as int);
    match p {
        PayloadView::Handshake(h) => {
            assert(d.subrange(0, 4) =~= tag_bytes(HANDSHAKE_TAG));
            assert(body =~= h.encoding() + rest);
            lemma_handshake_roundtrip(h, rest);
        },
        PayloadView::Message { sender_identity, ciphertext } => {
            assert(d.subrange(0, 4) =~= tag_bytes(MESSAGE_TAG));
            assert(body.subrange(32, body.len() as int) =~= bytes_field(ciphertext) + rest);
            assert(body.subrange(0, 32) =~= sender_identity);
            lemma_bytes_field_roundtrip(ciphertext, rest);
        },
    }
}

/// Whatever decodes is a well-formed payload, read from its own encoding.
pub proof fn lemma_payload_parsed(d: Seq<u8>)
    requires
        parse_payload(d) is Some,
    ensures
        ({
            let (p, n) = parse_payload(d).unwrap();
            p.wf() && n <= d.len() && d.subrange(0, n as int) == p.encoding()
        }),
{
    lemma_auto_spec_u32_to_from_le_bytes();
    let (p, n) = parse_payload(d).unwrap();
    let tag_part = d.subrange(0, 4);
    assert(spec_u32_to_le_bytes(spec_u32_from_le_bytes(tag_part)) == tag_part);
    let body = d.subrange(4, d.len() as int);
    match p {
        PayloadView::Handshake(h) => {
            lemma_handshake_parsed(body);
            assert(body.subrange(0, n - 4) =~= d.subrange(4, n as int));
            assert(d.subrange(0, n as int) =~= p.encoding());
        },
        PayloadView::Message { sender_identity, ciphertext } => {
            let tail = body.subrange(32, body.len() as int);
            lemma_bytes_field_parsed(tail);
            assert(tail.subrange(0, n - 36) =~= d.subrange(36, n as int));
            assert(d.subrange(0, n as int) =~= p.encoding());
        },
    }
}

/// Two well-formed payloads with the same encoding are the same payload.
pub proof fn lemma_payload_encoding_injective(p: PayloadView, q: PayloadView)
    requires
        p.wf(),
        q.wf(),
        p.encoding() == q.encoding(),
    ensures
        p == q,
{
    lemma_payload_roundtrip(p, Seq::empty());
    lemma_payload_roundtrip(q, Seq::empty());
    assert(p.encoding() + Seq::<u8>::empty() =~= p.encoding());
    assert(q.encoding() + Seq::<u8>::empty() =~= q.encoding());
}

/// Every payload the library holds has a well-formed value.
pub proof fn lemma_payload_view_wf(p: &WhisperPayload)
    ensures
        p@.wf(),
{
    match p {
        WhisperPayload::Handshake(h) => lemma_handshake_view_wf(h),
        WhisperPayload::Message { sender_identity, ciphertext } => {
            assert(ciphertext.len() == ciphertext@.len());
        },
    }
}

/// What `serialize` writes for a payload, followed by any bytes, is decoded
/// by `deserialize` back to that payload: the encoding is read back exactly
/// and trailing bytes are ignored.
pub proof fn law_payload_serialize_deserialize(p: &WhisperPayload, rest: Seq<u8>)
    ensures
        parse_payload(p@.encoding() + rest) == Some((p@, p@.encoding().len())),
{
    lemma_payload_view_wf(p);
    lemma_payload_roundtrip(p@, rest);
}

/// Whatever `deserialize` accepts starts with the encoding that `serialize`
/// gives the decoded payload, so a payload received is a payload that was
/// sent, byte for byte, and no two payloads share an encoding.
pub proof fn law_payload_deserialize_serialize(d: Seq<u8>)
    requires
        parse_payload(d) is Some,
    ensures
        ({
            let (p, n) = parse_payload(d).unwrap();
            &&& p.wf()
            &&& d.subrange(0, n as int) == p.encoding()
            &&& forall|q: PayloadView|
                q.wf() && #[trigger] q.encoding().len() <= d.len() && d.subrange(
                    0,
                    q.encoding().len() as int,
                ) == q.encoding() ==> q == p
        }),
{
    lemma_payload_parsed(d);
    let (p, n) = parse_payload(d).unwrap();
    assert forall|q: PayloadView|
        q.wf() && #[trigger] q.encoding().len() <= d.len() && d.subrange(
            0,
            q.encoding().len() as int,
        ) == q.encoding() implies q == p by {
        let rest = d.subrange(q.encoding().len() as int, d.len() as int);
        assert(q.encoding() + rest =~= d);
        lemma_payload_roundtrip(q, rest);
    }
}

impl WhisperPayload {
    /// The encoding of this payload.
    pub fn serialize(&self) -> (out: Vec<u8>)
        ensures
            out@ == self@.encoding(),
    {
        let mut out: Vec<u8> = Vec::new();
        match self {
            WhisperPayload::Handshake(h) => {
                let tag = u32_to_le_bytes(HANDSHAKE_TAG);
                out.extend_from_slice(tag.as_slice());
                h.encode_into(&mut out);
            },
            WhisperPayload::Message { sender_identity, ciphertext } => {
                let tag = u32_to_le_bytes(MESSAGE_TAG);
                out.extend_from_slice(tag.as_slice());
                out.extend_from_slice(sender_identity.as_slice());
                write_bytes_field(&mut out, ciphertext.as_slice());
            },
        }
        assert(out@ =~= self@.encoding());
        out
    }

    /// Decodes a payload from the start of `data`; `None` exactly when
    /// `parse_payload` finds none.
    pub fn deserialize(data: &[u8]) -> (out: Option<WhisperPayload>)
        ensures
            match (out, parse_payload(data@)) {
                (None, None) => true,
                (Some(p), Some((v, _))) => p@ == v,
                _ => false,
            },
    {
        if data.len() < 4 {
            return None;
        }
        let tag: u32 = read_tag(data);
        let ghost body = data@.subrange(4, data@.len() as int);
        assert(data@.subrange(4, data@.len() as int) =~= body);
        if tag == HANDSHAKE_TAG {
            match HandshakeMessage::decode_at(data, 4) {
                None => None,
                Some((h, _)) => Some(WhisperPayload::Handshake(h)),
            }
        } else if tag == MESSAGE_TAG {
            if data.len() - 4 < 32 {
                return None;
            }
            assert(data@.subrange(36, data@.len() as int) =~= body.subrange(
                32,
                body.len() as int,
            ));
            match read_bytes_field(data, 36) {
                None => None,
                Some((ciphertext, _)) => {
                    let sender_identity: [u8; 32] = read_array(data, 4);
                    assert(sender_identity@ =~= body.subrange(0, 32));
                    Some(WhisperPayload::Message { sender_identity, ciphertext })
                },
            }
        } else {
            None
        }
    }
}

} // verus!
