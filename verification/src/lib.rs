//! A messenger's protocol core: the wire format of its payloads, the key
//! bundle and handshake, the ratchet step, onion addresses and the
//! interactive commands.
pub mod base32;
pub mod command;
pub mod handshake;
pub mod inbound;
pub mod keys;
pub mod message;
pub mod onion;
pub mod primitives;
pub mod ratchet;
pub mod storage;
pub mod wire;
