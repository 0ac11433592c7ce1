//! The root-key ratchet: each step feeds a Diffie-Hellman output through
//! HKDF-SHA256 salted with the current root key and splits the output into
//! the next root key and the two chain keys.
use crate::primitives::{hkdf_sha256, hkdf_sha256_okm};
use crate::wire::read_array;
use vstd::prelude::*;

verus! {

/// The keys of one side of a session.
pub struct RatchetState {
    pub root_key: [u8; 32],
    pub send_chain_key: [u8; 32],
    pub receive_chain_key: [u8; 32],
}

/// The mathematical value of a ratchet state.
pub struct RatchetView {
    pub root_key: Seq<u8>,
    pub send_chain_key: Seq<u8>,
    pub receive_chain_key: Seq<u8>,
}

impl View for RatchetState {
    type V = RatchetView;

    open spec fn view(&self) -> RatchetView {
        RatchetView {
            root_key: self.root_key@,
            send_chain_key: self.send_chain_key@,
            receive_chain_key: self.receive_chain_key@,
        }
    }
}

/// The context string of the ratchet's key derivation, "WhisperNet_Ratchet".
pub const RATCHET_INFO: [u8; 18] = [
    87, 104, 105, 115, 112, 101, 114, 78, 101, 116, 95, 82, 97, 116, 99, 104, 101, 116,
];

/// The number of bytes one step derives: a root key and two chain keys.
pub const RATCHET_OKM_LEN: usize = 96;

/// The key material that a step derives from `root_key` and `dh_output`.
pub open spec fn ratchet_okm(root_key: Seq<u8>, dh_output: Seq<u8>) -> Seq<u8> {
    hkdf_sha256_okm(root_key, dh_output, RATCHET_INFO@, RATCHET_OKM_LEN as nat)
}

/// The state made from 96 bytes of key material: root key, sending chain key
/// and receiving chain key, 32 bytes each, in that order.
pub open spec fn split_key_material(okm: Seq<u8>) -> RatchetView {
    RatchetView {
        root_key: okm.subrange(0, 32),
        send_chain_key: okm.subrange(32, 64),
        receive_chain_key: okm.subrange(64, 96),
    }
}

impl RatchetView {
    /// The state after one step with the Diffie-Hellman output `dh_output`.
    pub open spec fn step(self, dh_output: Seq<u8>) -> RatchetView {
        split_key_material(ratchet_okm(self.root_key, dh_output))
    }
}

/// A step depends on the root key and the Diffie-Hellman output alone: two
/// states with the same root key, stepped with the same output, come out
/// equal, whatever their chain keys were.
pub proof fn law_step_ignores_chain_keys(a: RatchetView, b: RatchetView, dh_output: Seq<u8>)
    requires
        a.root_key == b.root_key,
    ensures
        a.step(dh_output) == b.step(dh_output),
{
}

impl RatchetState {
    /// Replaces the three keys with the pieces of `okm`.
    pub fn absorb_key_material(&mut self, okm: &[u8])
        requires
            okm@.len() == RATCHET_OKM_LEN,
        ensures
            final(self)@ == split_key_material(okm@),
    {
        self.root_key = read_array(okm, 0);
        self.send_chain_key = read_array(okm, 32);
        self.receive_chain_key = read_array(okm, 64);
    }

    /// Advances the ratchet with a Diffie-Hellman output: every key is
    /// replaced, from HKDF-SHA256 over the old root key and `dh_output`.
    pub fn step_ratchet(&mut self, dh_output: [u8; 32])
        ensures
            final(self)@ == old(self)@.step(dh_output@),
            final(self).root_key@ + final(self).send_chain_key@ + final(self).receive_chain_key@
                == ratchet_okm(old(self).root_key@, dh_output@),
    {
        let okm = hkdf_sha256(
            self.root_key.as_slice(),
            dh_output.as_slice(),
            RATCHET_INFO.as_slice(),
            RATCHET_OKM_LEN,
        );
        self.absorb_key_material(okm.as_slice());
        assert(self.root_key@ + self.send_chain_key@ + self.receive_chain_key@ =~= okm@);
    }
}

} // verus!
