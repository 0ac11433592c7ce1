//! The key bundle a node publishes: an identity key, a signed prekey with
//! its signature, and an ephemeral prekey.
use crate::primitives::{
    ed25519_public, ed25519_sign, ed25519_signature, ed25519_verifies, random_x25519_secret,
    x25519_public, x25519_public_key,
};
use vstd::prelude::*;

verus! {

/// A key bundle: X25519 public keys and an Ed25519 signature, as raw bytes.
pub struct KeyBundle {
    pub identity_key: [u8; 32],
    pub signed_prekey: [u8; 32],
    pub signed_prekey_sig: [u8; 64],
    pub ephemeral_prekey: [u8; 32],
}

impl KeyBundle {
    /// Whether this bundle is the one made from the three secrets: each key
    /// is the X25519 public key of its secret, and the signature is the
    /// Ed25519 signature of the signed prekey's bytes, made with the identity
    /// secret's bytes as the signing key.
    pub open spec fn made_from(
        self,
        identity_secret: Seq<u8>,
        signed_prekey_secret: Seq<u8>,
        ephemeral_prekey_secret: Seq<u8>,
    ) -> bool {
        &&& self.identity_key@ == x25519_public(identity_secret)
        &&& self.signed_prekey@ == x25519_public(signed_prekey_secret)
        &&& self.ephemeral_prekey@ == x25519_public(ephemeral_prekey_secret)
        &&& self.signed_prekey_sig@ == ed25519_signature(
            identity_secret,
            x25519_public(signed_prekey_secret),
        )
    }

    /// The bundle of the three given secrets.
    pub fn from_secrets(
        identity_secret: &[u8; 32],
        signed_prekey_secret: &[u8; 32],
        ephemeral_prekey_secret: &[u8; 32],
    ) -> (bundle: KeyBundle)
        ensures
            bundle.made_from(identity_secret@, signed_prekey_secret@, ephemeral_prekey_secret@),
            ed25519_verifies(
                ed25519_public(identity_secret@),
                bundle.signed_prekey@,
                bundle.signed_prekey_sig@,
            ),
    {
        let identity_public = x25519_public_key(identity_secret);
        let signed_prekey_public = x25519_public_key(signed_prekey_secret);
        let signature = ed25519_sign(identity_secret, signed_prekey_public.as_slice());
        KeyBundle {
            identity_key: identity_public,
            signed_prekey: signed_prekey_public,
            signed_prekey_sig: signature,
            ephemeral_prekey: x25519_public_key(ephemeral_prekey_secret),
        }
    }

    /// A bundle of three fresh random secrets.
    pub fn generate() -> (bundle: KeyBundle)
        ensures
            exists|a: Seq<u8>, b: Seq<u8>, c: Seq<u8>|
                a.len() == 32 && b.len() == 32 && c.len() == 32 && #[trigger] bundle.made_from(
                    a,
                    b,
                    c,
                ) && ed25519_verifies(
                    ed25519_public(a),
                    bundle.signed_prekey@,
                    bundle.signed_prekey_sig@,
                ),
    {
        let identity_secret = random_x25519_secret();
        let signed_prekey_secret = random_x25519_secret();
        let ephemeral_prekey_secret = random_x25519_secret();
        let bundle = Self::from_secrets(
            &identity_secret,
            &signed_prekey_secret,
            &ephemeral_prekey_secret,
        );
        assert(bundle.made_from(
            identity_secret@,
            signed_prekey_secret@,
            ephemeral_prekey_secret@,
        ));
        bundle
    }
}

} // verus!
