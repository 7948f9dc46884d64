//! The identity of a device: an Ed25519 key pair whose secret half never
//! leaves it.

use rand::rngs::OsRng;
use vstd::prelude::*;

use crate::digest;
use crate::digest::fingerprint_of_bytes;
use crate::protocol::copy_range;

verus! {

/// The length of a secret and of a public key.
pub const KEY_LEN: usize = 32;

/// The Ed25519 public key that belongs to a secret.
pub uninterp spec fn public_half(secret: Seq<u8>) -> Seq<u8>;

/// `SigningKey::from_bytes`, then `verifying_key` and `to_bytes`: the public
/// key of a 32-byte secret, 32 bytes too.
#[verifier::external_body]
fn public_key(secret: &Vec<u8>) -> (key: Vec<u8>)
    requires
        secret@.len() == KEY_LEN,
    ensures
        key@ == public_half(secret@),
        key@.len() == KEY_LEN,
{
    let secret: [u8; 32] = secret.as_slice().try_into().expect("secret length");
    ed25519_dalek::SigningKey::from_bytes(&secret).verifying_key().to_bytes().to_vec()
}

/// `SigningKey::generate` with the randomness of the operating system: any 32
/// bytes.
#[verifier::external_body]
fn random_secret() -> (secret: Vec<u8>)
    ensures
        secret@.len() == KEY_LEN,
{
    ed25519_dalek::SigningKey::generate(&mut OsRng).to_bytes().to_vec()
}

/// The identity of a device.
pub struct Identity {
    secret: Vec<u8>,
}

impl View for Identity {
    type V = Seq<u8>;

    /// The secret.
    closed spec fn view(&self) -> Seq<u8> {
        self.secret@
    }
}

impl Identity {
    #[verifier::type_invariant]
    spec fn inv(self) -> bool {
        self.secret@.len() == KEY_LEN
    }

    /// A new identity.
    pub fn generate() -> (id: Self)
        ensures
            id@.len() == KEY_LEN,
    {
        Identity { secret: random_secret() }
    }

    /// The identity that a file holds: its first 32 bytes. A shorter file
    /// holds none.
    pub fn from_bytes(data: &[u8]) -> (id: Option<Self>)
        ensures
            id is Some <==> data@.len() >= KEY_LEN,
            id matches Some(i) ==> i@ == data@.subrange(0, KEY_LEN as int),
    {
        if data.len() < KEY_LEN {
            return None;
        }
        Some(Identity { secret: copy_range(data, 0, KEY_LEN) })
    }

    /// What a file holds of the identity: the secret.
    pub fn to_bytes(&self) -> (data: Vec<u8>)
        ensures
            data@ == self@,
            data@.len() == KEY_LEN,
    {
        proof {
            use_type_invariant(self);
        }
        vstd::slice::slice_to_vec(self.secret.as_slice())
    }

    /// The public key.
    pub fn pubkey(&self) -> (key: Vec<u8>)
        ensures
            key@ == public_half(self@),
            key@.len() == KEY_LEN,
    {
        proof {
            use_type_invariant(self);
        }
        public_key(&self.secret)
    }

    /// The short fingerprint of the public key.
    pub fn fingerprint(&self) -> (s: String)
        ensures
            s@ == digest::short_fingerprint(public_half(self@)),
            s@.len() == 16,
            forall|i: int| 0 <= i < 16 ==> digest::is_hex_digit(#[trigger] s@[i]),
    {
        let key = self.pubkey();
        fingerprint_of_bytes(key.as_slice())
    }
}

} // verus!
