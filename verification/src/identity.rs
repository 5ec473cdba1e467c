//! The identity of the local peer: the secret key made at startup, the public
//! key that belongs to it, and the peer identifier that follows from the
//! public key.

use libp2p::identity::ed25519::SecretKey;
use libp2p::identity::{Keypair, PublicKey};
use vstd::prelude::*;
use crate::peer::PeerId;

verus! {

/// The length of an Ed25519 secret key in bytes.
pub const SECRET_KEY_LENGTH: usize = 32;

/// The public key that belongs to an Ed25519 secret key, both as bytes: the
/// secret key as it is, the public key in its protobuf encoding. Bytes that
/// are no secret key have no public key.
pub uninterp spec fn public_key_of(secret: Seq<u8>) -> Option<Seq<u8>>;

/// The peer identifier that belongs to a public key, both as bytes: the key
/// in its protobuf encoding, the identifier as `libp2p::PeerId::to_bytes`
/// gives it. Bytes that encode no public key have no identifier.
pub uninterp spec fn derived_peer_id(public_key: Seq<u8>) -> Option<Seq<u8>>;

/// Calls `ed25519::SecretKey::generate`, on which `Keypair::generate_ed25519`
/// is built: it fills a secret key with the system's randomness. The claim
/// is only that a secret key has 32 bytes.
#[verifier::external_body]
fn generate_secret() -> (secret: Vec<u8>)
    ensures
        secret@.len() == SECRET_KEY_LENGTH,
{
    SecretKey::generate().as_ref().to_vec()
}

/// Calls `Keypair::ed25519_from_bytes` on a copy of the bytes, then
/// `Keypair::public` and `PublicKey::encode_protobuf`. The claims: the
/// outcome depends on the bytes alone; any 32 bytes, and nothing else, are
/// taken as a secret key; and the public key that comes out is one that
/// libp2p decodes again, so it has a peer identifier.
#[verifier::external_body]
fn public_key_from_secret(secret: &Vec<u8>) -> (key: Option<Vec<u8>>)
    ensures
        key is Some <==> secret@.len() == SECRET_KEY_LENGTH,
        key is Some <==> public_key_of(secret@) is Some,
        key matches Some(bytes) ==> public_key_of(secret@) == Some(bytes@) && derived_peer_id(
            bytes@,
        ) is Some,
{
    match Keypair::ed25519_from_bytes(secret.clone()) {
        Ok(pair) => Some(pair.public().encode_protobuf()),
        Err(_) => None,
    }
}

/// Calls `PublicKey::try_decode_protobuf` and `PeerId::from_public_key`. The
/// claim is only that the outcome depends on the bytes alone: the
/// identifier is computed from the encoded key and from nothing else, and
/// bytes that do not decode give none.
#[verifier::external_body]
fn derive_peer_id(public_key: &Vec<u8>) -> (id: Option<Vec<u8>>)
    ensures
        id is Some <==> derived_peer_id(public_key@) is Some,
        id matches Some(bytes) ==> derived_peer_id(public_key@) == Some(bytes@),
{
    match PublicKey::try_decode_protobuf(public_key) {
        Ok(key) => Some(libp2p::PeerId::from_public_key(&key).to_bytes()),
        Err(_) => None,
    }
}

/// The identity of the local peer. Nothing changes it once it is made.
pub struct Identity {
    secret: Vec<u8>,
    public_key: Vec<u8>,
    peer_id: PeerId,
}

impl Identity {
    /// The secret key.
    pub closed spec fn secret_bytes(&self) -> Seq<u8> {
        self.secret@
    }

    /// The public key, in its protobuf encoding.
    pub closed spec fn public_key_bytes(&self) -> Seq<u8> {
        self.public_key@
    }

    /// The bytes of the peer identifier.
    pub closed spec fn peer_id_bytes(&self) -> Seq<u8> {
        self.peer_id@
    }

    /// The public key is the one that belongs to the secret key, and the
    /// peer identifier is the one that belongs to the public key.
    pub open spec fn wf(&self) -> bool {
        &&& self.secret_bytes().len() == SECRET_KEY_LENGTH
        &&& public_key_of(self.secret_bytes()) == Some(self.public_key_bytes())
        &&& derived_peer_id(self.public_key_bytes()) == Some(self.peer_id_bytes())
    }

    /// The identity that belongs to the secret key `secret`. There is one
    /// exactly if `secret` has the length of a secret key.
    pub fn from_secret(secret: Vec<u8>) -> (identity: Option<Identity>)
        ensures
            identity is Some <==> secret@.len() == SECRET_KEY_LENGTH,
            identity matches Some(made) ==> made.wf() && made.secret_bytes() == secret@,
    {
        match public_key_from_secret(&secret) {
            Some(public_key) => {
                let peer_id = PeerId::new(derive_peer_id(&public_key).unwrap());
                Some(Identity { secret, public_key, peer_id })
            },
            None => None,
        }
    }

    /// Makes a fresh secret key and the identity that belongs to it.
    pub fn create() -> (identity: Identity)
        ensures
            identity.wf(),
    {
        Identity::from_secret(generate_secret()).unwrap()
    }

    /// The public peer identifier.
    pub fn peer_id(&self) -> (id: &PeerId)
        ensures
            id@ == self.peer_id_bytes(),
    {
        &self.peer_id
    }

    /// The public key, in its protobuf encoding.
    pub fn public_key(&self) -> (key: &Vec<u8>)
        ensures
            key@ == self.public_key_bytes(),
    {
        &self.public_key
    }

    /// The secret key, for the network layer that signs with it.
    pub fn secret_key(&self) -> (key: &Vec<u8>)
        ensures
            key@ == self.secret_bytes(),
    {
        &self.secret
    }
}

} // verus!
