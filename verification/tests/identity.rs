use gossip_transport::identity::{Identity, SECRET_KEY_LENGTH};
use libp2p::identity::{Keypair, PublicKey};

#[test]
fn created_identity_has_the_peer_id_of_its_public_key() {
    let identity = Identity::create();
    assert_eq!(identity.secret_key().len(), SECRET_KEY_LENGTH);
    let pair = Keypair::ed25519_from_bytes(identity.secret_key().clone()).unwrap();
    assert_eq!(identity.public_key(), &pair.public().encode_protobuf());
    let key = PublicKey::try_decode_protobuf(identity.public_key()).unwrap();
    assert_eq!(key, pair.public());
    assert_eq!(
        identity.peer_id().as_bytes(),
        &libp2p::PeerId::from_public_key(&key).to_bytes()
    );
    assert_ne!(identity.peer_id().as_bytes(), identity.public_key());
    assert_ne!(identity.public_key(), identity.secret_key());
}

#[test]
fn created_identities_differ() {
    let one = Identity::create();
    let two = Identity::create();
    assert_ne!(one.secret_key(), two.secret_key());
    assert_ne!(one.peer_id(), two.peer_id());
    assert_ne!(one.public_key(), two.public_key());
}

#[test]
fn identity_of_a_given_secret_is_stable() {
    let one = Identity::from_secret(vec![7u8; 32]).unwrap();
    let two = Identity::from_secret(vec![7u8; 32]).unwrap();
    assert_eq!(one.secret_key(), &vec![7u8; 32]);
    assert_eq!(one.peer_id(), two.peer_id());
    assert_eq!(one.public_key(), two.public_key());
    let other = Identity::from_secret(vec![8u8; 32]).unwrap();
    assert_ne!(one.peer_id(), other.peer_id());

    // An Ed25519 key is short enough to be carried in the identifier itself.
    let public_key = one.public_key().clone();
    assert_eq!(public_key.len(), 36);
    assert_eq!(&public_key[..4], &[0x08, 0x01, 0x12, 0x20]);
    let mut expected = vec![0x00, 0x24];
    expected.extend_from_slice(&public_key);
    assert_eq!(one.peer_id().as_bytes(), &expected);
}

#[test]
fn secret_must_have_the_length_of_a_key() {
    assert!(Identity::from_secret(Vec::new()).is_none());
    assert!(Identity::from_secret(vec![1u8; 31]).is_none());
    assert!(Identity::from_secret(vec![1u8; 33]).is_none());
    assert!(Identity::from_secret(vec![1u8; 64]).is_none());
    assert!(Identity::from_secret(vec![0u8; 32]).is_some());
    assert!(Identity::from_secret(vec![255u8; 32]).is_some());
}
