use p2p_core::identity::{bytes_eq, derive_node_id, generate};

#[test]
fn generated_identity_is_well_formed() {
    let id = generate().expect("key generation failed");
    assert!(!id.secret.is_empty());
    assert!(!id.public_key.is_empty());
    assert!(!id.node_id.is_empty());
    // The identifier that generation reported really is the fixed derivation
    // of the public key: deriving again from the key bytes gives the same.
    let derived = derive_node_id(&id.public_key).expect("valid key must derive");
    assert_eq!(derived, id.node_id);
}

#[test]
fn secret_key_carries_the_advertised_public_key() {
    // Rebuilding the keypair from the reported secret yields exactly the
    // reported public key: the node can authenticate as the identity it
    // advertises.
    let id = generate().expect("key generation failed");
    let keypair = libp2p::identity::Keypair::from_protobuf_encoding(&id.secret)
        .expect("generated secret must decode");
    assert_eq!(keypair.public().encode_protobuf(), id.public_key);
}

#[test]
fn node_id_is_deterministic_in_the_public_key() {
    let id = generate().expect("key generation failed");
    let first = derive_node_id(&id.public_key).expect("valid key must derive");
    let second = derive_node_id(&id.public_key).expect("valid key must derive");
    assert_eq!(first, second);
}

#[test]
fn distinct_keys_give_distinct_node_ids() {
    let a = generate().expect("key generation failed");
    let b = generate().expect("key generation failed");
    assert_ne!(a.public_key, b.public_key);
    assert_ne!(a.node_id, b.node_id);
}

#[test]
fn node_id_differs_from_the_key_bytes() {
    // The derivation wraps the key in a multihash: it does not hand the
    // encoded key back unchanged.
    let id = generate().expect("key generation failed");
    assert_ne!(id.node_id, id.public_key);
}

#[test]
fn invalid_key_bytes_do_not_derive() {
    let garbage: Vec<u8> = vec![0xff, 0x00, 0x17, 0x2a];
    assert!(derive_node_id(&garbage).is_none());
}

#[test]
fn bytes_eq_compares_contents() {
    assert!(bytes_eq(&vec![], &vec![]));
    assert!(bytes_eq(&vec![1, 2, 3], &vec![1, 2, 3]));
    assert!(!bytes_eq(&vec![1, 2, 3], &vec![1, 2, 4]));
    assert!(!bytes_eq(&vec![1, 2, 3], &vec![1, 2]));
}
