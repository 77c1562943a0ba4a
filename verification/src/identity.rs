//! The identity provider: a freshly generated signing keypair and the node
//! identifier derived from its public key by a fixed rule. The identifier is
//! deterministic in the public key, so it is stable for the process lifetime
//! and represents the keypair.

use vstd::prelude::*;

verus! {

/// The fixed derivation of a node identifier from the protobuf encoding of
/// a public key. The rule (a multihash over the encoded key) is carried out
/// by the outside library; here it is only named, as a function of the key
/// bytes alone.
pub uninterp spec fn node_id_of(pk: Seq<u8>) -> Seq<u8>;

/// Whether a byte string is a valid protobuf encoding of a public key —
/// whether the outside library's decoder accepts it. A function of the
/// bytes alone.
pub uninterp spec fn pk_decodes(pk: Seq<u8>) -> bool;

/// The encoded public key belonging to an encoded private keypair: what
/// rebuilding the keypair from its encoding and re-encoding its public half
/// yields. A function of the keypair bytes alone.
pub uninterp spec fn public_of(sk: Seq<u8>) -> Seq<u8>;

/// Why identity generation failed. Fatal and startup-only: without an
/// identity the node cannot authenticate any connection.
#[derive(Clone, Copy, Debug, PartialEq, Eq, Structural)]
pub enum IdentityError {
    KeyGeneration,
}

/// A node's identity: the encoded private signing key, the encoded public
/// key, and the identifier derived from the public key. Generated once at
/// startup and never mutated.
pub struct Identity {
    pub secret: Vec<u8>,
    pub public_key: Vec<u8>,
    pub node_id: Vec<u8>,
}

impl Identity {
    /// The three parts belong together: the identifier is the one derived
    /// from the public key, the public key is the one belonging to the
    /// private keypair — so the node can authenticate as the identity it
    /// advertises — and the public key's encoding is itself decodable.
    pub open spec fn wf(self) -> bool {
        &&& self.node_id@ == node_id_of(self.public_key@)
        &&& self.public_key@ == public_of(self.secret@)
        &&& pk_decodes(self.public_key@)
    }
}

/// Relies on libp2p_identity::Keypair::generate_ed25519 for the keypair,
/// Keypair::to_protobuf_encoding and PublicKey::encode_protobuf for the
/// encodings, and PeerId::from_public_key for the identifier, which is a
/// multihash computed from the encoded public key alone. Both encodings
/// round-trip through the library's decoders: Keypair::from_protobuf_encoding
/// rebuilds the keypair whose public half re-encodes to the returned key
/// bytes, and PublicKey::try_decode_protobuf accepts its own encoder's
/// output.
#[verifier::external_body]
fn generate_raw() -> (r: Option<(Vec<u8>, Vec<u8>, Vec<u8>)>)
    ensures
        r matches Some(t) ==> t.2@ == node_id_of(t.1@) && t.1@ == public_of(t.0@) && pk_decodes(
            t.1@,
        ),
{
    let keypair = libp2p::identity::Keypair::generate_ed25519();
    let public = keypair.public();
    let peer = libp2p::PeerId::from_public_key(&public);
    match keypair.to_protobuf_encoding() {
        Ok(secret) => Some((secret, public.encode_protobuf(), peer.to_bytes())),
        Err(_) => None,
    }
}

/// Relies on libp2p_identity::PublicKey::try_decode_protobuf, whose success
/// depends on the input bytes alone, and PeerId::from_public_key: decoding
/// inverts the protobuf encoding, and the derived identifier is a function
/// of the encoded public key alone.
#[verifier::external_body]
fn derive_raw(pk: &Vec<u8>) -> (r: Option<Vec<u8>>)
    ensures
        r is Some <==> pk_decodes(pk@),
        r matches Some(id) ==> id@ == node_id_of(pk@),
{
    match libp2p::identity::PublicKey::try_decode_protobuf(pk.as_slice()) {
        Ok(public) => Some(libp2p::PeerId::from_public_key(&public).to_bytes()),
        Err(_) => None,
    }
}

/// Generate a fresh identity: a keypair and the identifier derived from its
/// public key. Fails only if the outside key generation or encoding fails.
pub fn generate() -> (r: Result<Identity, IdentityError>)
    ensures
        r matches Ok(id) ==> id.wf(),
{
    match generate_raw() {
        Some((secret, public_key, node_id)) => Ok(Identity { secret, public_key, node_id }),
        None => Err(IdentityError::KeyGeneration),
    }
}

/// Derive the node identifier for an encoded public key. Returns an
/// identifier exactly when the bytes are a valid public key encoding — in
/// particular for the key of every well-formed identity — and any
/// identifier returned is the one fixed derivation of those bytes.
pub fn derive_node_id(pk: &Vec<u8>) -> (r: Option<Vec<u8>>)
    ensures
        r is Some <==> pk_decodes(pk@),
        r matches Some(id) ==> id@ == node_id_of(pk@),
{
    derive_raw(pk)
}

/// Byte-for-byte comparison of two identifiers (or any two byte strings).
pub fn bytes_eq(a: &Vec<u8>, b: &Vec<u8>) -> (r: bool)
    ensures
        r == (a@ == b@),
{
    if a.len() != b.len() {
        return false;
    }
    let mut i: usize = 0;
    while i < a.len()
        invariant
            i <= a@.len(),
            a@.len() == b@.len(),
            forall|j: int| 0 <= j < i ==> a@[j] == b@[j],
        decreases a@.len() - i,
    {
        if a[i] != b[i] {
            return false;
        }
        i += 1;
    }
    proof {
        assert(a@ =~= b@);
    }
    true
}

/// Law: the derived node identifier is a deterministic function of the
/// public key — two well-formed identities over the same public key carry
/// the same identifier, however and whenever each was produced.
pub proof fn lemma_same_key_same_id(a: Identity, b: Identity)
    requires
        a.wf(),
        b.wf(),
        a.public_key@ == b.public_key@,
    ensures
        a.node_id@ == b.node_id@,
{
}

} // verus!
