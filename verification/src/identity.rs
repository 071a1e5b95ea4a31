//! Peer identities: an ed25519 key pair and the peer's role in the
//! hierarchical DHT.

use vstd::prelude::*;
use rand::RngCore;

verus! {

#[verifier::external_type_specification]
#[verifier::external_body]
pub struct ExSigningKey(ed25519_dalek::SigningKey);

#[verifier::external_type_specification]
#[verifier::external_body]
pub struct ExVerifyingKey(ed25519_dalek::VerifyingKey);

/// `SigningKey::clone` (derived): claimed to give back the same key, as the
/// field-wise derived impl does.
pub assume_specification[ <ed25519_dalek::SigningKey as Clone>::clone ](key: &ed25519_dalek::SigningKey) -> (copy: ed25519_dalek::SigningKey)
    ensures
        copy == *key,
;

/// `VerifyingKey::clone` (derived): claimed to give back the same key, as the
/// field-wise derived impl does.
pub assume_specification[ <ed25519_dalek::VerifyingKey as Clone>::clone ](key: &ed25519_dalek::VerifyingKey) -> (copy: ed25519_dalek::VerifyingKey)
    ensures
        copy == *key,
;

/// The signing key whose secret is `seed` (`SigningKey::from_bytes`).
pub uninterp spec fn ed25519_signing_key(seed: Seq<u8>) -> ed25519_dalek::SigningKey;

/// The secret bytes of a signing key (`SigningKey::to_bytes`).
pub uninterp spec fn ed25519_secret(key: ed25519_dalek::SigningKey) -> Seq<u8>;

/// The public half of a signing key (`VerifyingKey::from(&SigningKey)`).
pub uninterp spec fn ed25519_verifying_key(key: ed25519_dalek::SigningKey) -> ed25519_dalek::VerifyingKey;

/// Role of a peer in the hierarchical DHT.
#[derive(Debug, Clone, Copy, PartialEq, Eq, Structural)]
pub enum NodeType {
    Supernode,
    OrdinaryNode,
}

/// A peer's identity in the mesh.
#[derive(Debug, Clone)]
pub struct PeerIdentity {
    pub signing_key: ed25519_dalek::SigningKey,
    pub verifying_key: ed25519_dalek::VerifyingKey,
    pub node_type: NodeType,
}

/// 32 bytes from the operating system's generator
/// (`rand::rngs::OsRng::fill_bytes`). Nothing is claimed of their value.
#[verifier::external_body]
fn os_random_seed() -> (seed: [u8; 32]) {
    let mut seed = [0u8; 32];
    rand::rngs::OsRng.fill_bytes(&mut seed);
    seed
}

/// The signing key whose secret is `seed` (`SigningKey::from_bytes`).
/// Claimed, as the source shows (the key stores the seed as its secret and
/// `to_bytes` returns it): the key is `ed25519_signing_key` of the seed and
/// its secret is the seed.
#[verifier::external_body]
fn signing_key_from_seed(seed: &[u8; 32]) -> (key: ed25519_dalek::SigningKey)
    ensures
        key == ed25519_signing_key(seed@),
        ed25519_secret(key) == seed@,
{
    ed25519_dalek::SigningKey::from_bytes(seed)
}

/// The public half of a signing key (`VerifyingKey::from(&SigningKey)`).
/// Claimed: the result is `ed25519_verifying_key` of the key.
#[verifier::external_body]
fn verifying_key_of(key: &ed25519_dalek::SigningKey) -> (public: ed25519_dalek::VerifyingKey)
    ensures
        public == ed25519_verifying_key(*key),
{
    ed25519_dalek::VerifyingKey::from(key)
}

/// The 32 secret bytes of a signing key (`SigningKey::to_bytes`).
/// Claimed: they are `ed25519_secret` of the key.
#[verifier::external_body]
fn signing_key_bytes(key: &ed25519_dalek::SigningKey) -> (seed: [u8; 32])
    ensures
        seed@ == ed25519_secret(*key),
{
    key.to_bytes()
}

impl PeerIdentity {
    /// The signing key was made from a 32-byte seed (its secret), and the
    /// verifying key is that signing key's public half.
    pub open spec fn keys_match(&self) -> bool {
        &&& ed25519_secret(self.signing_key).len() == 32
        &&& self.signing_key == ed25519_signing_key(ed25519_secret(self.signing_key))
        &&& self.verifying_key == ed25519_verifying_key(self.signing_key)
    }

    /// A fresh identity for an ordinary node.
    pub fn generate() -> (id: Self)
        ensures
            id.node_type == NodeType::OrdinaryNode,
            id.keys_match(),
    {
        Self::new_with_type(NodeType::OrdinaryNode)
    }

    /// A fresh identity with the given role, its keys made from a seed drawn
    /// from the operating system's generator.
    pub fn new_with_type(node_type: NodeType) -> (id: Self)
        ensures
            id.node_type == node_type,
            id.keys_match(),
    {
        let seed = os_random_seed();
        Self::from_seed(seed, node_type)
    }

    /// The identity with the given role whose signing key is made from
    /// `seed`, with that key's public half as verifying key.
    pub fn from_seed(seed: [u8; 32], node_type: NodeType) -> (id: Self)
        ensures
            id.node_type == node_type,
            id.signing_key == ed25519_signing_key(seed@),
            ed25519_secret(id.signing_key) == seed@,
            id.verifying_key == ed25519_verifying_key(id.signing_key),
            id.keys_match(),
    {
        let signing_key = signing_key_from_seed(&seed);
        let verifying_key = verifying_key_of(&signing_key);
        PeerIdentity { signing_key, verifying_key, node_type }
    }

    /// The secret seed of the identity's signing key: for a generated
    /// identity, the seed its signing key was made from.
    pub fn to_seed(&self) -> (seed: [u8; 32])
        ensures
            seed@ == ed25519_secret(self.signing_key),
            self.keys_match() ==> self.signing_key == ed25519_signing_key(seed@),
    {
        signing_key_bytes(&self.signing_key)
    }
}

} // verus!
