//! Garlic routing: a payload wrapped in one AES-256-GCM layer per hop,
//! each layer prefixed by its nonce, peeled hop by hop.

use vstd::prelude::*;
use crate::bytes::concat_bytes;
use aes_gcm::KeyInit;
use aes_gcm::aead::Aead;
use rand::RngCore;

verus! {

/// Length of the nonce that prefixes every layer.
pub const NONCE_LEN: usize = 12;

/// Length of the authentication tag that AES-256-GCM appends.
pub const TAG_LEN: usize = 16;

/// Bytes that one layer adds: nonce and tag.
pub const LAYER_OVERHEAD: usize = 28;

/// Longest plaintext that AES-256-GCM accepts (2^36 bytes).
pub const MAX_PLAINTEXT: u64 = 68719476736;

/// A routed packet: the next hop (a peer id) and the still-wrapped payload.
#[derive(Debug, Clone)]
pub struct GarlicPacket {
    pub next_hop: Option<String>,
    pub payload: Vec<u8>,
}

/// Why a layer could not be peeled.
#[derive(Debug, Clone, Copy, PartialEq, Eq, Structural)]
pub enum GarlicError {
    /// The payload cannot even hold a nonce.
    PayloadTooShort,
    /// Authentication failed: wrong key or tampered layer.
    DecryptionFailed,
}

#[verifier::external_type_specification]
#[verifier::external_body]
pub struct ExAeadError(aes_gcm::Error);

/// AES-256-GCM ciphertext (with its appended tag) of `plaintext` under
/// `key` and `nonce`, with no associated data.
pub uninterp spec fn aes256gcm_seal(key: Seq<u8>, nonce: Seq<u8>, plaintext: Seq<u8>) -> Seq<u8>;

/// AES-256-GCM decryption of `ciphertext` under `key` and `nonce`: the
/// plaintext when the tag authenticates, `None` otherwise.
pub uninterp spec fn aes256gcm_open(key: Seq<u8>, nonce: Seq<u8>, ciphertext: Seq<u8>) -> Option<Seq<u8>>;

/// Fresh nonce bytes from the thread-local generator
/// (`rand::rngs::ThreadRng::fill_bytes`). Nothing is claimed of their value.
#[verifier::external_body]
fn random_nonce() -> (nonce: [u8; 12]) {
    let mut nonce = [0u8; 12];
    rand::thread_rng().fill_bytes(&mut nonce);
    nonce
}

/// AES-256-GCM encryption (`Aes256Gcm::new` on the key, then `Aead::encrypt`).
/// Claimed, as the source of aes-gcm and aead shows: it fails exactly when
/// the plaintext is longer than 2^36 bytes; otherwise the result is the
/// ciphertext named `aes256gcm_seal`, 16 bytes longer than the plaintext,
/// and decrypting it under the same key and nonce gives the plaintext back.
#[verifier::external_body]
fn aes256gcm_encrypt(key: &[u8; 32], nonce: &[u8], plaintext: &[u8]) -> (r: Result<Vec<u8>, aes_gcm::Error>)
    requires
        nonce@.len() == NONCE_LEN,
    ensures
        r is Ok <==> plaintext@.len() <= MAX_PLAINTEXT,
        r matches Ok(c) ==> {
            &&& c@ == aes256gcm_seal(key@, nonce@, plaintext@)
            &&& c@.len() == plaintext@.len() + TAG_LEN
            &&& aes256gcm_open(key@, nonce@, c@) == Some(plaintext@)
        },
{
    let cipher = aes_gcm::Aes256Gcm::new(aes_gcm::Key::<aes_gcm::Aes256Gcm>::from_slice(key));
    cipher.encrypt(aes_gcm::Nonce::from_slice(nonce), plaintext)
}

/// AES-256-GCM decryption (`Aes256Gcm::new` on the key, then `Aead::decrypt`).
/// Claimed: it succeeds exactly when `aes256gcm_open` gives a plaintext, and
/// then returns that plaintext.
#[verifier::external_body]
fn aes256gcm_decrypt(key: &[u8; 32], nonce: &[u8], ciphertext: &[u8]) -> (r: Result<Vec<u8>, aes_gcm::Error>)
    requires
        nonce@.len() == NONCE_LEN,
    ensures
        r is Ok <==> aes256gcm_open(key@, nonce@, ciphertext@) is Some,
        r matches Ok(p) ==> aes256gcm_open(key@, nonce@, ciphertext@) == Some(p@),
{
    let cipher = aes_gcm::Aes256Gcm::new(aes_gcm::Key::<aes_gcm::Aes256Gcm>::from_slice(key));
    cipher.decrypt(aes_gcm::Nonce::from_slice(nonce), ciphertext)
}

/// One layer peeled with `key`: the nonce is the first 12 bytes, the rest
/// is the ciphertext.
pub open spec fn unwrap_layer(payload: Seq<u8>, key: Seq<u8>) -> Result<Seq<u8>, GarlicError> {
    if payload.len() < NONCE_LEN {
        Err(GarlicError::PayloadTooShort)
    } else {
        match aes256gcm_open(key, payload.take(NONCE_LEN as int), payload.skip(NONCE_LEN as int)) {
            Some(plain) => Ok(plain),
            None => Err(GarlicError::DecryptionFailed),
        }
    }
}

/// All layers peeled, with the keys in hop order.
pub open spec fn unwrap_all(payload: Seq<u8>, keys: Seq<Seq<u8>>) -> Result<Seq<u8>, GarlicError>
    decreases keys.len(),
{
    if keys.len() == 0 {
        Ok(payload)
    } else {
        match unwrap_layer(payload, keys[0]) {
            Ok(inner) => unwrap_all(inner, keys.drop_first()),
            Err(e) => Err(e),
        }
    }
}

/// Peeling a fully peelable payload one hop at a time: the first key
/// opens the outer layer, and what it reveals peels with the remaining keys
/// to the same payload.
pub proof fn lemma_peel_one_hop(wrapped: Seq<u8>, keys: Seq<Seq<u8>>, payload: Seq<u8>)
    requires
        keys.len() > 0,
        unwrap_all(wrapped, keys) == Ok::<Seq<u8>, GarlicError>(payload),
    ensures
        unwrap_layer(wrapped, keys[0]) is Ok,
        unwrap_all(unwrap_layer(wrapped, keys[0])->Ok_0, keys.drop_first()) == Ok::<Seq<u8>, GarlicError>(payload),
{
}

/// What is left after peeling the first `n` layers, one `unwrap` per hop
/// with the keys in hop order, or the first error.
pub open spec fn peel_layers(wrapped: Seq<u8>, keys: Seq<Seq<u8>>, n: nat) -> Result<Seq<u8>, GarlicError>
    decreases n,
{
    if n == 0 {
        Ok(wrapped)
    } else {
        match peel_layers(wrapped, keys, (n - 1) as nat) {
            Ok(inner) => unwrap_layer(inner, keys[n - 1]),
            Err(e) => Err(e),
        }
    }
}

/// Peeling a route hop by hop: when the whole route peels to `payload`,
/// each of the first `n` single-layer peels succeeds, what remains peels
/// with the rest of the keys to `payload`, and after the last hop what
/// remains is `payload` itself.
pub proof fn lemma_peel_chain(wrapped: Seq<u8>, keys: Seq<Seq<u8>>, payload: Seq<u8>, n: nat)
    requires
        n <= keys.len(),
        unwrap_all(wrapped, keys) == Ok::<Seq<u8>, GarlicError>(payload),
    ensures
        peel_layers(wrapped, keys, n) is Ok,
        unwrap_all(peel_layers(wrapped, keys, n)->Ok_0, keys.skip(n as int)) == Ok::<Seq<u8>, GarlicError>(payload),
        n == keys.len() ==> peel_layers(wrapped, keys, n) == Ok::<Seq<u8>, GarlicError>(payload),
    decreases n,
{
    if n == 0 {
        assert(keys.skip(0) =~= keys);
    } else {
        lemma_peel_chain(wrapped, keys, payload, (n - 1) as nat);
        let rest = keys.skip(n - 1);
        let inner = peel_layers(wrapped, keys, (n - 1) as nat)->Ok_0;
        lemma_peel_one_hop(inner, rest, payload);
        assert(rest[0] == keys[n - 1]);
        assert(rest.drop_first() =~= keys.skip(n as int));
    }
    if n == keys.len() {
        assert(keys.skip(n as int) =~= Seq::<Seq<u8>>::empty());
    }
}

/// The payload wrapped with the keys and nonces in hop order: nothing for
/// no hops; otherwise the first nonce, then the first key's encryption of the
/// payload wrapped for the remaining hops.
pub open spec fn layered(payload: Seq<u8>, keys: Seq<Seq<u8>>, nonces: Seq<Seq<u8>>) -> Seq<u8>
    decreases keys.len(),
{
    if keys.len() == 0 {
        payload
    } else {
        nonces[0] + aes256gcm_seal(keys[0], nonces[0], layered(payload, keys.drop_first(), nonces.drop_first()))
    }
}

/// The byte contents of the layer nonces.
pub open spec fn nonce_views(nonces: Seq<[u8; 12]>) -> Seq<Seq<u8>> {
    nonces.map_values(|n: [u8; 12]| n@)
}

/// The byte contents of the hop keys.
pub open spec fn key_views(hops: Seq<[u8; 32]>) -> Seq<Seq<u8>> {
    hops.map_values(|k: [u8; 32]| k@)
}

/// The payload sizes that `wrap` can encrypt: every layer's plaintext,
/// the largest being the outermost, stays within the AES-GCM limit.
pub open spec fn can_wrap(payload_len: nat, hop_count: nat) -> bool {
    hop_count == 0 || payload_len + LAYER_OVERHEAD * (hop_count - 1) <= MAX_PLAINTEXT
}

impl GarlicPacket {
    /// Wraps `payload` in one encryption layer per hop, the last hop's
    /// innermost, so that peeling with the hop keys in order recovers it.
    /// Each layer gets a freshly drawn nonce.
    pub fn wrap(payload: Vec<u8>, hops: Vec<[u8; 32]>) -> (wrapped: Vec<u8>)
        requires
            can_wrap(payload@.len(), hops@.len()),
        ensures
            exists|nonces: Seq<Seq<u8>>|
                #![trigger layered(payload@, key_views(hops@), nonces)]
                nonces.len() == hops@.len()
                    && (forall|k: int| 0 <= k < nonces.len() ==> #[trigger] nonces[k].len() == NONCE_LEN)
                    && wrapped@ == layered(payload@, key_views(hops@), nonces),
            unwrap_all(wrapped@, key_views(hops@)) == Ok::<Seq<u8>, GarlicError>(payload@),
            wrapped@.len() == payload@.len() + LAYER_OVERHEAD * hops@.len(),
    {
        let mut nonces: Vec<[u8; 12]> = Vec::new();
        let mut k: usize = 0;
        while k < hops.len()
            invariant
                k <= hops@.len(),
                nonces@.len() == k,
            decreases hops@.len() - k,
        {
            nonces.push(random_nonce());
            k = k + 1;
        }
        let ghost drawn = nonce_views(nonces@);
        let wrapped = Self::wrap_with_nonces(payload, hops, nonces);
        assert(forall|k: int| 0 <= k < drawn.len() ==> #[trigger] drawn[k].len() == NONCE_LEN);
        wrapped
    }

    /// Wraps `payload` in one encryption layer per hop, the last hop's
    /// innermost, layer `i` encrypted under hop key `i` with nonce `i`; each
    /// layer is its nonce followed by the ciphertext of the layer inside it.
    pub fn wrap_with_nonces(payload: Vec<u8>, hops: Vec<[u8; 32]>, nonces: Vec<[u8; 12]>) -> (wrapped: Vec<u8>)
        requires
            nonces@.len() == hops@.len(),
            can_wrap(payload@.len(), hops@.len()),
        ensures
            wrapped@ == layered(payload@, key_views(hops@), nonce_views(nonces@)),
            unwrap_all(wrapped@, key_views(hops@)) == Ok::<Seq<u8>, GarlicError>(payload@),
            wrapped@.len() == payload@.len() + LAYER_OVERHEAD * hops@.len(),
    {
        let ghost keys = key_views(hops@);
        let ghost ivs = nonce_views(nonces@);
        let ghost original = payload@;
        let mut current = payload;
        let mut i: usize = hops.len();
        assert(keys.skip(i as int) =~= Seq::<Seq<u8>>::empty());
        while i > 0
            invariant
                i <= hops@.len(),
                nonces@.len() == hops@.len(),
                keys == key_views(hops@),
                ivs == nonce_views(nonces@),
                can_wrap(original.len(), hops@.len()),
                current@.len() == original.len() + LAYER_OVERHEAD * (hops@.len() - i),
                current@ == layered(original, keys.skip(i as int), ivs.skip(i as int)),
                unwrap_all(current@, keys.skip(i as int)) == Ok::<Seq<u8>, GarlicError>(original),
            decreases i,
        {
            let key = &hops[i - 1];
            let nonce = &nonces[i - 1];
            let encrypted = aes256gcm_encrypt(key, nonce.as_slice(), current.as_slice());
            let sealed = match encrypted {
                Ok(c) => c,
                Err(_) => {
                    assert(false);
                    Vec::new()
                },
            };
            let layer = concat_bytes(nonce.as_slice(), sealed.as_slice());
            proof {
                assert(layer@.take(NONCE_LEN as int) =~= nonce@);
                assert(layer@.skip(NONCE_LEN as int) =~= sealed@);
                assert(keys[i - 1] == key@);
                assert(ivs[i - 1] == nonce@);
                assert(unwrap_layer(layer@, keys[i - 1]) == Ok::<Seq<u8>, GarlicError>(current@));
                assert(keys.skip(i - 1).drop_first() =~= keys.skip(i as int));
                assert(keys.skip(i - 1)[0] == keys[i - 1]);
                assert(ivs.skip(i - 1).drop_first() =~= ivs.skip(i as int));
                assert(ivs.skip(i - 1)[0] == ivs[i - 1]);
                assert(layer@ == layered(original, keys.skip(i - 1), ivs.skip(i - 1)));
            }
            current = layer;
            i = i - 1;
        }
        assert(keys.skip(0) =~= keys);
        assert(ivs.skip(0) =~= ivs);
        current
    }

    /// Peels one layer with `key_bytes`.
    pub fn unwrap(payload: &[u8], key_bytes: &[u8; 32]) -> (r: Result<Vec<u8>, GarlicError>)
        ensures
            match r {
                Ok(inner) => unwrap_layer(payload@, key_bytes@) == Ok::<Seq<u8>, GarlicError>(inner@),
                Err(e) => unwrap_layer(payload@, key_bytes@) == Err::<Seq<u8>, GarlicError>(e),
            },
    {
        if payload.len() < NONCE_LEN {
            return Err(GarlicError::PayloadTooShort);
        }
        let nonce = vstd::slice::slice_subrange(payload, 0, NONCE_LEN);
        let ciphertext = vstd::slice::slice_subrange(payload, NONCE_LEN, payload.len());
        assert(nonce@ =~= payload@.take(NONCE_LEN as int));
        assert(ciphertext@ =~= payload@.skip(NONCE_LEN as int));
        match aes256gcm_decrypt(key_bytes, nonce, ciphertext) {
            Ok(plain) => Ok(plain),
            Err(_) => Err(GarlicError::DecryptionFailed),
        }
    }
}

} // verus!
