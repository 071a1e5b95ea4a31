//! Sharded, content-addressed storage: replication and Reed-Solomon
//! sharding, lazy recovery decisions and content identifiers.

use vstd::prelude::*;
use crate::bytes::copy_bytes;

verus! {

/// Size in bytes of one erasure-coded shard.
pub const SHARD_SIZE: usize = 1048576;

/// Largest number of shards a GF(2^8) Reed-Solomon code can hold.
pub const MAX_RS_SHARDS: usize = 256;

#[derive(Debug, Clone, Copy, PartialEq, Eq, Structural)]
pub enum StorageScheme {
    Replication,
    ReedSolomon,
    /// Minimum Storage Regenerating
    MSR,
    /// Minimum Bandwidth Regenerating
    MBR,
}

#[verifier::external_type_specification]
#[verifier::external_body]
pub struct ExReedSolomonError(reed_solomon_erasure::Error);

/// The parity shards that a Reed-Solomon code over GF(2^8) with
/// `data.len()` data shards and `parity_shards` parity shards computes
/// from the given data shards.
pub uninterp spec fn reed_solomon_parity(data: Seq<Seq<u8>>, parity_shards: nat) -> Seq<Seq<u8>>;

/// The systematic Reed-Solomon codeword of the data shards: the data
/// shards followed by their parity shards.
pub open spec fn rs_codeword(data: Seq<Seq<u8>>, parity_shards: nat) -> Seq<Seq<u8>> {
    Seq::new(data.len() + parity_shards, |i: int|
        if i < data.len() { data[i] } else { reed_solomon_parity(data, parity_shards)[i - data.len()] })
}

/// `a` and `b` hold equal shards at `count` or more common positions.
pub open spec fn agree_on_at_least(a: Seq<Seq<u8>>, b: Seq<Seq<u8>>, count: nat) -> bool {
    exists|keep: Set<int>|
        #![trigger keep.len()]
        keep.finite() && keep.len() >= count
            && forall|i: int| keep.contains(i) ==> 0 <= i < a.len() && 0 <= i < b.len() && a[i] == b[i]
}

/// Any `data.len()` shards of `codeword` pin down the data shards: other
/// data shards of the same count and size, whose codeword agrees with
/// `codeword` at that many positions, are these data shards.
pub open spec fn determines_data(codeword: Seq<Seq<u8>>, data: Seq<Seq<u8>>, parity_shards: nat) -> bool {
    forall|other: Seq<Seq<u8>>|
        other.len() == data.len()
            && (forall|i: int| 0 <= i < other.len() ==> #[trigger] other[i].len() == data[0].len())
            && #[trigger] agree_on_at_least(rs_codeword(other, parity_shards), codeword, data.len())
        ==> other == data
}

/// SHA-256 digest of `data`.
pub uninterp spec fn sha256(data: Seq<u8>) -> Seq<u8>;

/// Lowercase hexadecimal digit for a value below 16.
pub open spec fn hex_digit(n: int) -> char {
    seq!['0', '1', '2', '3', '4', '5', '6', '7', '8', '9', 'a', 'b', 'c', 'd', 'e', 'f'][n]
}

/// Lowercase hexadecimal encoding: two digits per byte, high nibble first.
pub open spec fn hex_lower(data: Seq<u8>) -> Seq<char>
    decreases data.len(),
{
    if data.len() == 0 {
        Seq::empty()
    } else {
        let b = data.last();
        hex_lower(data.drop_last()) + seq![hex_digit(b as int / 16), hex_digit(b as int % 16)]
    }
}

/// The hex encoding is twice as long as its input.
pub proof fn lemma_hex_lower_len(data: Seq<u8>)
    ensures
        hex_lower(data).len() == 2 * data.len(),
    decreases data.len(),
{
    if data.len() > 0 {
        lemma_hex_lower_len(data.drop_last());
    }
}

/// Builds a GF(2^8) Reed-Solomon codec for `data_shards` data shards and
/// `parity_shards` parity shards (`ReedSolomon::new`), then overwrites the
/// last `parity_shards` entries of `shards` with the parity of the first
/// `data_shards` entries (`ReedSolomon::encode`).
/// The sum of the two counts must fit a `usize` (`ReedSolomon::new` adds them).
/// Claimed, as both functions' source shows: the codec is refused unless both
/// counts are positive and they sum to at most 256; encoding is refused unless
/// exactly that many shards are given, all of the same non-zero length; on
/// refusal nothing is written; on success the data shards and all lengths are
/// kept and the parity shards become `reed_solomon_parity` of the data shards.
/// Also claimed, as the crate's documentation states (missing shards, data or
/// parity, up to the parity count, can be reconstructed): any `data_shards` of
/// the encoded shards determine the data shards.
#[verifier::external_body]
fn reed_solomon_encode(data_shards: usize, parity_shards: usize, shards: &mut Vec<Vec<u8>>) -> (r: Result<(), reed_solomon_erasure::Error>)
    requires
        data_shards + parity_shards <= usize::MAX,
    ensures
        r is Ok <==> {
            &&& 0 < data_shards
            &&& 0 < parity_shards
            &&& data_shards + parity_shards <= MAX_RS_SHARDS
            &&& old(shards)@.len() == data_shards + parity_shards
            &&& old(shards)@[0]@.len() > 0
            &&& forall|i: int| 0 <= i < old(shards)@.len() ==> #[trigger] old(shards)@[i]@.len() == old(shards)@[0]@.len()
        },
        r is Err ==> final(shards)@ == old(shards)@,
        r is Ok ==> {
            &&& final(shards)@.len() == old(shards)@.len()
            &&& forall|i: int| 0 <= i < old(shards)@.len() ==> #[trigger] final(shards)@[i]@.len() == old(shards)@[i]@.len()
            &&& forall|i: int| 0 <= i < data_shards ==> #[trigger] final(shards)@[i]@ == old(shards)@[i]@
            &&& forall|j: int| 0 <= j < parity_shards ==> #[trigger] final(shards)@[data_shards + j]@
                == reed_solomon_parity(byte_views(old(shards)@).take(data_shards as int), parity_shards as nat)[j]
            &&& determines_data(byte_views(final(shards)@), byte_views(old(shards)@).take(data_shards as int), parity_shards as nat)
        },
{
    match reed_solomon_erasure::galois_8::ReedSolomon::new(data_shards, parity_shards) {
        Ok(codec) => codec.encode(shards),
        Err(e) => Err(e),
    }
}

/// SHA-256 of `data` (`sha2::Sha256::digest`), as a 32-byte vector.
/// Claimed: the result is the digest named `sha256` of the input and has 32 bytes.
#[verifier::external_body]
fn sha256_digest(data: &[u8]) -> (r: Vec<u8>)
    ensures
        r@ == sha256(data@),
        r@.len() == 32,
{
    <sha2::Sha256 as sha2::Digest>::digest(data).to_vec()
}

/// Lowercase hex encoding (`hex::encode`).
/// Claimed, as its documentation states: two lowercase digits per byte,
/// most significant nibble first.
#[verifier::external_body]
fn hex_encode(data: &[u8]) -> (r: String)
    ensures
        r@ == hex_lower(data@),
{
    hex::encode(data)
}

pub struct Sharder {
    pub data_shards: usize,
    pub parity_shards: usize,
    pub scheme: StorageScheme,
}

/// The byte of `data` at `k`, or the zero padding past its end.
pub open spec fn padded_byte(data: Seq<u8>, k: int) -> u8 {
    if k < data.len() { data[k] } else { 0 }
}

/// The `data_shards` data shards of an erasure-coded object: the data,
/// zero-padded to `SHARD_SIZE * data_shards` bytes, cut into `SHARD_SIZE` chunks.
pub open spec fn data_chunks(data: Seq<u8>, data_shards: nat) -> Seq<Seq<u8>> {
    Seq::new(data_shards, |i: int| Seq::new(SHARD_SIZE as nat, |j: int| padded_byte(data, i * SHARD_SIZE + j)))
}

/// The full erasure-coded layout: data chunks followed by their parity.
pub open spec fn erasure_layout(data: Seq<u8>, data_shards: nat, parity_shards: nat) -> Seq<Seq<u8>> {
    rs_codeword(data_chunks(data, data_shards), parity_shards)
}

/// The contents of each buffer.
pub open spec fn byte_views(buffers: Seq<Vec<u8>>) -> Seq<Seq<u8>> {
    buffers.map_values(|b: Vec<u8>| b@)
}

/// `n` copies of the data.
pub open spec fn replicas(data: Seq<u8>, n: nat) -> Seq<Seq<u8>> {
    Seq::new(n, |i: int| data)
}

/// Byte `k` of data that fits in `data_shards` chunks sits in chunk
/// `k / SHARD_SIZE` at offset `k % SHARD_SIZE`.
proof fn lemma_chunk_position(k: int, data_shards: int)
    requires
        0 <= k < data_shards * SHARD_SIZE,
    ensures
        0 <= k / (SHARD_SIZE as int) < data_shards,
        0 <= k % (SHARD_SIZE as int) < SHARD_SIZE,
        (k / (SHARD_SIZE as int)) * SHARD_SIZE + k % (SHARD_SIZE as int) == k,
{
    let s = SHARD_SIZE as int;
    vstd::arithmetic::div_mod::lemma_fundamental_div_mod(k, s);
    vstd::arithmetic::div_mod::lemma_mod_pos_bound(k, s);
    vstd::arithmetic::div_mod::lemma_div_pos_is_pos(k, s);
    assert(k / s < data_shards) by (nonlinear_arith)
        requires
            k == s * (k / s) + k % s,
            0 <= k % s,
            k < data_shards * s,
            s > 0,
    {
    }
}

impl Sharder {
    pub fn new(data_shards: usize, parity_shards: usize, scheme: StorageScheme) -> (s: Self)
        ensures
            s.data_shards == data_shards,
            s.parity_shards == parity_shards,
            s.scheme == scheme,
    {
        Sharder { data_shards, parity_shards, scheme }
    }

    /// The inputs on which `shard` does its work: the replica count fits a
    /// `usize`; an erasure code needs positive shard counts of at most 256 in
    /// all, and data that fits in its data shards, so that no byte is cut off.
    pub open spec fn can_shard(&self, data_len: nat) -> bool {
        &&& self.data_shards + self.parity_shards <= usize::MAX
        &&& self.scheme != StorageScheme::Replication ==> {
            &&& 0 < self.data_shards
            &&& 0 < self.parity_shards
            &&& self.data_shards + self.parity_shards <= MAX_RS_SHARDS
            &&& data_len <= self.data_shards * SHARD_SIZE
        }
    }

    /// What `shard` produces for `data`.
    pub open spec fn shard_spec(&self, data: Seq<u8>) -> Seq<Seq<u8>> {
        if self.scheme == StorageScheme::Replication {
            replicas(data, (self.data_shards + self.parity_shards) as nat)
        } else {
            erasure_layout(data, self.data_shards as nat, self.parity_shards as nat)
        }
    }

    /// Under replication every shard is a whole copy of the data, one for
    /// each data and parity shard.
    pub proof fn lemma_replicas_are_whole_copies(&self, data: Seq<u8>)
        ensures
            self.scheme == StorageScheme::Replication ==> {
                &&& self.shard_spec(data).len() == self.data_shards + self.parity_shards
                &&& forall|i: int| 0 <= i < self.data_shards + self.parity_shards
                    ==> #[trigger] self.shard_spec(data)[i] == data
            },
    {
    }

    /// Splits `data` into shards: plain copies under replication, otherwise
    /// zero-padded `SHARD_SIZE` data chunks followed by Reed-Solomon parity.
    pub fn shard(&self, data: &[u8]) -> (shards: Vec<Vec<u8>>)
        requires
            self.can_shard(data@.len()),
        ensures
            byte_views(shards@) == self.shard_spec(data@),
            shards@.len() == self.data_shards + self.parity_shards,
            self.scheme == StorageScheme::Replication ==>
                forall|i: int| 0 <= i < shards@.len() ==> #[trigger] shards@[i]@ == data@,
            self.scheme != StorageScheme::Replication ==>
                forall|i: int| 0 <= i < shards@.len() ==> #[trigger] shards@[i]@.len() == SHARD_SIZE,
            self.scheme != StorageScheme::Replication ==> forall|k: int| 0 <= k < data@.len()
                ==> #[trigger] data@[k] == shards@[k / (SHARD_SIZE as int)]@[k % (SHARD_SIZE as int)],
            self.scheme != StorageScheme::Replication ==> forall|other: Seq<u8>|
                #[trigger] agree_on_at_least(
                    erasure_layout(other, self.data_shards as nat, self.parity_shards as nat),
                    byte_views(shards@),
                    self.data_shards as nat,
                ) ==> forall|k: int| 0 <= k < self.data_shards * SHARD_SIZE
                    ==> #[trigger] padded_byte(other, k) == padded_byte(data@, k),
    {
        let total = self.data_shards + self.parity_shards;
        if self.scheme == StorageScheme::Replication {
            let mut shards: Vec<Vec<u8>> = Vec::new();
            let mut n: usize = 0;
            while n < total
                invariant
                    n <= total,
                    shards@.len() == n,
                    forall|k: int| 0 <= k < n ==> #[trigger] shards@[k]@ == data@,
                decreases total - n,
            {
                let copy = copy_bytes(data);
                shards.push(copy);
                n = n + 1;
            }
            assert(byte_views(shards@) =~= replicas(data@, total as nat));
            proof {
                self.lemma_replicas_are_whole_copies(data@);
            }
            return shards;
        }
        let d = self.data_shards;
        let p = self.parity_shards;
        let ghost chunks = data_chunks(data@, d as nat);
        let mut shards: Vec<Vec<u8>> = Vec::new();
        let mut i: usize = 0;
        while i < d
            invariant
                i <= d,
                d <= MAX_RS_SHARDS,
                chunks == data_chunks(data@, d as nat),
                shards@.len() == i,
                forall|k: int| 0 <= k < i ==> #[trigger] shards@[k]@ == chunks[k],
                forall|k: int| 0 <= k < i ==> #[trigger] shards@[k]@.len() == SHARD_SIZE,
            decreases d - i,
        {
            let chunk = padded_chunk(data, i);
            shards.push(chunk);
            i = i + 1;
        }
        let mut j: usize = 0;
        while j < p
            invariant
                j <= p,
                d + p <= MAX_RS_SHARDS,
                shards@.len() == d + j,
                forall|k: int| 0 <= k < d ==> #[trigger] shards@[k]@ == chunks[k],
                forall|k: int| 0 <= k < shards@.len() ==> #[trigger] shards@[k]@.len() == SHARD_SIZE,
                chunks == data_chunks(data@, d as nat),
            decreases p - j,
        {
            let parity = vec![0u8; SHARD_SIZE];
            shards.push(parity);
            j = j + 1;
        }
        assert(shards@[0]@.len() == SHARD_SIZE);
        assert(byte_views(shards@).take(d as int) =~= chunks);
        let r = reed_solomon_encode(d, p, &mut shards);
        assert(r is Ok);
        assert(forall|k: int| 0 <= k < shards@.len() ==> #[trigger] shards@[k]@.len() == SHARD_SIZE);
        let ghost layout = erasure_layout(data@, d as nat, p as nat);
        assert forall|k: int| d <= k < d + p implies #[trigger] shards@[k]@ == layout[k] by {
            let jj = k - d;
            assert(shards@[d + jj]@ == reed_solomon_parity(chunks, p as nat)[jj]);
        }
        assert(byte_views(shards@) =~= layout);
        assert forall|k: int| 0 <= k < data@.len() implies #[trigger] data@[k]
            == shards@[k / (SHARD_SIZE as int)]@[k % (SHARD_SIZE as int)] by {
            lemma_chunk_position(k, d as int);
            let c = k / (SHARD_SIZE as int);
            assert(shards@[c]@ == chunks[c]);
        }
        assert forall|other: Seq<u8>|
            #[trigger] agree_on_at_least(erasure_layout(other, d as nat, p as nat), byte_views(shards@), d as nat)
            implies forall|k: int| 0 <= k < d * SHARD_SIZE
                ==> #[trigger] padded_byte(other, k) == padded_byte(data@, k) by {
            let other_chunks = data_chunks(other, d as nat);
            assert(chunks.len() == d);
            assert(chunks[0].len() == SHARD_SIZE);
            assert(other_chunks == chunks);
            assert forall|k: int| 0 <= k < d * SHARD_SIZE
                implies #[trigger] padded_byte(other, k) == padded_byte(data@, k) by {
                lemma_chunk_position(k, d as int);
                let c = k / (SHARD_SIZE as int);
                let o = k % (SHARD_SIZE as int);
                assert(other_chunks[c][o] == padded_byte(other, c * SHARD_SIZE + o));
                assert(chunks[c][o] == padded_byte(data@, c * SHARD_SIZE + o));
            }
        }
        shards
    }

    /// Lazy recovery: repair at once when redundancy fell below the minimum,
    /// otherwise only once the node has been offline past the transient threshold.
    pub fn should_trigger_repair(
        &self,
        offline_duration_secs: u64,
        transient_threshold_secs: u64,
        current_redundancy: usize,
        min_required_redundancy: usize,
    ) -> (repair: bool)
        ensures
            repair == (current_redundancy < min_required_redundancy
                || offline_duration_secs >= transient_threshold_secs),
    {
        if current_redundancy < min_required_redundancy {
            return true;
        }
        offline_duration_secs >= transient_threshold_secs
    }

    /// Content identifier: lowercase hex of the SHA-256 digest of the data.
    pub fn compute_cid(data: &[u8]) -> (cid: String)
        ensures
            cid@ == hex_lower(sha256(data@)),
            cid@.len() == 64,
    {
        let digest = sha256_digest(data);
        let cid = hex_encode(digest.as_slice());
        proof {
            lemma_hex_lower_len(digest@);
        }
        cid
    }
}

/// Chunk `index` of the data zero-padded to whole shards.
fn padded_chunk(data: &[u8], index: usize) -> (chunk: Vec<u8>)
    requires
        index < MAX_RS_SHARDS,
    ensures
        chunk@ == Seq::new(SHARD_SIZE as nat, |j: int| padded_byte(data@, index * SHARD_SIZE + j)),
{
    let start: usize = index * SHARD_SIZE;
    let mut chunk: Vec<u8> = Vec::new();
    let mut j: usize = 0;
    while j < SHARD_SIZE
        invariant
            start == index * SHARD_SIZE,
            index < MAX_RS_SHARDS,
            j <= SHARD_SIZE,
            chunk@.len() == j,
            forall|k: int| 0 <= k < j ==> #[trigger] chunk@[k] == padded_byte(data@, start + k),
        decreases SHARD_SIZE - j,
    {
        let pos = start + j;
        let b: u8 = if pos < data.len() { data[pos] } else { 0 };
        chunk.push(b);
        j = j + 1;
    }
    assert(chunk@ =~= Seq::new(SHARD_SIZE as nat, |j: int| padded_byte(data@, index * SHARD_SIZE + j)));
    chunk
}

} // verus!
