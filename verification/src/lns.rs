//! Librenet Name System: the DHT records that map human-readable names
//! to cryptographic addresses.

use vstd::prelude::*;
use vstd::string::StringSliceAdditionalSpecFns;

verus! {

/// A name record as stored in the DHT.
#[derive(Debug, Clone)]
pub struct LnsRecord {
    pub key: String,
    pub value: Vec<u8>,
}

/// The DHT key under which `name` is registered.
pub open spec fn lns_key(name: Seq<char>) -> Seq<char> {
    "lns:"@ + name
}

/// The DHT key for `name`: the name behind the `lns:` prefix. Registration
/// and resolution both look the name up under this key.
pub fn lns_record_key(name: &str) -> (key: String)
    ensures
        key@ == lns_key(name@),
{
    let mut key = String::from_str("lns:");
    key.append(name);
    key
}

/// The record that registers `address` (a peer id) under `name`: the
/// name's key and the UTF-8 bytes of the address.
pub fn lns_record(name: &str, address: &str) -> (record: LnsRecord)
    ensures
        record.key@ == lns_key(name@),
        record.value@ == address.spec_bytes(),
{
    let key = lns_record_key(name);
    let value = vstd::slice::slice_to_vec(address.as_bytes());
    LnsRecord { key, value }
}

/// Distinct names never share a DHT key, so a registration cannot shadow
/// another name.
pub proof fn lemma_lns_key_injective(a: Seq<char>, b: Seq<char>)
    requires
        lns_key(a) == lns_key(b),
    ensures
        a == b,
{
    let prefix = "lns:"@;
    assert((prefix + a).skip(prefix.len() as int) =~= a);
    assert((prefix + b).skip(prefix.len() as int) =~= b);
}

} // verus!
