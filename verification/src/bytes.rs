//! Byte-buffer helpers shared by the modules.

use vstd::prelude::*;

verus! {

/// Byte-wise equality of two buffers.
pub fn bytes_equal(a: &Vec<u8>, b: &Vec<u8>) -> (eq: bool)
    ensures
        eq == (a@ == b@),
{
    if a.len() != b.len() {
        return false;
    }
    let mut i: usize = 0;
    while i < a.len()
        invariant
            a@.len() == b@.len(),
            i <= a@.len(),
            forall|k: int| 0 <= k < i ==> a@[k] == b@[k],
        decreases a@.len() - i,
    {
        if a[i] != b[i] {
            return false;
        }
        i = i + 1;
    }
    assert(a@ =~= b@);
    true
}

/// A fresh copy of the bytes.
pub fn copy_bytes(data: &[u8]) -> (out: Vec<u8>)
    ensures
        out@ == data@,
{
    let mut out: Vec<u8> = Vec::new();
    let mut k: usize = 0;
    while k < data.len()
        invariant
            k <= data@.len(),
            out@ =~= data@.take(k as int),
        decreases data@.len() - k,
    {
        out.push(data[k]);
        k = k + 1;
        assert(out@ =~= data@.take(k as int));
    }
    assert(data@.take(data@.len() as int) =~= data@);
    out
}

/// `a` followed by `b`.
pub fn concat_bytes(a: &[u8], b: &[u8]) -> (out: Vec<u8>)
    ensures
        out@ == a@ + b@,
{
    let mut out: Vec<u8> = Vec::new();
    let mut k: usize = 0;
    while k < a.len()
        invariant
            k <= a@.len(),
            out@ =~= a@.take(k as int),
        decreases a@.len() - k,
    {
        out.push(a[k]);
        k = k + 1;
        assert(out@ =~= a@.take(k as int));
    }
    let mut m: usize = 0;
    while m < b.len()
        invariant
            k == a@.len(),
            m <= b@.len(),
            out@ =~= a@ + b@.take(m as int),
        decreases b@.len() - m,
    {
        out.push(b[m]);
        m = m + 1;
        assert(out@ =~= a@ + b@.take(m as int));
    }
    assert(b@.take(b@.len() as int) =~= b@);
    out
}

} // verus!
