//! Big-endian numbers in byte sequences, as class files store them.

use vstd::prelude::*;

verus! {

/// The unsigned 16-bit number stored big-endian at `p`.
pub open spec fn be16(b: Seq<u8>, p: int) -> u16 {
    (b[p] as int * 0x100 + b[p + 1] as int) as u16
}

/// The unsigned 32-bit number stored big-endian at `p`.
pub open spec fn be32(b: Seq<u8>, p: int) -> u32 {
    (b[p] as int * 0x100_0000 + b[p + 1] as int * 0x1_0000 + b[p + 2] as int * 0x100 + b[p
        + 3] as int) as u32
}

/// The unsigned 64-bit number stored big-endian at `p`.
pub open spec fn be64(b: Seq<u8>, p: int) -> u64 {
    (be32(b, p) as int * 0x1_0000_0000 + be32(b, p + 4) as int) as u64
}

/// Read the big-endian `u16` at `p`.
pub fn read_be16(b: &[u8], p: usize) -> (r: u16)
    requires
        p + 2 <= b.len(),
    ensures
        r == be16(b@, p as int),
{
    (b[p] as u16) * 0x100 + (b[p + 1] as u16)
}

/// Read the big-endian `u32` at `p`.
pub fn read_be32(b: &[u8], p: usize) -> (r: u32)
    requires
        p + 4 <= b.len(),
    ensures
        r == be32(b@, p as int),
{
    (b[p] as u32) * 0x100_0000 + (b[p + 1] as u32) * 0x1_0000 + (b[p + 2] as u32) * 0x100 + (b[p
        + 3] as u32)
}

/// Read the big-endian `u64` at `p`.
pub fn read_be64(b: &[u8], p: usize) -> (r: u64)
    requires
        p + 8 <= b.len(),
    ensures
        r == be64(b@, p as int),
{
    let hi = read_be32(b, p);
    let lo = read_be32(b, p + 4);
    (hi as u64) * 0x1_0000_0000 + (lo as u64)
}

/// Whether `a` and `b` hold the same bytes.
pub fn bytes_equal(a: &[u8], b: &[u8]) -> (res: bool)
    ensures
        res == (a@ == b@),
{
    if a.len() != b.len() {
        return false;
    }
    let mut i: usize = 0;
    while i < a.len()
        invariant
            i <= a.len() == b.len(),
            forall|j: int| 0 <= j < i ==> a@[j] == b@[j],
        decreases a.len() - i,
    {
        if a[i] != b[i] {
            return false;
        }
        i += 1;
    }
    proof {
        assert(a@ =~= b@);
    }
    true
}

/// Copy `b[p..p + n]` into a vector.
pub fn copy_bytes(b: &[u8], p: usize, n: usize) -> (v: Vec<u8>)
    requires
        p + n <= b.len(),
    ensures
        v@ == b@.subrange(p as int, p + n),
{
    let mut v: Vec<u8> = Vec::new();
    let mut i: usize = 0;
    while i < n
        invariant
            i <= n,
            p + n <= b.len(),
            v@ == b@.subrange(p as int, p + i),
        decreases n - i,
    {
        v.push(b[p + i]);
        proof {
            assert(b@.subrange(p as int, p + i + 1) =~= b@.subrange(p as int, p + i).push(b@[p + i]));
        }
        i += 1;
    }
    v
}

} // verus!
