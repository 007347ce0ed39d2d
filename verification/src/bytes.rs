//! Big-endian integer fields of the wire format: reading them out of a
//! byte buffer and writing them back, with the round-trip facts the codec
//! proofs rest on.

use vstd::prelude::*;

verus! {

/// 256 to the power `n`.
pub open spec fn pow256(n: nat) -> int
    decreases n,
{
    if n == 0 {
        1
    } else {
        256 * pow256((n - 1) as nat)
    }
}

/// The big-endian value of the `n` bytes of `b` starting at `i`.
pub open spec fn be_uint(b: Seq<u8>, i: int, n: nat) -> nat
    recommends
        0 <= i,
        i + n <= b.len(),
    decreases n,
{
    if n == 0 {
        0
    } else {
        be_uint(b, i, (n - 1) as nat) * 256 + (b[i + n - 1] as nat)
    }
}

/// The `n` low-order bytes of `v`, big-endian.
pub open spec fn be_bytes(v: int, n: nat) -> Seq<u8>
    recommends
        0 <= v,
    decreases n,
{
    if n == 0 {
        Seq::empty()
    } else {
        be_bytes(v / 256, (n - 1) as nat).push((v % 256) as u8)
    }
}

/// The powers of 256 the codec uses.
pub proof fn lemma_pow256_values()
    ensures
        pow256(0) == 1,
        pow256(1) == 0x100,
        pow256(2) == 0x10000,
        pow256(3) == 0x1000000,
        pow256(4) == 0x100000000,
        pow256(5) == 0x10000000000,
        pow256(6) == 0x1000000000000,
        pow256(7) == 0x100000000000000,
        pow256(8) == 0x10000000000000000,
{
}

/// A big-endian field is bounded by 256 to its width.
pub proof fn lemma_be_uint_bound(b: Seq<u8>, i: int, n: nat)
    requires
        0 <= i,
        i + n <= b.len(),
    ensures
        0 <= be_uint(b, i, n) < pow256(n),
    decreases n,
{
    if n > 0 {
        lemma_be_uint_bound(b, i, (n - 1) as nat);
    }
}

/// A big-endian field depends only on the bytes it covers.
pub proof fn lemma_be_uint_eq(b1: Seq<u8>, i1: int, b2: Seq<u8>, i2: int, n: nat)
    requires
        0 <= i1,
        i1 + n <= b1.len(),
        0 <= i2,
        i2 + n <= b2.len(),
        forall|k: int| 0 <= k < n ==> #[trigger] b1[i1 + k] == b2[i2 + k],
    ensures
        be_uint(b1, i1, n) == be_uint(b2, i2, n),
    decreases n,
{
    if n > 0 {
        lemma_be_uint_eq(b1, i1, b2, i2, (n - 1) as nat);
    }
}

/// Writing a value and reading it back gives the value, for values that fit
/// the width.
pub proof fn lemma_be_bytes_round_trip(v: int, n: nat)
    requires
        0 <= v < pow256(n),
    ensures
        be_bytes(v, n).len() == n,
        be_uint(be_bytes(v, n), 0, n) == v,
    decreases n,
{
    if n > 0 {
        lemma_be_bytes_round_trip(v / 256, (n - 1) as nat);
        let s = be_bytes(v, n);
        let s1 = be_bytes(v / 256, (n - 1) as nat);
        assert(forall|k: int| 0 <= k < (n - 1) as nat ==> #[trigger] s[0 + k] == s1[0 + k]);
        lemma_be_uint_eq(s, 0, s1, 0, (n - 1) as nat);
        assert(s[0 + (n - 1)] == (v % 256) as u8);
    }
}

/// Reads the two-byte big-endian field at `i`.
pub fn read_be_u16(b: &[u8], i: usize) -> (r: u16)
    requires
        i + 2 <= b@.len(),
    ensures
        r == be_uint(b@, i as int, 2),
{
    let l = b.len();
    assert(i + 2 <= l);
    let hi = *vstd::slice::slice_index_get(b, i);
    let lo = *vstd::slice::slice_index_get(b, i + 1);
    assert(be_uint(b@, i as int, 0) == 0);
    assert(be_uint(b@, i as int, 1) == b@[i as int]);
    assert(be_uint(b@, i as int, 2) == b@[i as int] * 256 + b@[i as int + 1]);
    (hi as u16) * 256 + (lo as u16)
}

/// Reads the three-byte big-endian field at `i`.
pub fn read_be_u24(b: &[u8], i: usize) -> (r: u32)
    requires
        i + 3 <= b@.len(),
    ensures
        r == be_uint(b@, i as int, 3),
        r < 0x1000000,
{
    let l = b.len();
    assert(i + 3 <= l);
    let b0 = *vstd::slice::slice_index_get(b, i);
    let b1 = *vstd::slice::slice_index_get(b, i + 1);
    let b2 = *vstd::slice::slice_index_get(b, i + 2);
    assert(be_uint(b@, i as int, 0) == 0);
    assert(be_uint(b@, i as int, 1) == b@[i as int]);
    assert(be_uint(b@, i as int, 2) == b@[i as int] * 256 + b@[i as int + 1]);
    assert(be_uint(b@, i as int, 3) == be_uint(b@, i as int, 2) * 256 + b@[i as int + 2]);
    (b0 as u32) * 0x10000 + (b1 as u32) * 0x100 + (b2 as u32)
}

/// Reads the eight-byte big-endian field at `i`.
pub fn read_be_u64(b: &[u8], i: usize) -> (r: u64)
    requires
        i + 8 <= b@.len(),
    ensures
        r == be_uint(b@, i as int, 8),
{
    let l = b.len();
    assert(i + 8 <= l);
    let mut r: u64 = 0;
    let mut k: usize = 0;
    proof {
        lemma_pow256_values();
    }
    while k < 8
        invariant
            k <= 8,
            i + 8 <= b@.len(),
            i + 8 <= usize::MAX,
            r == be_uint(b@, i as int, k as nat),
            r < pow256(k as nat),
            pow256(8) == 0x10000000000000000,
        decreases 8 - k,
    {
        proof {
            lemma_pow256_values();
            lemma_be_uint_bound(b@, i as int, k as nat);
        }
        let byte = *vstd::slice::slice_index_get(b, i + k);
        r = r * 256 + (byte as u64);
        k = k + 1;
    }
    r
}

/// Appends the `n` low-order bytes of `v`, big-endian.
pub fn push_be(out: &mut Vec<u8>, v: u64, n: usize)
    ensures
        final(out)@ == old(out)@ + be_bytes(v as int, n as nat),
    decreases n,
{
    if n == 0 {
        assert(final(out)@ =~= old(out)@ + be_bytes(v as int, 0));
    } else {
        push_be(out, v / 256, n - 1);
        out.push((v % 256) as u8);
        assert(final(out)@ =~= old(out)@ + be_bytes(v as int, n as nat));
    }
}

} // verus!
