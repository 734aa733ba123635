//! Study of cache-timing side channels against a constant-time comparison
//! primitive.
//!
//! The crate models the decision logic of a Flush+Reload style oracle engine:
//! a byte-wise comparison that, inside a hardware transaction, touches one
//! oracle page per mismatching byte, followed by latency sampling over the
//! 256 oracle pages and an argmin decoder gated by a cache-hit threshold.
//! The hardware itself (cache flushes, the transactional region, timers) is
//! driven by an unverified front end; everything that decides or computes a
//! value is here, with contracts.

use vstd::prelude::*;

pub mod arch;
pub mod decode;
pub mod fault;
pub mod jit;
pub mod perf;
pub mod tsx_memcmp;

verus! {

/// A 64-byte buffer, the unit the comparison harness operates on.
pub struct AlignedBuffer(pub [u8; 64]);

/// Accumulator of the byte-wise comparison: the bitwise OR of `a[i] ^ b[i]`
/// over the first `n` positions. Zero exactly when the prefixes agree.
pub open spec fn xor_fold(a: Seq<u8>, b: Seq<u8>, n: int) -> u8
    decreases n,
{
    if n <= 0 {
        0u8
    } else {
        xor_fold(a, b, n - 1) | (a[n - 1] ^ b[n - 1])
    }
}

/// The accumulator is zero exactly when the first `n` bytes are pairwise
/// equal: OR-ing XOR deltas loses no mismatch.
pub proof fn lemma_xor_fold_zero(a: Seq<u8>, b: Seq<u8>, n: int)
    ensures
        xor_fold(a, b, n) == 0 <==> (forall|i: int| 0 <= i < n ==> a[i] == b[i]),
    decreases n,
{
    if n > 0 {
        lemma_xor_fold_zero(a, b, n - 1);
        let x = xor_fold(a, b, n - 1);
        let l = a[n - 1];
        let r = b[n - 1];
        assert((x | (l ^ r)) == 0 <==> (x == 0 && l == r)) by (bit_vector);
    }
}

/// Law: comparing any buffer against itself yields the zero accumulator,
/// whatever the length.
pub proof fn lemma_compare_self_is_zero(a: Seq<u8>, n: int)
    ensures
        xor_fold(a, a, n) == 0,
{
    lemma_xor_fold_zero(a, a, n);
}

/// Law: a mismatch at any position within the first `n` bytes forces a
/// nonzero accumulator.
pub proof fn lemma_compare_detects_mismatch(a: Seq<u8>, b: Seq<u8>, n: int, i: int)
    requires
        0 <= i < n,
        a[i] != b[i],
    ensures
        xor_fold(a, b, n) != 0,
{
    lemma_xor_fold_zero(a, b, n);
}

/// Constant-time comparison baseline: reads all `len` bytes unconditionally
/// (no early exit) and returns the OR-accumulated XOR of the pairs, so the
/// result is zero exactly when the first `len` bytes agree.
pub fn ct_memcmp(lhs: &[u8], rhs: &[u8], len: usize) -> (r: i32)
    requires
        len <= lhs@.len(),
        len <= rhs@.len(),
    ensures
        r == xor_fold(lhs@, rhs@, len as int) as i32,
        (r == 0) <==> (forall|i: int| 0 <= i < len ==> lhs@[i] == rhs@[i]),
{
    let mut acc: u8 = 0;
    let mut i: usize = 0;
    while i < len
        invariant
            i <= len,
            len <= lhs@.len(),
            len <= rhs@.len(),
            acc == xor_fold(lhs@, rhs@, i as int),
        decreases len - i,
    {
        acc = acc | (lhs[i] ^ rhs[i]);
        i = i + 1;
    }
    proof {
        lemma_xor_fold_zero(lhs@, rhs@, len as int);
    }
    acc as i32
}

} // verus!
