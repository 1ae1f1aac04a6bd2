//! 64-bit perceptual fingerprints: hamming distance, the normalized
//! similarity score derived from it, and the configurable similarity
//! threshold with its validation.

use vstd::prelude::*;
use crate::types::AppError;

verus! {

/// Default similarity threshold, in permille of 1.0.
pub const DEFAULT_THRESHOLD_PERMILLE: u32 = 850;

/// Count of set bits of `x` among the `k` lowest bit positions.
pub open spec fn ones_below(x: u64, k: int) -> int
    decreases k,
{
    if k <= 0 {
        0
    } else {
        ones_below(x, k - 1) + if (x >> ((k - 1) as u64)) & 1 == 1 {
            1int
        } else {
            0int
        }
    }
}

/// Hamming distance between two 64-bit fingerprints: the number of bit
/// positions where they differ.
pub open spec fn hamming(a: u64, b: u64) -> int {
    ones_below(a ^ b, 64)
}

pub proof fn lemma_ones_below_bounds(x: u64, k: int)
    requires
        0 <= k,
    ensures
        0 <= ones_below(x, k) <= k,
    decreases k,
{
    if k > 0 {
        lemma_ones_below_bounds(x, k - 1);
    }
}

proof fn lemma_ones_below_zero(k: int)
    requires
        0 <= k,
    ensures
        ones_below(0u64, k) == 0,
    decreases k,
{
    if k > 0 {
        lemma_ones_below_zero(k - 1);
        let s = (k - 1) as u64;
        assert((0u64 >> s) & 1 == 0) by (bit_vector);
    }
}

/// Hamming distance never exceeds the fingerprint width.
pub proof fn lemma_hamming_bounds(a: u64, b: u64)
    ensures
        0 <= hamming(a, b) <= 64,
{
    lemma_ones_below_bounds(a ^ b, 64);
}

/// Hamming distance is symmetric.
pub proof fn lemma_hamming_symmetric(a: u64, b: u64)
    ensures
        hamming(a, b) == hamming(b, a),
{
    assert(a ^ b == b ^ a) by (bit_vector);
}

/// A fingerprint is at distance zero from itself.
pub proof fn lemma_hamming_self_zero(a: u64)
    ensures
        hamming(a, a) == 0,
{
    assert(a ^ a == 0u64) by (bit_vector);
    lemma_ones_below_zero(64);
}

/// Computes the hamming distance between two fingerprints.
pub fn hamming_distance(a: u64, b: u64) -> (d: u32)
    ensures
        d == hamming(a, b),
        d <= 64,
{
    let x = a ^ b;
    let mut d: u32 = 0;
    let mut k: u64 = 0;
    while k < 64
        invariant
            k <= 64,
            d == ones_below(x, k as int),
            d <= k,
        decreases 64 - k,
    {
        if (x >> k) & 1 == 1 {
            d = d + 1;
        }
        k = k + 1;
    }
    d
}

/// Normalized similarity of two fingerprints, in permille of 1.0:
/// `1 - distance / 64`, scaled by 1000 and rounded down.
pub open spec fn spec_similarity_permille(a: u64, b: u64) -> int {
    (64 - hamming(a, b)) * 1000 / 64
}

/// The similarity score of any two fingerprints lies in `[0, 1000]`
/// permille, that is in `[0.0, 1.0]`.
pub proof fn lemma_similarity_bounded(a: u64, b: u64)
    ensures
        0 <= spec_similarity_permille(a, b) <= 1000,
{
    lemma_hamming_bounds(a, b);
}

/// Computes the normalized similarity of two fingerprints in permille.
pub fn similarity_permille(a: u64, b: u64) -> (s: u32)
    ensures
        s == spec_similarity_permille(a, b),
        s <= 1000,
{
    let d = hamming_distance(a, b);
    proof {
        lemma_hamming_bounds(a, b);
    }
    (64 - d) * 1000 / 64
}

/// A similarity threshold, stored in permille of 1.0. Valid thresholds
/// lie in `[0, 1000]` permille, that is in `[0.0, 1.0]`.
#[derive(Debug, Clone, Copy, PartialEq, Eq, Structural)]
pub struct Threshold {
    pub permille: u32,
}

impl Threshold {
    pub open spec fn valid(self) -> bool {
        self.permille <= 1000
    }
}

impl Default for Threshold {
    /// The default threshold of 0.85.
    fn default() -> (t: Self)
        ensures
            t.permille == DEFAULT_THRESHOLD_PERMILLE,
            t.valid(),
    {
        Threshold { permille: DEFAULT_THRESHOLD_PERMILLE }
    }
}

/// Validates a requested similarity threshold, given in permille of 1.0.
/// Values outside `[0, 1000]` permille (outside `[0.0, 1.0]`) are rejected
/// with a validation error; everything else is accepted unchanged.
pub fn set_similarity_threshold(permille: i64) -> (r: Result<Threshold, AppError>)
    ensures
        0 <= permille <= 1000 <==> r is Ok,
        r matches Ok(t) ==> t.permille == permille && t.valid(),
        r matches Err(e) ==> e is InternalError,
{
    if permille < 0 || permille > 1000 {
        return Err(
            AppError::InternalError(
                String::from_str("similarity threshold must be between 0 and 1"),
            ),
        );
    }
    Ok(Threshold { permille: permille as u32 })
}

/// Whether two fingerprints count as similar under `t`: exactly when
/// `1 - hamming(a, b) / 64` exceeds the threshold.
pub open spec fn spec_similar(a: u64, b: u64, t: Threshold) -> bool {
    (64 - hamming(a, b)) * 1000 > 64 * t.permille
}

/// Decides similarity of two fingerprints under threshold `t`.
pub fn is_similar(a: u64, b: u64, t: Threshold) -> (r: bool)
    ensures
        r == spec_similar(a, b, t),
{
    let d = hamming_distance(a, b);
    ((64 - d) as u64) * 1000 > 64 * (t.permille as u64)
}

} // verus!
