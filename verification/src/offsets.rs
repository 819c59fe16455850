//! Key offsets of a ring input, and the absolute output indices they stand for.
//!
//! On the wire an input names its ring members by differences: the first
//! offset is an index, every later one the distance from the member before.

use crate::error::ResolveError;
use vstd::prelude::*;

verus! {

/// The sum of the first `n` offsets. The absolute index of the ring member
/// at position `i` is the sum of the first `i + 1`.
pub open spec fn prefix_sum(offsets: Seq<u64>, n: int) -> int
    decreases n,
{
    if n <= 0 {
        0
    } else {
        prefix_sum(offsets, n - 1) + offsets[n - 1]
    }
}

/// Whether every absolute index fits 64 bits.
pub open spec fn indices_fit(offsets: Seq<u64>) -> bool {
    prefix_sum(offsets, offsets.len() as int) <= u64::MAX
}

/// A longer prefix never sums to less.
pub proof fn lemma_prefix_sum_grows(offsets: Seq<u64>, m: int, n: int)
    requires
        0 <= m <= n,
    ensures
        0 <= prefix_sum(offsets, m) <= prefix_sum(offsets, n),
    decreases n,
{
    if m < n {
        lemma_prefix_sum_grows(offsets, m, n - 1);
    } else if 0 < n {
        lemma_prefix_sum_grows(offsets, m - 1, n - 1);
    }
}

/// Turns relative key offsets into absolute output indices, left to right.
///
/// The result has one index per offset, in the same order. Where a sum would
/// leave the 64-bit range nothing is decoded.
pub fn decode_offsets(offsets: &[u64]) -> (r: Result<Vec<u64>, ResolveError>)
    ensures
        r is Ok <==> indices_fit(offsets@),
        r matches Ok(indices) ==> {
            &&& indices@.len() == offsets@.len()
            &&& forall|i: int|
                0 <= i < indices@.len() ==> #[trigger] indices@[i] == prefix_sum(offsets@, i + 1)
        },
        r matches Err(e) ==> e == ResolveError::ArithmeticOverflow,
{
    let mut indices: Vec<u64> = Vec::new();
    let mut sum: u64 = 0;
    let mut i: usize = 0;
    while i < offsets.len()
        invariant
            i <= offsets.len(),
            indices.len() == i,
            sum == prefix_sum(offsets@, i as int),
            forall|k: int| 0 <= k < i ==> indices[k] == prefix_sum(offsets@, k + 1),
        decreases offsets.len() - i,
    {
        match sum.checked_add(offsets[i]) {
            Some(next) => {
                sum = next;
                indices.push(sum);
            },
            None => {
                proof {
                    lemma_prefix_sum_grows(offsets@, i + 1, offsets.len() as int);
                }
                return Err(ResolveError::ArithmeticOverflow);
            },
        }
        i += 1;
    }
    Ok(indices)
}

} // verus!
