//! The background aggregator's verified pieces: a saturating sum for the
//! running total, and the threshold comparison for the ambient indicator.
//! The tick itself — walk, filter, size, add — is shell glue beside the
//! scan controller's, composed entirely of the contracted functions here
//! and in the scan and sizer modules.

use vstd::prelude::*;

verus! {

use crate::sizer::clamp_u64;

/// The sum of the values.
pub open spec fn sum_u64s(vs: Seq<u64>) -> int
    decreases vs.len(),
{
    if vs.len() == 0 {
        0
    } else {
        sum_u64s(vs.drop_last()) + vs.last() as int
    }
}

proof fn lemma_sum_u64s_nonneg(vs: Seq<u64>)
    ensures
        sum_u64s(vs) >= 0,
    decreases vs.len(),
{
    if vs.len() > 0 {
        lemma_sum_u64s_nonneg(vs.drop_last());
    }
}

/// Adds the values up, saturating at `u64::MAX`.
pub fn saturating_sum(values: &Vec<u64>) -> (r: u64)
    ensures
        r == clamp_u64(sum_u64s(values@)),
{
    let mut total: u64 = 0;
    let mut i: usize = 0;
    while i < values.len()
        invariant
            i <= values.len(),
            total == clamp_u64(sum_u64s(values@.subrange(0, i as int))),
        decreases values.len() - i,
    {
        proof {
            assert(values@.subrange(0, i + 1).drop_last() =~= values@.subrange(0, i as int));
            assert(values@.subrange(0, i + 1).last() == values@[i as int]);
            lemma_sum_u64s_nonneg(values@.subrange(0, i as int));
        }
        let v = values[i];
        if v <= u64::MAX - total {
            total = total + v;
        } else {
            total = u64::MAX;
        }
        i = i + 1;
    }
    proof {
        assert(values@.subrange(0, values@.len() as int) =~= values@);
    }
    total
}

/// Whether the aggregated size exceeds the configured threshold.
pub fn exceeds_threshold(total_size: u64, threshold: u64) -> (r: bool)
    ensures
        r == (total_size > threshold),
{
    total_size > threshold
}

} // verus!
