//! Trash bookkeeping: aggregating the sizes of the files found in the
//! trash directory into the stats reported to the caller. Reading the
//! directory is the caller's concern; this module only accumulates.

use vstd::prelude::*;
use crate::types::TrashStats;

verus! {

/// Saturating sum of a size list: adding stops at the largest
/// representable value instead of wrapping.
pub open spec fn spec_sum_sat(sizes: Seq<u64>) -> u64
    decreases sizes.len(),
{
    if sizes.len() == 0 {
        0u64
    } else {
        let rest = spec_sum_sat(sizes.drop_last());
        if rest + sizes.last() > u64::MAX {
            u64::MAX
        } else {
            (rest + sizes.last()) as u64
        }
    }
}

/// Aggregates the byte sizes of the trashed files into the stats the
/// caller reports: their saturating sum, and how many there are (capped
/// at the largest representable count).
pub fn trash_stats(sizes: &Vec<u64>) -> (stats: TrashStats)
    ensures
        stats.freed_bytes == spec_sum_sat(sizes@),
        stats.count == if sizes@.len() <= u32::MAX {
            sizes@.len() as u32
        } else {
            u32::MAX
        },
{
    let mut total: u64 = 0;
    let mut count: u32 = 0;
    let mut idx: usize = 0;
    while idx < sizes.len()
        invariant
            idx <= sizes@.len(),
            total == spec_sum_sat(sizes@.subrange(0, idx as int)),
            count == if idx <= u32::MAX {
                idx as u32
            } else {
                u32::MAX
            },
        decreases sizes@.len() - idx,
    {
        let s = sizes[idx];
        proof {
            assert(sizes@.subrange(0, idx + 1).drop_last() =~= sizes@.subrange(0, idx as int));
            assert(sizes@.subrange(0, idx + 1).last() == sizes@[idx as int]);
        }
        if s <= u64::MAX - total {
            total = total + s;
        } else {
            total = u64::MAX;
        }
        if count < u32::MAX {
            count = count + 1;
        }
        idx = idx + 1;
    }
    proof {
        assert(sizes@.subrange(0, sizes@.len() as int) =~= sizes@);
    }
    TrashStats { freed_bytes: total, count: count }
}

} // verus!
