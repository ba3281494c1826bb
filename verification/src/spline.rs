//! Binary search over spline point locations.
//!
//! Spline locations are single-precision values carried as bit patterns;
//! they must be non-decreasing, which the evaluator assumes rather than
//! validates.  The search finds the start of the interval holding the
//! input: the largest index whose location is at most the input, and -1
//! for an input strictly before every location, so that extrapolation
//! past the last point happens exactly when the last index comes back.

use vstd::prelude::*;
use crate::floatbits::{f32_bits_lt, f32_is_nan, f32_key, f32_lt};

verus! {

/// Locations in non-decreasing order, none of them NaN: what the spline
/// data promises and the search relies on.
pub open spec fn locations_wf(locs: Seq<u32>) -> bool {
    &&& forall|i: int| 0 <= i < locs.len() ==> !f32_is_nan(#[trigger] locs[i])
    &&& forall|i: int, j: int|
        0 <= i < j < locs.len() ==> f32_key(#[trigger] locs[i]) <= f32_key(#[trigger] locs[j])
}

/// Finds the interval start: the largest `i` with `locations[i] <=
/// input`, or -1 when the input is strictly before all locations.
pub fn find_interval(locations: &Vec<u32>, input: u32) -> (r: i32)
    requires
        locations_wf(locations@),
        locations@.len() < 0x7FFF_FFFF,
    ensures
        -1 <= r < locations@.len(),
        forall|i: int| 0 <= i <= r ==> !f32_lt(input, #[trigger] locations@[i]),
        forall|i: int| r < i < locations@.len() ==> f32_lt(input, #[trigger] locations@[i]),
{
    let n = locations.len();
    let mut lo: usize = 0;
    let mut hi: usize = n;
    while lo < hi
        invariant
            locations_wf(locations@),
            n == locations@.len(),
            n < 0x7FFF_FFFF,
            0 <= lo <= hi <= n,
            forall|i: int| 0 <= i < lo ==> !f32_lt(input, #[trigger] locations@[i]),
            forall|i: int| hi <= i < n ==> f32_lt(input, #[trigger] locations@[i]),
        decreases hi - lo,
    {
        let mid = lo + (hi - lo) / 2;
        if f32_bits_lt(input, locations[mid]) {
            proof {
                assert forall|i: int| mid <= i < n implies f32_lt(
                    input,
                    #[trigger] locations@[i],
                ) by {
                    assert(f32_key(locations@[mid as int]) <= f32_key(locations@[i]));
                }
            }
            hi = mid;
        } else {
            proof {
                assert forall|i: int| 0 <= i < mid + 1 implies !f32_lt(
                    input,
                    #[trigger] locations@[i],
                ) by {
                    assert(f32_key(locations@[i]) <= f32_key(locations@[mid as int]));
                }
            }
            lo = mid + 1;
        }
    }
    (lo as i32) - 1
}

} // verus!
