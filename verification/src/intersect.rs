//! Root selection of the ray-sphere intersection.
//!
//! Intersecting a ray with a sphere solves a quadratic; its two roots are
//! tested against the acceptance range with the nearer root preferred.  The
//! range tests are floating-point comparisons made by the caller — and a
//! negative discriminant yields roots that are not numbers, for which every
//! comparison is false, so both tests fail and the policy reports a miss
//! with no separate discriminant check.

use vstd::prelude::*;

verus! {

/// Which root of the intersection quadratic the hit uses.
#[derive(Debug, Clone, Copy, PartialEq, Eq, Structural)]
pub enum RootChoice {
    /// The nearer root lies in the acceptance range.
    Near,
    /// Only the farther root lies in the acceptance range.
    Far,
    /// Neither root is acceptable: no hit.
    Miss,
}

/// The selection policy over the two range tests.
pub open spec fn root_decision(near_in_range: bool, far_in_range: bool) -> RootChoice {
    if near_in_range {
        RootChoice::Near
    } else if far_in_range {
        RootChoice::Far
    } else {
        RootChoice::Miss
    }
}

/// Pick the root of the intersection quadratic: the nearer root wins when
/// its range test holds, the farther one is the fallback, and a hit is
/// reported if and only if one of the two tests holds.
pub fn select_root(near_in_range: bool, far_in_range: bool) -> (r: RootChoice)
    ensures
        r == root_decision(near_in_range, far_in_range),
        r == RootChoice::Miss <==> !near_in_range && !far_in_range,
{
    if near_in_range {
        RootChoice::Near
    } else if far_in_range {
        RootChoice::Far
    } else {
        RootChoice::Miss
    }
}

} // verus!
