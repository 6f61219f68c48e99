//! Text of the render progress bar.
//!
//! A monitor thread periodically reads the shared count of completed rows
//! and redraws a fixed-width bar; the filled prefix grows in proportion to
//! the count.  The bar's text is computed here; the polling loop and the
//! writes to the diagnostic stream stay with the caller.

use vstd::prelude::*;

verus! {

/// Number of filled cells of a `len`-cell bar after `progress` of `max`
/// rows are done.
pub open spec fn bar_fill(progress: u32, max: u32, len: u32) -> int {
    len as int * progress as int / max as int
}

/// The bar's cells: the filled prefix as `#`, the rest blank.
pub fn progress_bar(progress: u32, max: u32, len: u32) -> (r: Vec<char>)
    requires
        max > 0,
    ensures
        r@.len() == len,
        forall|i: int|
            0 <= i < len ==> r@[i] == (if i < bar_fill(progress, max, len) {
                '#'
            } else {
                ' '
            }),
{
    proof {
        assert(len as int * progress as int <= u64::MAX) by (nonlinear_arith)
            requires
                len <= u32::MAX && progress <= u32::MAX,
        ;
    }
    let fill: u64 = len as u64 * progress as u64 / max as u64;
    let mut r: Vec<char> = Vec::new();
    let mut i: u32 = 0;
    while i < len
        invariant
            i <= len,
            fill == bar_fill(progress, max, len),
            r@.len() == i,
            forall|j: int|
                0 <= j < i ==> r@[j] == (if j < bar_fill(progress, max, len) {
                    '#'
                } else {
                    ' '
                }),
        decreases len - i,
    {
        if (i as u64) < fill {
            r.push('#');
        } else {
            r.push(' ');
        }
        i = i + 1;
    }
    r
}

} // verus!
