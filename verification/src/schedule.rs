//! Row-band partition of the image across worker threads.
//!
//! The renderer splits the image's rows into one contiguous band per worker:
//! every worker but the last gets `height / workers` rows, and the last one
//! also takes the remainder.

use vstd::prelude::*;
use vstd::arithmetic::mul::lemma_mul_inequality;
use vstd::arithmetic::div_mod::lemma_fundamental_div_mod;
use vstd::arithmetic::div_mod::lemma_mod_bound;

verus! {

/// First row of worker `k`'s band when `max` rows are split over `t` workers.
pub open spec fn band_start(max: u32, k: int, t: int) -> int {
    (max as int / t) * k
}

/// One past the last row of worker `k`'s band; the last worker's band runs to
/// the end of the image.
pub open spec fn band_end(max: u32, k: int, t: int) -> int {
    if k == t - 1 {
        max as int
    } else {
        (max as int / t) * (k + 1)
    }
}

/// Number of rows in worker `k`'s band.
pub open spec fn band_size(max: u32, k: int, t: int) -> int {
    band_end(max, k, t) - band_start(max, k, t)
}

/// `(max / t) * m` stays within `max` whenever `m <= t`; this bounds every
/// band edge and rules out overflow in the edge computations.
proof fn lemma_band_edge_bound(max: u32, m: int, t: int)
    requires
        t > 0,
        0 <= m <= t,
    ensures
        0 <= (max as int / t) * m <= max,
{
    let q = max as int / t;
    lemma_fundamental_div_mod(max as int, t);
    lemma_mod_bound(max as int, t);
    lemma_mul_inequality(m, t, q);
    assert(q * m == m * q) by (nonlinear_arith);
    assert(q * t == t * q) by (nonlinear_arith);
    assert(m * q >= 0) by (nonlinear_arith)
        requires
            m >= 0 && q >= 0,
    ;
}

/// The contiguous range of rows that worker `curr_thread` out of
/// `tot_threads` renders, as a half-open `(start, end)` pair.
pub fn thread_partition(max: u32, curr_thread: u32, tot_threads: u32) -> (r: (u32, u32))
    requires
        tot_threads > 0,
        curr_thread < tot_threads,
    ensures
        r.0 == band_start(max, curr_thread as int, tot_threads as int),
        r.1 == band_end(max, curr_thread as int, tot_threads as int),
{
    let per_thread: u32 = max / tot_threads;
    proof {
        lemma_band_edge_bound(max, curr_thread as int, tot_threads as int);
        lemma_band_edge_bound(max, curr_thread as int + 1, tot_threads as int);
    }
    if curr_thread != tot_threads - 1 {
        (per_thread * curr_thread, per_thread * (curr_thread + 1))
    } else {
        (per_thread * curr_thread, max)
    }
}

/// Shape of the partition: bands start at row `0`, are contiguous (each one
/// begins where the previous one ends), end at row `max`, and every band but
/// the last holds exactly `max / t` rows while the last also takes the
/// remainder `max % t`.
pub proof fn lemma_band_layout(max: u32, t: int)
    requires
        t > 0,
    ensures
        band_start(max, 0, t) == 0,
        band_end(max, t - 1, t) == max,
        forall|k: int| 0 <= k < t - 1 ==> band_end(max, k, t) == band_start(max, k + 1, t),
        forall|k: int| 0 <= k < t - 1 ==> band_size(max, k, t) == max as int / t,
        band_size(max, t - 1, t) == max as int / t + max as int % t,
        forall|k: int| 0 <= k < t ==> band_start(max, k, t) <= band_end(max, k, t),
{
    let q = max as int / t;
    lemma_fundamental_div_mod(max as int, t);
    lemma_mod_bound(max as int, t);
    assert(q * 0 == 0) by (nonlinear_arith);
    assert forall|k: int| 0 <= k < t - 1 implies band_size(max, k, t) == q by {
        assert(q * (k + 1) == q * k + q) by (nonlinear_arith);
    }
    assert(band_size(max, t - 1, t) == q + max as int % t) by {
        assert(q * (t - 1) == t * q - q) by (nonlinear_arith);
    }
    assert forall|k: int| 0 <= k < t implies band_start(max, k, t) <= band_end(max, k, t) by {
        if k < t - 1 {
            assert(q * (k + 1) == q * k + q) by (nonlinear_arith);
        } else {
            lemma_band_edge_bound(max, k, t);
        }
    }
}

/// Every image row lies in exactly one worker's band: the bands' union is
/// the whole row range and no two bands overlap.
pub proof fn lemma_row_in_one_band(max: u32, t: int, row: int)
    requires
        t > 0,
        0 <= row < max,
    ensures
        exists|k: int|
            0 <= k < t && #[trigger] band_start(max, k, t) <= row < band_end(max, k, t),
        forall|k1: int, k2: int|
            0 <= k1 < t && 0 <= k2 < t
                && #[trigger] band_start(max, k1, t) <= row < band_end(max, k1, t)
                && #[trigger] band_start(max, k2, t) <= row < band_end(max, k2, t) ==> k1 == k2,
{
    let q = max as int / t;
    lemma_fundamental_div_mod(max as int, t);
    lemma_mod_bound(max as int, t);
    // Existence: the band holding `row` is `row / q`, capped at the last one.
    if q == 0 {
        let k = t - 1;
        assert(q * k == 0) by (nonlinear_arith)
            requires
                q == 0,
        ;
        assert(band_start(max, k, t) <= row < band_end(max, k, t));
    } else {
        lemma_fundamental_div_mod(row, q);
        lemma_mod_bound(row, q);
        let d = row / q;
        assert(q * d <= row);
        vstd::arithmetic::div_mod::lemma_div_pos_is_pos(row, q);
        if d < t - 1 {
            assert(row < q * d + q);
            assert(q * d + q == q * (d + 1)) by (nonlinear_arith);
            assert(band_start(max, d, t) <= row < band_end(max, d, t));
        } else {
            let k = t - 1;
            lemma_mul_inequality(k, d, q);
            assert(q * k == k * q && q * d == d * q) by (nonlinear_arith);
            assert(band_start(max, k, t) <= row < band_end(max, k, t));
        }
    }
    // Uniqueness: bands are ordered, so two distinct bands cannot share a row.
    assert forall|k1: int, k2: int|
        0 <= k1 < t && 0 <= k2 < t
            && #[trigger] band_start(max, k1, t) <= row < band_end(max, k1, t)
            && #[trigger] band_start(max, k2, t) <= row < band_end(max, k2, t) implies k1 == k2 by {
        if k1 < k2 {
            lemma_band_below_band(max, t, k1, k2);
        }
        if k2 < k1 {
            lemma_band_below_band(max, t, k2, k1);
        }
    }
}

/// A band that comes earlier ends no later than a later band starts.
proof fn lemma_band_below_band(max: u32, t: int, k1: int, k2: int)
    requires
        t > 0,
        0 <= k1 < k2 < t,
    ensures
        band_end(max, k1, t) <= band_start(max, k2, t),
{
    let q = max as int / t;
    lemma_fundamental_div_mod(max as int, t);
    lemma_mod_bound(max as int, t);
    assert(q >= 0) by (nonlinear_arith)
        requires
            t > 0 && max as int >= 0 && max as int == t * q + max as int % t && max as int % t < t,
    ;
    lemma_mul_inequality(k1 + 1, k2, q);
    assert(q * (k1 + 1) == (k1 + 1) * q && q * k2 == k2 * q) by (nonlinear_arith);
}

/// When the row count divides almost evenly (remainder at most one row), all
/// band sizes agree to within a single row.
pub proof fn lemma_band_sizes_near_equal(max: u32, t: int)
    requires
        t > 0,
        max as int % t <= 1,
    ensures
        forall|k1: int, k2: int|
            0 <= k1 < t && 0 <= k2 < t
                ==> -1 <= #[trigger] band_size(max, k1, t) - #[trigger] band_size(max, k2, t) <= 1,
{
    lemma_band_layout(max, t);
}

} // verus!
