//! Reassembly of the workers' outputs into one image.
//!
//! Each worker returns the pixels of its row band in row-major order; the
//! bands joined in band order then list the pixels of the whole image in
//! row-major order, which `lemma_bands_row_major` proves from the band
//! layout of `crate::schedule`.

use vstd::prelude::*;
use vstd::arithmetic::div_mod::lemma_fundamental_div_mod;
use vstd::arithmetic::div_mod::lemma_fundamental_div_mod_converse_div;
use vstd::arithmetic::div_mod::lemma_fundamental_div_mod_converse_mod;
use vstd::arithmetic::div_mod::lemma_mod_bound;
use vstd::arithmetic::div_mod::lemma_div_pos_is_pos;
use crate::schedule::band_size;
use crate::schedule::band_start;

verus! {

/// The per-band sequences, as one joined sequence in band order.
pub open spec fn joined<T>(bands: Seq<Seq<T>>) -> Seq<T> {
    bands.flatten()
}

/// Join the workers' outputs in band order.
pub fn concat_bands<T: Copy>(bands: &Vec<Vec<T>>) -> (r: Vec<T>)
    ensures
        r@ == joined(bands@.map_values(|b: Vec<T>| b@)),
{
    let ghost views = bands@.map_values(|b: Vec<T>| b@);
    let mut r: Vec<T> = Vec::new();
    assert(r@ =~= views.take(0).flatten());
    let mut i: usize = 0;
    while i < bands.len()
        invariant
            i <= bands@.len(),
            views == bands@.map_values(|b: Vec<T>| b@),
            r@ == views.take(i as int).flatten(),
        decreases bands@.len() - i,
    {
        let band = &bands[i];
        let ghost joined_before = r@;
        let mut j: usize = 0;
        while j < band.len()
            invariant
                j <= band@.len(),
                r@ == joined_before + band@.take(j as int),
            decreases band@.len() - j,
        {
            r.push(band[j]);
            assert(r@ =~= joined_before + band@.take(j as int + 1));
            j = j + 1;
        }
        proof {
            assert(band@.take(band@.len() as int) =~= band@);
            views.take(i as int).lemma_flatten_push(band@);
            assert(views.take(i as int + 1) =~= views.take(i as int).push(views[i as int]));
            assert(r@ =~= views.take(i as int + 1).flatten());
        }
        i = i + 1;
    }
    proof {
        assert(views.take(views.len() as int) =~= views);
    }
    r
}

/// Row `k` bands end at: the first row of band `k`, or the whole row count
/// once every band is taken.
spec fn edge(height: u32, k: int, t: int) -> int {
    if k < t {
        band_start(height, k, t)
    } else {
        height as int
    }
}

/// Induction core of `lemma_bands_row_major`: the first `k` bands joined
/// cover exactly the rows below edge `k`, in row-major order.
proof fn lemma_prefix_row_major<T>(
    bands: Seq<Seq<T>>,
    width: u32,
    height: u32,
    t: int,
    pixel: spec_fn(int, int) -> T,
    k: int,
)
    requires
        t > 0,
        width > 0,
        bands.len() == t,
        0 <= k <= t,
        forall|n: int|
            0 <= n < t ==> (#[trigger] bands[n]).len() == width as int * band_size(height, n, t),
        forall|n: int, m: int|
            0 <= n < t && 0 <= m < bands[n].len() ==> #[trigger] bands[n][m] == pixel(
                band_start(height, n, t) + m / (width as int),
                m % (width as int),
            ),
    ensures
        bands.take(k).flatten().len() == width as int * edge(height, k, t),
        forall|g: int|
            0 <= g < width as int * edge(height, k, t) ==> #[trigger] bands.take(k).flatten()[g]
                == pixel(g / (width as int), g % (width as int)),
    decreases k,
{
    let w = width as int;
    if k == 0 {
        assert(bands.take(0) =~= Seq::<Seq<T>>::empty());
        assert(Seq::<Seq<T>>::empty().flatten() =~= Seq::<T>::empty());
        assert(w * edge(height, 0, t) == 0) by (nonlinear_arith)
            requires
                edge(height, 0, t) == 0,
        ;
    } else {
        lemma_prefix_row_major(bands, width, height, t, pixel, k - 1);
        let prev = bands.take(k - 1).flatten();
        let band = bands[k - 1];
        bands.take(k - 1).lemma_flatten_push(band);
        assert(bands.take(k) =~= bands.take(k - 1).push(band));
        let cur = bands.take(k).flatten();
        assert(cur == prev + band);
        // The edges telescope: band `k - 1` runs from edge `k - 1` to edge `k`.
        crate::schedule::lemma_band_layout(height, t);
        assert(edge(height, k - 1, t) + band_size(height, k - 1, t) == edge(height, k, t));
        assert(w * edge(height, k - 1, t) + w * band_size(height, k - 1, t) == w * edge(
            height,
            k,
            t,
        )) by (nonlinear_arith)
            requires
                edge(height, k - 1, t) + band_size(height, k - 1, t) == edge(height, k, t),
        ;
        assert(cur.len() == w * edge(height, k, t));
        let lo = w * edge(height, k - 1, t);
        assert forall|g: int| 0 <= g < w * edge(height, k, t) implies #[trigger] cur[g] == pixel(
            g / w,
            g % w,
        ) by {
            if g < lo {
                assert(cur[g] == prev[g]);
            } else {
                let m = g - lo;
                assert(0 <= m < band.len());
                assert(band[m] == pixel(band_start(height, k - 1, t) + m / w, m % w));
                lemma_fundamental_div_mod(m, w);
                lemma_mod_bound(m, w);
                lemma_div_pos_is_pos(m, w);
                let dq = m / w;
                let dr = m % w;
                assert(g == (edge(height, k - 1, t) + dq) * w + dr) by (nonlinear_arith)
                    requires
                        g == w * edge(height, k - 1, t) + m && m == w * dq + dr,
                ;
                lemma_fundamental_div_mod_converse_div(g, w, edge(height, k - 1, t) + dq, dr);
                lemma_fundamental_div_mod_converse_mod(g, w, edge(height, k - 1, t) + dq, dr);
                assert(cur[g] == band[m]);
            }
        }
    }
}

/// Row-major reassembly: when each worker's output lists, row by row and
/// column by column, the pixels of its own band, the outputs joined in band
/// order list every pixel of the image exactly once, in row-major order.
pub proof fn lemma_bands_row_major<T>(
    bands: Seq<Seq<T>>,
    width: u32,
    height: u32,
    t: int,
    pixel: spec_fn(int, int) -> T,
)
    requires
        t > 0,
        width > 0,
        bands.len() == t,
        forall|n: int|
            0 <= n < t ==> (#[trigger] bands[n]).len() == width as int * band_size(height, n, t),
        forall|n: int, m: int|
            0 <= n < t && 0 <= m < bands[n].len() ==> #[trigger] bands[n][m] == pixel(
                band_start(height, n, t) + m / (width as int),
                m % (width as int),
            ),
    ensures
        joined(bands).len() == width as int * height as int,
        forall|row: int, col: int|
            0 <= row < height && 0 <= col < width ==> #[trigger] joined(bands)[row * width as int
                + col] == pixel(row, col),
{
    let w = width as int;
    lemma_prefix_row_major(bands, width, height, t, pixel, t);
    assert(bands.take(t) =~= bands);
    assert forall|row: int, col: int| 0 <= row < height && 0 <= col < width implies #[trigger] joined(
        bands,
    )[row * w + col] == pixel(row, col) by {
        let g = row * w + col;
        assert(0 <= g && g < w * height as int) by (nonlinear_arith)
            requires
                0 <= row < height as int && 0 <= col < w && g == row * w + col,
        ;
        lemma_fundamental_div_mod_converse_div(g, w, row, col);
        lemma_fundamental_div_mod_converse_mod(g, w, row, col);
        assert(joined(bands)[g] == pixel(g / w, g % w));
    }
}

} // verus!
