use vstd::prelude::*;

use crate::dithering::threshold::multi_impl::par_dither_rows;
use crate::texture::{Shape, Texture, TextureRef};
use crate::transform::traits::TextureTransform;
use crate::utils::num::{closest_pow_2, closest_pow_2_spec, is_pow_2, UNIT};
use crate::utils::pixel::{map_wf, ColorMapElement, RGB, COEFF_MAX};
use crate::utils::simd::suggested_simd_width;

verus! {

// ---------------------------------------------------------------------------
// The classification specification.
//
// A pixel with gray value `v` matches palette entry `e` under threshold `t`
// when `v < t * e.scale + e.offset` holds over the rationals; with every
// quantity scaled by `UNIT` that comparison is exactly
// `v * UNIT < t * scale + offset * UNIT` over the integers.
// ---------------------------------------------------------------------------

/// The threshold comparison for one palette entry, over fixed-point integers.
pub open spec fn hit_coeffs(v: int, t: int, s: int, o: int) -> bool {
    v * UNIT < t * s + o * UNIT
}

/// Whether the pixel value `v` falls below the entry's threshold band.
pub open spec fn hit(v: int, t: int, e: ColorMapElement) -> bool {
    hit_coeffs(v, t, e.scale as int, e.offset as int)
}

/// Index of the first entry at or after `i` that `v` hits, or the last entry
/// of the palette when none does.
pub open spec fn first_hit_from(map: Seq<ColorMapElement>, v: int, t: int, i: int) -> int
    decreases map.len() - i,
{
    if i < 0 || i >= map.len() {
        map.len() - 1
    } else if hit(v, t, map[i]) {
        i
    } else {
        first_hit_from(map, v, t, i + 1)
    }
}

/// The palette index the scan settles on: the first entry hit, in palette
/// order, with the last entry as the fallback.
pub open spec fn pick_index(map: Seq<ColorMapElement>, v: int, t: int) -> int {
    first_hit_from(map, v, t, 0)
}

/// The color a pixel with gray value `v` receives under threshold `t`.
pub open spec fn dither_pixel(map: Seq<ColorMapElement>, v: int, t: int) -> RGB {
    map[pick_index(map, v, t)].color
}

/// Entries known to be misses can be skipped without changing the result.
pub proof fn lemma_first_hit_skip(map: Seq<ColorMapElement>, v: int, t: int, j: int)
    requires
        0 <= j <= map.len(),
        forall|k: int| 0 <= k < j ==> !hit(v, t, #[trigger] map[k]),
    ensures
        pick_index(map, v, t) == first_hit_from(map, v, t, j),
    decreases j,
{
    if j > 0 {
        lemma_first_hit_skip(map, v, t, j - 1);
    }
}

// ---------------------------------------------------------------------------
// Kernels: the per-pixel computation of each strategy.
// ---------------------------------------------------------------------------

/// Precomputed per-strategy classification data.
pub(crate) enum Kernel {
    /// Sequential scan over the palette.
    Scalar,
    /// One comparison vector as wide as the palette.
    Fixed { scale: Vec<i64>, offset: Vec<i64> },
    /// Lane-wide passes over zero-padded palette chunks.
    Fit { lanes: usize, passes: Vec<SimdFitPassData> },
}

/// Cached data for one pixel compute pass of the fit strategy.
pub(crate) struct SimdFitPassData {
    /// Number of addressable palette entries within this pass.
    pub size: usize,
    pub scale: Vec<i64>,
    pub offset: Vec<i64>,
}

/// The fixed kernel holds one scale and offset per palette entry, in order.
pub(crate) open spec fn fixed_wf(scale: Seq<i64>, offset: Seq<i64>, map: Seq<ColorMapElement>) -> bool {
    &&& scale.len() == map.len()
    &&& offset.len() == map.len()
    &&& forall|i: int| 0 <= i < map.len() ==> #[trigger] scale[i] == map[i].scale
    &&& forall|i: int| 0 <= i < map.len() ==> #[trigger] offset[i] == map[i].offset
}

/// The fit kernel partitions the palette into `ceil(len / lanes)` passes of
/// `lanes` coefficients each; the trailing lanes of the last pass are padded
/// with zeros, which no non-negative pixel value can hit.
pub(crate) open spec fn fit_wf(lanes: int, passes: Seq<SimdFitPassData>, map: Seq<ColorMapElement>) -> bool {
    &&& 2 <= lanes <= 16
    &&& map.len() >= 1
    &&& passes.len() == (map.len() + lanes - 1) / lanes
    &&& forall|p: int| 0 <= p < passes.len() ==> (#[trigger] passes[p]).scale@.len() == lanes
    &&& forall|p: int| 0 <= p < passes.len() ==> (#[trigger] passes[p]).offset@.len() == lanes
    &&& forall|p: int|
        0 <= p < passes.len() ==> (#[trigger] passes[p]).size == if p == passes.len() - 1 {
            map.len() - p * lanes
        } else {
            lanes
        }
    &&& forall|p: int, l: int|
        0 <= p < passes.len() && 0 <= l < lanes ==> #[trigger] passes[p].scale@[l] == if l
            < passes[p].size {
            map[p * lanes + l].scale
        } else {
            0i64
        }
    &&& forall|p: int, l: int|
        0 <= p < passes.len() && 0 <= l < lanes ==> #[trigger] passes[p].offset@[l] == if l
            < passes[p].size {
            map[p * lanes + l].offset
        } else {
            0i64
        }
}

/// The kernel's cached coefficients agree with the palette.
pub(crate) open spec fn kernel_wf(kernel: &Kernel, map: Seq<ColorMapElement>) -> bool {
    match kernel {
        Kernel::Scalar => true,
        Kernel::Fixed { scale, offset } => fixed_wf(scale@, offset@, map),
        Kernel::Fit { lanes, passes } => fit_wf(*lanes as int, passes@, map),
    }
}

/// One threshold comparison over explicit coefficients.
fn lane_hit(v: u32, t: u32, s: i64, o: i64) -> (r: bool)
    requires
        t <= UNIT,
        -COEFF_MAX <= s <= COEFF_MAX,
        -COEFF_MAX <= o <= COEFF_MAX,
    ensures
        r == hit_coeffs(v as int, t as int, s as int, o as int),
{
    proof {
        assert(-281474976710656 <= (t as i64) * s <= 281474976710656) by (nonlinear_arith)
            requires
                0 <= t <= UNIT,
                -COEFF_MAX <= s <= COEFF_MAX,
        ;
    }
    let lhs: i64 = (v as i64) * UNIT;
    let rhs: i64 = (t as i64) * s + o * UNIT;
    lhs < rhs
}

/// `ceil(n / l)` facts: the passes cover the palette exactly.
proof fn lemma_div_ceil(n: int, l: int)
    requires
        n >= 1,
        l >= 1,
    ensures
        ((n + l - 1) / l) * l >= n,
        ((n + l - 1) / l - 1) * l < n,
        (n + l - 1) / l >= 1,
{
    let x = n + l - 1;
    vstd::arithmetic::div_mod::lemma_fundamental_div_mod(x, l);
    vstd::arithmetic::div_mod::lemma_mod_bound(x, l);
    let q = x / l;
    let r = x % l;
    assert(x == l * q + r);
    assert(q * l == n + l - 1 - r) by (nonlinear_arith)
        requires
            x == l * q + r,
            x == n + l - 1,
    ;
    assert(q >= 1) by (nonlinear_arith)
        requires
            q * l == n + l - 1 - r,
            0 <= r < l,
            n >= 1,
            l >= 1,
    ;
    assert((q - 1) * l == q * l - l) by (nonlinear_arith);
}

/// Classify one pixel: every kernel returns exactly the color of the
/// canonical first-hit scan.
pub(crate) fn classify(kernel: &Kernel, map: &Vec<ColorMapElement>, v: u32, t: u32) -> (c: RGB)
    requires
        map_wf(map@),
        map@.len() >= 1,
        t <= UNIT,
        kernel_wf(kernel, map@),
    ensures
        c == dither_pixel(map@, v as int, t as int),
{
    let n = map.len();
    match kernel {
        Kernel::Scalar => {
            let mut j: usize = 0;
            while j < n
                invariant
                    map_wf(map@),
                    n == map@.len(),
                    n >= 1,
                    t <= UNIT,
                    j <= n,
                    forall|k: int| 0 <= k < j ==> !hit(v as int, t as int, #[trigger] map@[k]),
                decreases n - j,
            {
                let e = map[j];
                proof {
                    assert(map@[j as int].wf());
                }
                if lane_hit(v, t, e.scale, e.offset) {
                    proof {
                        lemma_first_hit_skip(map@, v as int, t as int, j as int);
                    }
                    return e.color;
                }
                j = j + 1;
            }
            proof {
                lemma_first_hit_skip(map@, v as int, t as int, n as int);
            }
            map[n - 1].color
        },
        Kernel::Fixed { scale, offset } => {
            // Elementwise comparison across all lanes first, exactly as the
            // vector compare produces its per-lane mask.
            let mut mask: Vec<bool> = Vec::new();
            let mut l: usize = 0;
            while l < n
                invariant
                    map_wf(map@),
                    fixed_wf(scale@, offset@, map@),
                    n == map@.len(),
                    n >= 1,
                    t <= UNIT,
                    l <= n,
                    mask@.len() == l,
                    forall|k: int| 0 <= k < l ==> #[trigger] mask@[k] == hit(v as int, t as int, map@[k]),
                decreases n - l,
            {
                mask.push(lane_hit(v, t, scale[l], offset[l]));
                l = l + 1;
            }
            // Lowest set lane wins, ties broken by palette order.
            let mut j: usize = 0;
            while j < n
                invariant
                    map_wf(map@),
                    n == map@.len(),
                    n >= 1,
                    t <= UNIT,
                    j <= n,
                    mask@.len() == n,
                    forall|k: int| 0 <= k < n ==> #[trigger] mask@[k] == hit(v as int, t as int, map@[k]),
                    forall|k: int| 0 <= k < j ==> !hit(v as int, t as int, #[trigger] map@[k]),
                decreases n - j,
            {
                if mask[j] {
                    proof {
                        lemma_first_hit_skip(map@, v as int, t as int, j as int);
                    }
                    return map[j].color;
                }
                j = j + 1;
            }
            proof {
                lemma_first_hit_skip(map@, v as int, t as int, n as int);
            }
            map[n - 1].color
        },
        Kernel::Fit { lanes, passes } => {
            let lanes: usize = *lanes;
            let iters = passes.len();
            proof {
                lemma_div_ceil(n as int, lanes as int);
            }
            let mut p: usize = 0;
            while p < iters
                invariant
                    map_wf(map@),
                    fit_wf(lanes as int, passes@, map@),
                    n == map@.len(),
                    n >= 1,
                    t <= UNIT,
                    iters == passes@.len(),
                    iters * lanes >= n,
                    (iters - 1) * lanes < n,
                    p <= iters,
                    forall|k: int|
                        0 <= k < p * lanes && k < n ==> !hit(v as int, t as int, #[trigger] map@[k]),
                decreases iters - p,
            {
                proof {
                    assert(p * lanes < n) by (nonlinear_arith)
                        requires
                            (iters - 1) * lanes < n,
                            0 <= p <= iters - 1,
                            lanes >= 2,
                    ;
                }
                let pass = &passes[p];
                proof {
                    assert(*pass == passes@[p as int]);
                    if p + 1 < iters {
                        assert(pass.size == lanes);
                        assert((p + 1) * lanes <= (iters - 1) * lanes) by (nonlinear_arith)
                            requires
                                0 <= p,
                                p + 1 <= iters - 1,
                                lanes >= 2,
                        ;
                        assert((p + 1) * lanes == p * lanes + lanes) by (nonlinear_arith);
                        assert(p * lanes + pass.size <= n);
                    } else {
                        assert(p == iters - 1);
                        assert(pass.size == n - p * lanes);
                        assert(iters * lanes == (iters - 1) * lanes + lanes) by (nonlinear_arith);
                        assert(pass.size <= lanes);
                        assert(p * lanes + pass.size <= n);
                    }
                }
                // Full-width elementwise compare, padding lanes included.
                let mut mask: Vec<bool> = Vec::new();
                let mut l: usize = 0;
                while l < lanes
                    invariant
                        map_wf(map@),
                        fit_wf(lanes as int, passes@, map@),
                        n == map@.len(),
                        t <= UNIT,
                        p < iters,
                        iters == passes@.len(),
                        p * lanes < n,
                        p * lanes + pass.size <= n,
                        *pass == passes@[p as int],
                        pass.size <= lanes,
                        l <= lanes,
                        mask@.len() == l,
                        forall|k: int|
                            0 <= k < l ==> #[trigger] mask@[k] == hit_coeffs(
                                v as int,
                                t as int,
                                pass.scale@[k] as int,
                                pass.offset@[k] as int,
                            ),
                    decreases lanes - l,
                {
                    proof {
                        if l < pass.size {
                            assert(pass.scale@[l as int] == map@[p * lanes + l].scale);
                            assert(0 <= p * lanes + l < n);
                            assert(map@[p * lanes + l].wf());
                        }
                    }
                    mask.push(lane_hit(v, t, pass.scale[l], pass.offset[l]));
                    l = l + 1;
                }
                // Only the first `pass.size` lanes address palette entries.
                let mut l: usize = 0;
                while l < pass.size
                    invariant
                        map_wf(map@),
                        fit_wf(lanes as int, passes@, map@),
                        n == map@.len(),
                        n >= 1,
                        t <= UNIT,
                        p < iters,
                        iters == passes@.len(),
                        p * lanes < n,
                        p * lanes + pass.size <= n,
                        *pass == passes@[p as int],
                        pass.size <= lanes,
                        l <= pass.size,
                        mask@.len() == lanes,
                        forall|k: int|
                            0 <= k < lanes ==> #[trigger] mask@[k] == hit_coeffs(
                                v as int,
                                t as int,
                                pass.scale@[k] as int,
                                pass.offset@[k] as int,
                            ),
                        forall|k: int|
                            0 <= k < p * lanes + l && k < n ==> !hit(
                                v as int,
                                t as int,
                                #[trigger] map@[k],
                            ),
                    decreases pass.size - l,
                {
                    if mask[l] {
                        proof {
                            assert(hit(v as int, t as int, map@[p * lanes + l]));
                            lemma_first_hit_skip(map@, v as int, t as int, (p * lanes + l) as int);
                        }
                        return map[p * lanes + l].color;
                    }
                    l = l + 1;
                }
                proof {
                    // All entries of this pass missed; the prefix of misses
                    // now reaches the next pass.
                    assert(forall|k: int|
                        0 <= k < (p + 1) * lanes && k < n ==> !hit(
                            v as int,
                            t as int,
                            #[trigger] map@[k],
                        )) by {
                        assert forall|k: int|
                            0 <= k < (p + 1) * lanes && k < n implies !hit(
                            v as int,
                            t as int,
                            #[trigger] map@[k],
                        ) by {
                            if k >= p * lanes + pass.size {
                                if p + 1 < iters {
                                    // Every lane of a non-final pass owns an
                                    // entry, so no index lies beyond it.
                                    assert(pass.size == lanes);
                                    assert((p + 1) * lanes == p * lanes + lanes)
                                        by (nonlinear_arith);
                                    assert(false);
                                } else {
                                    // The final pass reaches the palette's end.
                                    assert(pass.size == n - p * lanes);
                                    assert(false);
                                }
                            }
                        }
                    }
                }
                p = p + 1;
            }
            proof {
                assert(forall|k: int| 0 <= k < n ==> !hit(v as int, t as int, #[trigger] map@[k]))
                    by {
                    assert(iters * lanes >= n);
                }
                lemma_first_hit_skip(map@, v as int, t as int, n as int);
            }
            map[n - 1].color
        },
    }
}

// ---------------------------------------------------------------------------
// Kernel construction.
// ---------------------------------------------------------------------------

impl Kernel {
    /// Coefficients for the fixed strategy: one lane per palette entry.
    pub(crate) fn new_fixed(map: &Vec<ColorMapElement>) -> (k: Kernel)
        ensures
            kernel_wf(&k, map@),
            k is Fixed,
    {
        let n = map.len();
        let mut scale: Vec<i64> = Vec::new();
        let mut offset: Vec<i64> = Vec::new();
        let mut i: usize = 0;
        while i < n
            invariant
                i <= n,
                n == map@.len(),
                scale@.len() == i,
                offset@.len() == i,
                forall|j: int| 0 <= j < i ==> #[trigger] scale@[j] == map@[j].scale,
                forall|j: int| 0 <= j < i ==> #[trigger] offset@[j] == map@[j].offset,
            decreases n - i,
        {
            let e = map[i];
            scale.push(e.scale);
            offset.push(e.offset);
            i = i + 1;
        }
        Kernel::Fixed { scale, offset }
    }

    /// Coefficients for the fit strategy: the palette cut into `lanes`-wide
    /// passes, the trailing lanes of the last pass padded with zeros.
    pub(crate) fn new_fit(map: &Vec<ColorMapElement>, lanes: usize) -> (k: Kernel)
        requires
            2 <= lanes <= 16,
            1 <= map@.len(),
            map@.len() + lanes <= usize::MAX,
        ensures
            kernel_wf(&k, map@),
            k is Fit,
            k matches Kernel::Fit { lanes: kl, .. } && kl == lanes,
    {
        let n = map.len();
        let compute_iters = (n + lanes - 1) / lanes;
        proof {
            lemma_div_ceil(n as int, lanes as int);
        }
        let mut passes: Vec<SimdFitPassData> = Vec::new();
        let mut iter: usize = 0;
        while iter < compute_iters
            invariant
                iter <= compute_iters,
                n == map@.len(),
                n >= 1,
                2 <= lanes <= 16,
                compute_iters == (n + lanes - 1) / (lanes as int),
                compute_iters * lanes >= n,
                (compute_iters - 1) * lanes < n,
                passes@.len() == iter,
                forall|p: int| 0 <= p < iter ==> (#[trigger] passes@[p]).scale@.len() == lanes,
                forall|p: int| 0 <= p < iter ==> (#[trigger] passes@[p]).offset@.len() == lanes,
                forall|p: int|
                    0 <= p < iter ==> (#[trigger] passes@[p]).size == if p == compute_iters - 1 {
                        map@.len() - p * lanes
                    } else {
                        lanes as int
                    },
                forall|p: int, l: int|
                    0 <= p < iter && 0 <= l < lanes ==> #[trigger] passes@[p].scale@[l] == if l
                        < passes@[p].size {
                        map@[p * lanes + l].scale
                    } else {
                        0i64
                    },
                forall|p: int, l: int|
                    0 <= p < iter && 0 <= l < lanes ==> #[trigger] passes@[p].offset@[l] == if l
                        < passes@[p].size {
                        map@[p * lanes + l].offset
                    } else {
                        0i64
                    },
            decreases compute_iters - iter,
        {
            proof {
                assert(iter * lanes <= (compute_iters - 1) * lanes) by (nonlinear_arith)
                    requires
                        0 <= iter <= compute_iters - 1,
                        lanes >= 2,
                ;
            }
            let start = iter * lanes;
            let remaining = n - start;
            let range_size = if remaining < lanes {
                remaining
            } else {
                lanes
            };
            proof {
                if iter + 1 < compute_iters {
                    assert((iter + 1) * lanes <= (compute_iters - 1) * lanes) by (nonlinear_arith)
                        requires
                            0 <= iter,
                            iter + 1 <= compute_iters - 1,
                            lanes >= 2,
                    ;
                    assert((iter + 1) * lanes == iter * lanes + lanes) by (nonlinear_arith);
                    assert(range_size == lanes);
                } else {
                    assert(iter == compute_iters - 1);
                    assert(compute_iters * lanes == (compute_iters - 1) * lanes + lanes)
                        by (nonlinear_arith);
                    assert(range_size == n - iter * lanes);
                }
            }
            let mut scale: Vec<i64> = Vec::new();
            let mut offset: Vec<i64> = Vec::new();
            let mut l: usize = 0;
            while l < range_size
                invariant
                    l <= range_size,
                    n == map@.len(),
                    start == iter * lanes,
                    start + range_size <= n,
                    range_size <= lanes,
                    scale@.len() == l,
                    offset@.len() == l,
                    forall|j: int| 0 <= j < l ==> #[trigger] scale@[j] == map@[start + j].scale,
                    forall|j: int| 0 <= j < l ==> #[trigger] offset@[j] == map@[start + j].offset,
                decreases range_size - l,
            {
                let e = map[start + l];
                scale.push(e.scale);
                offset.push(e.offset);
                l = l + 1;
            }
            while l < lanes
                invariant
                    range_size <= l <= lanes,
                    n == map@.len(),
                    start == iter * lanes,
                    start + range_size <= n,
                    scale@.len() == l,
                    offset@.len() == l,
                    forall|j: int| 0 <= j < range_size ==> #[trigger] scale@[j] == map@[start + j].scale,
                    forall|j: int| 0 <= j < range_size ==> #[trigger] offset@[j] == map@[start + j].offset,
                    forall|j: int| range_size <= j < l ==> #[trigger] scale@[j] == 0i64,
                    forall|j: int| range_size <= j < l ==> #[trigger] offset@[j] == 0i64,
                decreases lanes - l,
            {
                scale.push(0);
                offset.push(0);
                l = l + 1;
            }
            passes.push(SimdFitPassData { size: range_size, scale, offset });
            iter = iter + 1;
        }
        Kernel::Fit { lanes, passes }
    }
}

// ---------------------------------------------------------------------------
// Configuration: threshold matrix, palette, and the derived bit mask.
// ---------------------------------------------------------------------------

/// Configuration for ordered-dithering transforms, shared by every strategy.
#[derive(Debug, Clone)]
pub struct BayerConfig {
    /// Threshold matrix entries, fixed-point in `[0, UNIT]`, row-major.
    pub matrix: Vec<u32>,
    /// The ordered palette; its order decides which entry wins.
    pub map: Vec<ColorMapElement>,
    /// The matrix is `2^order` by `2^order`.
    pub order: usize,
    /// `2^order - 1`: masking with it is reduction modulo the matrix side.
    pub side_mask: usize,
}

impl BayerConfig {
    /// Side length of the threshold matrix.
    pub open spec fn spec_side(&self) -> int {
        self.side_mask + 1
    }

    pub open spec fn wf(&self) -> bool {
        &&& self.order <= 8
        &&& self.side_mask + 1 == (1usize << self.order)
        &&& self.matrix@.len() == (self.side_mask + 1) * (self.side_mask + 1)
        &&& forall|i: int| 0 <= i < self.matrix@.len() ==> #[trigger] self.matrix@[i] <= UNIT
        &&& map_wf(self.map@)
        &&& self.map@.len() >= 1
    }

    /// Index into the matrix for a pixel coordinate: the coordinate reduced
    /// modulo the side by bit masking.
    pub open spec fn spec_bayer_idx(&self, x: usize, y: usize) -> int {
        (y & self.side_mask) * (self.side_mask + 1) + (x & self.side_mask)
    }

    /// `matrix.len()` must equal `side * side` with `side == 2^order`, the
    /// matrix entries must lie in `[0, UNIT]`, and the palette must be
    /// non-empty with bounded coefficients.
    pub fn new(order: usize, matrix: Vec<u32>, map: Vec<ColorMapElement>) -> (c: BayerConfig)
        requires
            order <= 8,
            matrix@.len() == (1usize << order) * (1usize << order),
            forall|i: int| 0 <= i < matrix@.len() ==> #[trigger] matrix@[i] <= UNIT,
            map_wf(map@),
            map@.len() >= 1,
        ensures
            c.wf(),
            c.matrix == matrix,
            c.map == map,
            c.order == order,
    {
        let side_size: usize = 1usize << order;
        proof {
            assert(1usize << order >= 1) by (bit_vector)
                requires
                    order <= 8,
            ;
        }
        let side_mask = side_size - 1;
        BayerConfig { order, matrix, map, side_mask }
    }

    /// Get the index in the threshold matrix for a pixel coordinate.
    pub fn bayer_idx(&self, x: usize, y: usize) -> (r: usize)
        requires
            self.wf(),
        ensures
            r == self.spec_bayer_idx(x, y),
            r < self.matrix@.len(),
    {
        proof {
            let m = self.side_mask;
            let k = self.order;
            assert((y & m) <= m && (x & m) <= m && ((y & m) << k) == (y & m) * (m + 1) && m <= 255)
                by (bit_vector)
                requires
                    m + 1 == (1usize << k),
                    k <= 8,
            ;
            assert((y & m) * (m + 1) + (x & m) < (m + 1) * (m + 1) && (y & m) * (m + 1) + (x & m)
                <= 65536) by (nonlinear_arith)
                requires
                    (y & m) <= m,
                    (x & m) <= m,
                    m <= 255,
            ;
        }
        ((y & self.side_mask) << self.order) + (x & self.side_mask)
    }

    pub fn colors_len(&self) -> (r: usize)
        ensures
            r == self.map@.len(),
    {
        self.map.len()
    }

    /// The complement `UNIT - m` of every matrix entry, in matrix order.
    pub fn cache_bayer_complement(&self) -> (r: Vec<u32>)
        requires
            self.wf(),
        ensures
            r@.len() == self.matrix@.len(),
            forall|i: int| 0 <= i < r@.len() ==> #[trigger] r@[i] == UNIT - self.matrix@[i],
    {
        let n = self.matrix.len();
        let mut out: Vec<u32> = Vec::new();
        let mut i: usize = 0;
        while i < n
            invariant
                i <= n,
                self.wf(),
                n == self.matrix@.len(),
                out@.len() == i,
                forall|j: int| 0 <= j < i ==> #[trigger] out@[j] == UNIT - self.matrix@[j],
            decreases n - i,
        {
            out.push((UNIT as u32) - self.matrix[i]);
            i = i + 1;
        }
        out
    }

    /// Pre-computed complement thresholds as full-width row patterns: one row
    /// per row phase of the matrix, each `width` columns long.
    pub fn cache_tiled_pattern(&self, width: usize) -> (r: Vec<u32>)
        requires
            self.wf(),
            (self.side_mask + 1) * width <= usize::MAX,
        ensures
            tiled_wf(self, r@, width as int),
    {
        let side: usize = self.side_mask + 1;
        let mut out: Vec<u32> = Vec::new();
        let mut ry: usize = 0;
        while ry < side
            invariant
                ry <= side,
                self.wf(),
                side == self.side_mask + 1,
                side * width <= usize::MAX,
                out@.len() == ry * width,
                forall|r0: int, c0: int|
                    0 <= r0 < ry && 0 <= c0 < width ==> #[trigger] out@[r0 * width + c0] == UNIT
                        - self.matrix@[self.spec_bayer_idx(c0 as usize, r0 as usize)],
            decreases side - ry,
        {
            proof {
                assert((ry + 1) * width <= side * width) by (nonlinear_arith)
                    requires
                        0 <= ry,
                        ry + 1 <= side,
                        width >= 0,
                ;
                assert((ry + 1) * width == ry * width + width) by (nonlinear_arith);
            }
            let mut x: usize = 0;
            while x < width
                invariant
                    x <= width,
                    ry < side,
                    self.wf(),
                    side == self.side_mask + 1,
                    ry * width + width <= usize::MAX,
                    out@.len() == ry * width + x,
                    forall|r0: int, c0: int|
                        0 <= r0 < ry && 0 <= c0 < width ==> #[trigger] out@[r0 * width + c0]
                            == UNIT - self.matrix@[self.spec_bayer_idx(c0 as usize, r0 as usize)],
                    forall|c0: int|
                        0 <= c0 < x ==> #[trigger] out@[ry * width + c0] == UNIT - self.matrix@[
                            self.spec_bayer_idx(c0 as usize, ry as usize)
                        ],
                decreases width - x,
            {
                let idx = self.bayer_idx(x, ry);
                out.push((UNIT as u32) - self.matrix[idx]);
                proof {
                    assert forall|r0: int, c0: int|
                        0 <= r0 < ry && 0 <= c0 < width implies #[trigger] (r0 * width + c0) < ry
                        * width by {
                        assert(r0 * width + c0 < ry * width) by (nonlinear_arith)
                            requires
                                0 <= r0 < ry,
                                0 <= c0 < width,
                        ;
                    }
                }
                x = x + 1;
            }
            ry = ry + 1;
        }
        out
    }
}

/// The tiled cache holds, for each of the `side` row phases and each column
/// of one image row, the complemented threshold of that pixel position.
pub open spec fn tiled_wf(cfg: &BayerConfig, tiled: Seq<u32>, width: int) -> bool {
    &&& tiled.len() == (cfg.side_mask + 1) * width
    &&& forall|r0: int, c0: int|
        0 <= r0 < cfg.side_mask + 1 && 0 <= c0 < width ==> #[trigger] tiled[r0 * width + c0]
            == UNIT - cfg.matrix@[cfg.spec_bayer_idx(c0 as usize, r0 as usize)]
}

/// The threshold applied to the pixel at `(x, y)`: the complement of the
/// matrix entry that the periodic tiling assigns to that position.
pub open spec fn threshold_at(cfg: &BayerConfig, x: usize, y: usize) -> int {
    UNIT - cfg.matrix@[cfg.spec_bayer_idx(x, y)]
}

/// The canonical output: every strategy must color pixel `i` of a `width`
/// pixel wide image this way.
pub open spec fn output_pixel(cfg: &BayerConfig, input: Seq<u32>, width: int, i: int) -> RGB {
    dither_pixel(
        cfg.map@,
        input[i] as int,
        threshold_at(cfg, (i % width) as usize, (i / width) as usize),
    )
}

/// The canonical output image, pixel for pixel.
pub open spec fn output_image(cfg: &BayerConfig, input: Seq<u32>, width: int) -> Seq<RGB> {
    Seq::new(input.len(), |i: int| output_pixel(cfg, input, width, i))
}

/// Masking the row coordinate first does not change the matrix index: the
/// tiling is periodic with the matrix side.
proof fn lemma_row_phase(cfg: &BayerConfig, x: usize, y: usize)
    requires
        cfg.wf(),
    ensures
        cfg.spec_bayer_idx(x, y & cfg.side_mask) == cfg.spec_bayer_idx(x, y),
{
    let m = cfg.side_mask;
    assert((y & m) & m == y & m) by (bit_vector);
}

/// Compute one output row: width classified pixels of row `y`.
pub(crate) fn dither_row(
    config: &BayerConfig,
    kernel: &Kernel,
    input: &Vec<u32>,
    tiled: &Vec<u32>,
    width: usize,
    y: usize,
) -> (row: Vec<RGB>)
    requires
        config.wf(),
        kernel_wf(kernel, config.map@),
        tiled_wf(config, tiled@, width as int),
        width >= 1,
        (y + 1) * width <= input@.len(),
    ensures
        row@.len() == width,
        forall|c0: int|
            0 <= c0 < width ==> #[trigger] row@[c0] == output_pixel(
                config,
                input@,
                width as int,
                y * width + c0,
            ),
{
    let n = input.len();
    let tiled_len = tiled.len();
    let phase = y & config.side_mask;
    proof {
        let m = config.side_mask;
        assert((y & m) <= m) by (bit_vector);
        assert(phase * width <= m * width) by (nonlinear_arith)
            requires
                0 <= phase <= m,
                width >= 0,
        ;
        assert(m * width + width == (m + 1) * width) by (nonlinear_arith);
        assert((y + 1) * width == y * width + width) by (nonlinear_arith);
    }
    let mut row: Vec<RGB> = Vec::new();
    let mut x: usize = 0;
    while x < width
        invariant
            x <= width,
            config.wf(),
            kernel_wf(kernel, config.map@),
            tiled_wf(config, tiled@, width as int),
            width >= 1,
            n == input@.len(),
            (y + 1) * width <= n,
            y * width + width <= n,
            phase == y & config.side_mask,
            tiled_len == tiled@.len(),
            phase * width + width <= tiled_len,
            row@.len() == x,
            forall|c0: int|
                0 <= c0 < x ==> #[trigger] row@[c0] == output_pixel(
                    config,
                    input@,
                    width as int,
                    y * width + c0,
                ),
        decreases width - x,
    {
        let t = tiled[phase * width + x];
        let v = input[y * width + x];
        proof {
            // The cached value is the threshold of (x, y): the row phase is
            // y reduced modulo the matrix side.
            let m = config.side_mask;
            assert((y & m) <= m) by (bit_vector);
            lemma_row_phase(config, x, y);
            assert(t == UNIT - config.matrix@[config.spec_bayer_idx(x, y)]);
            assert(config.spec_bayer_idx(x, y) < config.matrix@.len()) by {
                assert((y & m) <= m && (x & m) <= m) by (bit_vector);
                assert((y & m) * (m + 1) + (x & m) < (m + 1) * (m + 1)) by (nonlinear_arith)
                    requires
                        (y & m) <= m,
                        (x & m) <= m,
                ;
            }
            assert(t <= UNIT);
            // Flat index arithmetic: pixel (x, y) is element y * width + x.
            vstd::arithmetic::div_mod::lemma_fundamental_div_mod_converse(
                (y * width + x) as int,
                width as int,
                y as int,
                x as int,
            );
        }
        let c = classify(kernel, &config.map, v, t);
        row.push(c);
        x = x + 1;
    }
    row
}

// ---------------------------------------------------------------------------
// The transform: one prepared instance of a strategy over one configuration.
// ---------------------------------------------------------------------------

/// An ordered-dithering transform: a configuration, the precomputed kernel
/// of the chosen strategy, and the width-tiled threshold cache that
/// `prepare` builds.
pub struct BayerTransform {
    config: BayerConfig,
    kernel: Kernel,
    /// Pre-computed complement thresholds for the prepared image width.
    bayer: Vec<u32>,
}

impl BayerTransform {
    /// The configuration the transform was built from; the output depends on
    /// nothing else.
    pub closed spec fn spec_config(&self) -> BayerConfig {
        self.config
    }
}

impl TextureTransform for BayerTransform {
    type Input = u32;

    type Output = RGB;

    closed spec fn wf(&self) -> bool {
        &&& self.config.wf()
        &&& kernel_wf(&self.kernel, self.config.map@)
    }

    open spec fn shapes_ok(&self, in_shape: Shape, out_shape: Shape) -> bool {
        &&& in_shape == out_shape
        &&& in_shape.2 == 1
        &&& in_shape.0 >= 1
        &&& (self.spec_config().side_mask + 1) * in_shape.0 <= usize::MAX
    }

    closed spec fn prepared(&self, in_shape: Shape, out_shape: Shape) -> bool {
        &&& self.shapes_ok(in_shape, out_shape)
        &&& tiled_wf(&self.config, self.bayer@, in_shape.0 as int)
    }

    open spec fn output_of(&self, input: Seq<u32>, in_shape: Shape, out_shape: Shape) -> Seq<RGB> {
        output_image(&self.spec_config(), input, in_shape.0 as int)
    }

    /// Build the width-tiled threshold cache for the incoming image width.
    fn prepare(&mut self, in_shape: Shape, out_shape: Shape) {
        let (width, height, planes) = in_shape;
        let (ow, oh, op) = out_shape;
        if width == ow && height == oh && planes == op && planes == 1 && width >= 1 {
            let side = self.config.side_mask + 1;
            proof {
                let side_i = side as int;
                vstd::arithmetic::div_mod::lemma_fundamental_div_mod(usize::MAX as int, side_i);
                vstd::arithmetic::div_mod::lemma_mod_bound(usize::MAX as int, side_i);
                if side_i * width <= usize::MAX {
                    assert(width <= usize::MAX as int / side_i) by (nonlinear_arith)
                        requires
                            side_i * width <= usize::MAX,
                            side_i >= 1,
                            usize::MAX as int == side_i * (usize::MAX as int / side_i) + (
                            usize::MAX as int % side_i),
                            0 <= usize::MAX as int % side_i < side_i,
                            width >= 0,
                    ;
                }
            }
            if width <= usize::MAX / side {
                proof {
                    let side_i = (self.config.side_mask + 1) as int;
                    vstd::arithmetic::div_mod::lemma_fundamental_div_mod(usize::MAX as int, side_i);
                    vstd::arithmetic::div_mod::lemma_mod_bound(usize::MAX as int, side_i);
                    assert(side_i * width <= usize::MAX) by (nonlinear_arith)
                        requires
                            0 <= width <= usize::MAX as int / side_i,
                            side_i >= 1,
                            usize::MAX as int == side_i * (usize::MAX as int / side_i) + (
                            usize::MAX as int % side_i),
                            0 <= usize::MAX as int % side_i,
                    ;
                }
                self.bayer = self.config.cache_tiled_pattern(width);
            }
        }
    }

    /// Walk every pixel, classify it against the palette, and write the
    /// resulting palette color; rows are computed in parallel.
    fn apply(&mut self, input: &Texture<u32>, output: &mut Texture<RGB>) {
        let width = input.width() as usize;
        let height = input.height() as usize;
        proof {
            assert(input@.len() == width * height * 1);
            assert(((width * height) as int) % (width as int) == 0) by (nonlinear_arith)
                requires
                    width >= 1,
            ;
            assert(width * height * 1 == width * height) by (nonlinear_arith);
            assert(old(output)@.len() == input@.len());
        }
        let out_buf = output.buffer_mut();
        par_dither_rows(&self.config, &self.kernel, input.buffer(), &self.bayer, width, out_buf);
    }
}

impl BayerTransform {
    /// The sequential counterpart of `apply`: dither every row in order on
    /// the calling thread. Its contract is exactly `apply`'s, so the
    /// row-parallel driver must produce this output, pixel for pixel,
    /// whatever the scheduling order.
    pub fn apply_sequential(&mut self, input: &Texture<u32>, output: &mut Texture<RGB>)
        requires
            old(self).wf(),
            input.wf(),
            old(output).wf(),
            old(self).prepared(input.spec_shape(), old(output).spec_shape()),
        ensures
            final(self).wf(),
            final(output).wf(),
            final(output).spec_shape() == old(output).spec_shape(),
            final(output)@ == old(self).output_of(
                input@,
                input.spec_shape(),
                old(output).spec_shape(),
            ),
    {
        let width = input.width() as usize;
        let height = input.height() as usize;
        let n = input.len();
        proof {
            assert(input@.len() == width * height * 1);
            assert(width * height * 1 == width * height) by (nonlinear_arith);
        }
        let mut pixels: Vec<RGB> = Vec::new();
        let mut y: usize = 0;
        while y < height
            invariant
                y <= height,
                self == old(self),
                self.wf(),
                self.config.wf(),
                kernel_wf(&self.kernel, self.config.map@),
                tiled_wf(&self.config, self.bayer@, width as int),
                width >= 1,
                n == input@.len(),
                n == width * height,
                pixels@.len() == y * width,
                forall|i: int|
                    0 <= i < y * width ==> #[trigger] pixels@[i] == output_pixel(
                        &self.config,
                        input@,
                        width as int,
                        i,
                    ),
            decreases height - y,
        {
            proof {
                assert((y + 1) * width == y * width + width) by (nonlinear_arith);
                assert((y + 1) * width <= height * width) by (nonlinear_arith)
                    requires
                        0 <= y,
                        y + 1 <= height,
                        width >= 0,
                ;
                assert(height * width == width * height) by (nonlinear_arith);
            }
            let row = dither_row(&self.config, &self.kernel, input.buffer(), &self.bayer, width, y);
            let mut x: usize = 0;
            while x < width
                invariant
                    x <= width,
                    self == old(self),
                    y < height,
                    width >= 1,
                    n == input@.len(),
                    n == width * height,
                    y * width + width <= n,
                    row@.len() == width,
                    forall|c0: int|
                        0 <= c0 < width ==> #[trigger] row@[c0] == output_pixel(
                            &self.config,
                            input@,
                            width as int,
                            y * width + c0,
                        ),
                    pixels@.len() == y * width + x,
                    forall|i: int|
                        0 <= i < y * width + x ==> #[trigger] pixels@[i] == output_pixel(
                            &self.config,
                            input@,
                            width as int,
                            i,
                        ),
                decreases width - x,
            {
                pixels.push(row[x]);
                x = x + 1;
            }
            y = y + 1;
        }
        proof {
            assert(height * width == width * height) by (nonlinear_arith);
            assert(output.spec_shape() == input.spec_shape());
            assert(width * height * 1 == width * height) by (nonlinear_arith);
            assert(output@.len() == width * height);
        }
        output.copy_from_slice(pixels.as_slice());
        proof {
            assert(output@ =~= output_image(&self.config, input@, width as int));
        }
    }
}

// ---------------------------------------------------------------------------
// Strategy selection.
// ---------------------------------------------------------------------------

/// Strategy choice for the ordered-dithering transform implementation.
#[derive(Debug, Clone, Copy, PartialEq, Eq, Structural)]
pub enum BayerStrategy {
    /// Simple scalar implementation.
    Scalar,
    /// Lane-wide passes with dynamic fitting (any palette size).
    Simd { lanes: usize },
    /// Fixed fitting (requires the palette size to equal `lanes`).
    SimdFixed { lanes: usize },
}

/// Halve `l` until it no longer exceeds `n`.
pub open spec fn fit_down(l: nat, n: nat) -> nat
    decreases l,
{
    if l > n {
        fit_down(l / 2, n)
    } else {
        l
    }
}

/// The lane count the fit strategy uses for a palette of `n` entries: the
/// power of two closest to `n`, halved while it exceeds `n`.
pub open spec fn lanes_fit_spec(n: nat) -> nat {
    fit_down(closest_pow_2_spec(n), n)
}

proof fn lemma_fit_down_pow_2(l: nat, n: nat)
    requires
        is_pow_2(l),
        n >= 1,
    ensures
        1 <= fit_down(l, n) <= n,
        is_pow_2(fit_down(l, n)),
    decreases l,
{
    if l > n {
        lemma_fit_down_pow_2(l / 2, n);
    }
}

proof fn lemma_pow_2_small(l: nat)
    requires
        is_pow_2(l),
        l <= 16,
    ensures
        l == 1 || l == 2 || l == 4 || l == 8 || l == 16,
    decreases l,
{
    if l > 1 {
        lemma_pow_2_small(l / 2);
    }
}

/// A strategy `build` accepts for a palette of `n` entries.
pub open spec fn buildable(s: BayerStrategy, n: int) -> bool {
    match s {
        BayerStrategy::Scalar => true,
        BayerStrategy::Simd { lanes } => (lanes == 2 || lanes == 4 || lanes == 8 || lanes == 16)
            && n >= 1,
        BayerStrategy::SimdFixed { lanes } => (lanes == 2 || lanes == 4 || lanes == 8 || lanes
            == 16) && n == lanes,
    }
}

/// The decision table of the selector, for a palette of `n` entries and a
/// hardware vector width of `w` lanes.
pub open spec fn auto_spec(n: int, w: int) -> BayerStrategy {
    if n < 2 {
        BayerStrategy::Scalar
    } else if n == w {
        BayerStrategy::SimdFixed { lanes: w as usize }
    } else {
        let lanes = lanes_fit_spec(n as nat);
        if lanes < 2 || lanes > 16 {
            BayerStrategy::Scalar
        } else {
            BayerStrategy::Simd { lanes: lanes as usize }
        }
    }
}

impl BayerStrategy {
    /// Compute the best-fit amount of lanes to use for the SIMD fit
    /// strategy: minimizes padding lanes while never exceeding the palette.
    pub fn lanes_fit(lane_hint: usize) -> (r: usize)
        ensures
            r == lanes_fit_spec(lane_hint as nat),
    {
        let mut lanes = closest_pow_2(lane_hint);
        while lanes > lane_hint
            invariant
                fit_down(lanes as nat, lane_hint as nat) == lanes_fit_spec(lane_hint as nat),
            decreases lanes,
        {
            proof {
                assert(lanes >> 1usize == lanes / 2) by (bit_vector);
            }
            lanes = lanes >> 1;
        }
        lanes
    }

    /// The selector's decision table, for a palette of `size_hint` entries
    /// and a hardware vector width of `lane_hint` lanes.
    pub fn auto_with_width(size_hint: usize, lane_hint: usize) -> (s: BayerStrategy)
        ensures
            s == auto_spec(size_hint as int, lane_hint as int),
    {
        if size_hint < 2 {
            return BayerStrategy::Scalar;
        }
        if size_hint == lane_hint {
            return BayerStrategy::SimdFixed { lanes: lane_hint };
        }
        let lanes = BayerStrategy::lanes_fit(size_hint);
        if lanes < 2 || lanes > 16 {
            return BayerStrategy::Scalar;
        }
        BayerStrategy::Simd { lanes }
    }

    /// Detect the best-fit strategy for the configuration on this machine:
    /// the decision table `auto_spec` applied to the palette size and the
    /// hardware vector width (widths beyond 16 lanes collapse to 16, the
    /// widest kernel built).
    pub fn auto(config: &BayerConfig) -> (s: BayerStrategy)
        ensures
            buildable(s, config.map@.len() as int),
    {
        let size_hint: usize = config.map.len();
        let wide = suggested_simd_width();
        let lane_hint: usize = if wide > 16 {
            16
        } else {
            wide
        };
        let s = BayerStrategy::auto_with_width(size_hint, lane_hint);
        proof {
            // Every strategy the table picks for these widths is buildable:
            // the clamped hardware width is 0 or a power of two up to 16,
            // and the fit lane count is a power of two in [2, 16].
            if size_hint >= 2 && size_hint == lane_hint {
                if wide > 16 {
                    assert(is_pow_2(16nat)) by {
                        reveal_with_fuel(is_pow_2, 6);
                    }
                }
                lemma_pow_2_small(lane_hint as nat);
            }
            if size_hint >= 2 && size_hint != lane_hint {
                crate::utils::num::lemma_closest_pow_2_is_pow_2(size_hint as nat);
                lemma_fit_down_pow_2(closest_pow_2_spec(size_hint as nat), size_hint as nat);
                let lanes = lanes_fit_spec(size_hint as nat);
                if 2 <= lanes <= 16 {
                    lemma_pow_2_small(lanes as nat);
                }
            }
        }
        s
    }

    /// Create a transform instance for this strategy.
    pub fn build(self, config: BayerConfig) -> (t: BayerTransform)
        requires
            config.wf(),
            buildable(self, config.map@.len() as int),
            config.map@.len() + 16 <= usize::MAX,
        ensures
            t.wf(),
            t.spec_config() == config,
    {
        let kernel = match self {
            BayerStrategy::Scalar => Kernel::Scalar,
            BayerStrategy::Simd { lanes } => Kernel::new_fit(&config.map, lanes),
            BayerStrategy::SimdFixed { lanes: _ } => Kernel::new_fixed(&config.map),
        };
        BayerTransform { config, kernel, bayer: Vec::new() }
    }

    /// Name of the strategy; implementation details such as the lane count
    /// are not part of it.
    pub fn name(&self) -> (r: &'static str)
        ensures
            (self is Scalar) ==> r@ == "scalar"@,
            (self is Simd) ==> r@ == "simd"@,
            (self is SimdFixed) ==> r@ == "simd-fixed"@,
    {
        match self {
            BayerStrategy::Scalar => "scalar",
            BayerStrategy::Simd { .. } => "simd",
            BayerStrategy::SimdFixed { .. } => "simd-fixed",
        }
    }
}

// ---------------------------------------------------------------------------
// Laws.
// ---------------------------------------------------------------------------

/// Equivalence of strategies: two transforms built over the same
/// configuration — whatever their strategies — promise pixel-identical
/// output on every input and every shape. Each kernel's agreement with the
/// canonical first-hit scan is proved where `classify` is verified.
pub proof fn lemma_strategies_equivalent(
    a: &BayerTransform,
    b: &BayerTransform,
    input: Seq<u32>,
    in_shape: Shape,
    out_shape: Shape,
)
    requires
        a.spec_config() == b.spec_config(),
    ensures
        a.output_of(input, in_shape, out_shape) == b.output_of(input, in_shape, out_shape),
{
}

/// Periodicity: the threshold-matrix index repeats every `side` pixels in
/// both directions, where `side` is the matrix side `side_mask + 1`.
pub proof fn lemma_bayer_idx_periodic(cfg: &BayerConfig, x: usize, y: usize, xs: usize, ys: usize)
    requires
        cfg.wf(),
        xs == x + cfg.side_mask + 1,
        ys == y + cfg.side_mask + 1,
    ensures
        cfg.spec_bayer_idx(xs, y) == cfg.spec_bayer_idx(x, y),
        cfg.spec_bayer_idx(x, ys) == cfg.spec_bayer_idx(x, y),
{
    let m = cfg.side_mask;
    let k = cfg.order;
    assert(xs & m == x & m && ys & m == y & m) by (bit_vector)
        requires
            xs == x + m + 1,
            ys == y + m + 1,
            m + 1 == (1usize << k),
            k <= 8,
    ;
}

/// Fallback correctness: a pixel value at or above the maximum achievable
/// threshold of every palette entry receives the last entry's color.
pub proof fn lemma_fallback(map: Seq<ColorMapElement>, v: int, t: int)
    requires
        map.len() >= 1,
        forall|i: int|
            0 <= i < map.len() ==> v * UNIT >= t * (#[trigger] map[i]).scale + map[i].offset * UNIT,
    ensures
        dither_pixel(map, v, t) == map[map.len() - 1].color,
{
    assert(forall|i: int| 0 <= i < map.len() ==> !hit(v, t, #[trigger] map[i]));
    lemma_first_hit_skip(map, v, t, map.len() as int);
}

} // verus!
