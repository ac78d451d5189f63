//! Fill classification of answer groups: histograms of option crops, Otsu
//! thresholds, the neighbourhood search for the best group threshold and
//! the special cases of uniform groups.
use vstd::prelude::*;
use crate::config::FillArgs;
use crate::geometry::{Coordinate, PIXEL_LIMIT};
use crate::raster::{GrayRaster, IntegralImage, calculate_fill_ratio, region_fill};

verus! {

/// Largest number of pixels a histogram may count.
pub const MAX_PIXELS: u64 = 0x100_0000;

/// Largest number of options of one group.
pub const MAX_OPTIONS: usize = 0x1_0000;

pub open spec fn zeros() -> Seq<int> {
    Seq::new(256, |i: int| 0int)
}

pub open spec fn hist_view(h: Seq<u64>) -> Seq<int> {
    h.map_values(|c: u64| c as int)
}

/// Histogram of the first `k` values of `s`.
pub open spec fn values_hist(s: Seq<u8>, k: int) -> Seq<int>
    decreases k,
{
    if k <= 0 {
        zeros()
    } else {
        let h = values_hist(s, k - 1);
        h.update(s[k - 1] as int, h[s[k - 1] as int] + 1)
    }
}

/// The pixel of `r` visited `k`-th, row by row.
pub open spec fn crop_pixel(g: GrayRaster, r: Coordinate, k: int) -> u8 {
    g.pixels@[(r.y + k / (r.w as int)) * g.width + r.x + k % (r.w as int)]
}

/// Histogram of the first `k` pixels of rectangle `r` of `g`, row by row.
pub open spec fn crop_hist(g: GrayRaster, r: Coordinate, k: int) -> Seq<int>
    decreases k,
{
    if k <= 0 {
        zeros()
    } else {
        let h = crop_hist(g, r, k - 1);
        let p = crop_pixel(g, r, k - 1) as int;
        h.update(p, h[p] + 1)
    }
}

/// The rectangle lies inside the raster and is not empty.
pub open spec fn inside(g: GrayRaster, r: Coordinate) -> bool {
    &&& 0 <= r.x
    &&& 0 <= r.y
    &&& 1 <= r.w
    &&& 1 <= r.h
    &&& r.x + r.w <= g.width
    &&& r.y + r.h <= g.height
}

pub open spec fn hist_ok(h: Seq<int>) -> bool {
    &&& h.len() == 256
    &&& forall|v: int| 0 <= v < 256 ==> 0 <= #[trigger] h[v]
}

proof fn lemma_count_zeros(t: int)
    requires
        -1 <= t < 256,
    ensures
        count_upto(zeros(), t) == 0,
    decreases t + 1,
{
    if t >= 0 {
        lemma_count_zeros(t - 1);
    }
}

proof fn lemma_values_hist(s: Seq<u8>, k: int)
    requires
        0 <= k <= s.len(),
    ensures
        hist_ok(values_hist(s, k)),
        count_upto(values_hist(s, k), 255) == k,
    decreases k,
{
    if k == 0 {
        lemma_count_zeros(255);
    }
    if k > 0 {
        lemma_values_hist(s, k - 1);
        let h = values_hist(s, k - 1);
        lemma_count_update(h, s[k - 1] as int, 255);
        lemma_update_ok(h, s[k - 1] as int);
    }
}

proof fn lemma_crop_hist(g: GrayRaster, r: Coordinate, k: int)
    requires
        0 <= k,
    ensures
        hist_ok(crop_hist(g, r, k)),
        count_upto(crop_hist(g, r, k), 255) == k,
    decreases k,
{
    if k == 0 {
        lemma_count_zeros(255);
    }
    if k > 0 {
        lemma_crop_hist(g, r, k - 1);
        let h = crop_hist(g, r, k - 1);
        lemma_count_update(h, crop_pixel(g, r, k - 1) as int, 255);
        lemma_update_ok(h, crop_pixel(g, r, k - 1) as int);
    }
}

proof fn lemma_update_ok(h: Seq<int>, v: int)
    requires
        hist_ok(h),
        0 <= v < 256,
    ensures
        hist_ok(h.update(v, h[v] + 1)),
{
    let h2 = h.update(v, h[v] + 1);
    assert forall|u: int| 0 <= u < 256 implies 0 <= #[trigger] h2[u] by {
        if u != v {
            assert(h2[u] == h[u]);
        }
    }
}

/// Adding one at bin `v` adds one to every count from `v` on.
proof fn lemma_count_update(h: Seq<int>, v: int, t: int)
    requires
        hist_ok(h),
        0 <= v < 256,
        -1 <= t < 256,
    ensures
        count_upto(h.update(v, h[v] + 1), t) == count_upto(h, t) + (if v <= t {
            1int
        } else {
            0int
        }),
    decreases t + 1,
{
    if t >= 0 {
        lemma_count_update(h, v, t - 1);
    }
}

/// Number of values counted in bins `0..=t`.
pub open spec fn count_upto(h: Seq<int>, t: int) -> int
    decreases t + 1,
{
    if t < 0 {
        0
    } else {
        count_upto(h, t - 1) + h[t]
    }
}

/// Sum of the values counted in bins `0..=t`.
pub open spec fn mass_upto(h: Seq<int>, t: int) -> int
    decreases t + 1,
{
    if t < 0 {
        0
    } else {
        mass_upto(h, t - 1) + t * h[t]
    }
}

proof fn lemma_count_bounds(h: Seq<int>, t: int)
    requires
        hist_ok(h),
        -1 <= t < 256,
    ensures
        0 <= count_upto(h, t) <= count_upto(h, 255),
        0 <= mass_upto(h, t) <= 255 * count_upto(h, t),
{
    lemma_count_mono(h, t, 255);
    lemma_mass_bound(h, t);
}

proof fn lemma_count_nonneg(h: Seq<int>, t: int)
    requires
        hist_ok(h),
        -1 <= t < 256,
    ensures
        0 <= count_upto(h, t),
        0 <= mass_upto(h, t),
    decreases t + 1,
{
    if t >= 0 {
        lemma_count_nonneg(h, t - 1);
        assert(0 <= t * h[t]) by (nonlinear_arith)
            requires
                0 <= t,
                0 <= h[t],
        ;
    }
}

proof fn lemma_count_mono(h: Seq<int>, t: int, u: int)
    requires
        hist_ok(h),
        -1 <= t <= u < 256,
    ensures
        0 <= count_upto(h, t) <= count_upto(h, u),
        0 <= mass_upto(h, t) <= mass_upto(h, u),
    decreases u - t,
{
    lemma_count_nonneg(h, t);
    if t < u {
        lemma_count_mono(h, t, u - 1);
        assert(0 <= u * h[u]) by (nonlinear_arith)
            requires
                0 <= u,
                0 <= h[u],
        ;
    }
}

proof fn lemma_mass_bound(h: Seq<int>, t: int)
    requires
        hist_ok(h),
        -1 <= t < 256,
    ensures
        0 <= mass_upto(h, t),
        t >= 0 ==> mass_upto(h, t) <= t * count_upto(h, t),
        mass_upto(h, t) <= 255 * count_upto(h, t),
    decreases t + 1,
{
    if t >= 0 {
        lemma_mass_bound(h, t - 1);
        lemma_count_mono(h, t - 1, t - 1);
        assert(0 <= t * h[t] <= 255 * h[t]) by (nonlinear_arith)
            requires
                0 <= t < 256,
                0 <= h[t],
        ;
        if t >= 1 {
            assert(mass_upto(h, t - 1) <= (t - 1) * count_upto(h, t - 1));
            assert((t - 1) * count_upto(h, t - 1) <= t * count_upto(h, t - 1)) by (nonlinear_arith)
                requires
                    0 <= count_upto(h, t - 1),
                    t >= 1,
            ;
        }
        assert(t * count_upto(h, t) == t * count_upto(h, t - 1) + t * h[t]) by (nonlinear_arith)
            requires
                count_upto(h, t) == count_upto(h, t - 1) + h[t],
        ;
        assert(t * count_upto(h, t) <= 255 * count_upto(h, t)) by (nonlinear_arith)
            requires
                0 <= count_upto(h, t),
                t < 256,
        ;
    }
}

/// Otsu's between-class variance of threshold `t` on histogram `h` (the
/// background being the bins `0..=t`): `wB wF (muB - muF)^2` with the class
/// weights `wB = nB / n` and `wF = nF / n`, in thousandths of a grey level
/// squared, rounded down; zero when a class is empty.
pub open spec fn otsu_score(h: Seq<int>, t: int) -> int {
    let n = count_upto(h, 255);
    let nb = count_upto(h, t);
    let nf = n - nb;
    let sb = mass_upto(h, t);
    let sf = mass_upto(h, 255) - sb;
    if nb == 0 || nf == 0 {
        0
    } else {
        1000 * ((sb * nf - sf * nb) * (sb * nf - sf * nb)) / ((nb * nf) * (n * n))
    }
}

/// The first threshold below `k` of largest positive score, and its score;
/// (0, 0) when none scores above zero.
pub open spec fn best_otsu(h: Seq<int>, k: int) -> (int, int)
    decreases k,
{
    if k <= 0 {
        (0, 0)
    } else {
        let prev = best_otsu(h, k - 1);
        let s = otsu_score(h, k - 1);
        if s > prev.1 {
            (k - 1, s)
        } else {
            prev
        }
    }
}

/// Otsu's threshold of a grey-level histogram of at most `MAX_PIXELS`
/// pixels, with its score (see `otsu_score`).
pub fn otsu_level_and_var_from_hist(hist: &Vec<u64>) -> (r: (u8, u128))
    requires
        hist@.len() == 256,
        count_upto(hist_view(hist@), 255) <= MAX_PIXELS,
    ensures
        r.0 as int == best_otsu(hist_view(hist@), 256).0,
        r.1 as int == best_otsu(hist_view(hist@), 256).1,
{
    let ghost h = hist_view(hist@);
    assert(hist_ok(h));
    let mut n: u64 = 0;
    let mut total_mass: u64 = 0;
    let mut t: usize = 0;
    while t < 256
        invariant
            t <= 256,
            h == hist_view(hist@),
            hist@.len() == 256,
            hist_ok(h),
            count_upto(h, 255) <= MAX_PIXELS,
            n == count_upto(h, t as int - 1),
            total_mass == mass_upto(h, t as int - 1),
        decreases 256 - t,
    {
        proof {
            lemma_count_bounds(h, t as int);
        }
        n = n + hist[t];
        total_mass = total_mass + (t as u64) * hist[t];
        t = t + 1;
    }
    proof {
        lemma_count_bounds(h, 255);
    }
    let mut nb: u64 = 0;
    let mut sb: u64 = 0;
    let mut best_t: u8 = 0;
    let mut best_s: u128 = 0;
    let mut t: usize = 0;
    while t < 256
        invariant
            t <= 256,
            h == hist_view(hist@),
            hist@.len() == 256,
            hist_ok(h),
            n == count_upto(h, 255),
            n <= MAX_PIXELS,
            total_mass == mass_upto(h, 255),
            total_mass <= 255 * n,
            nb == count_upto(h, t as int - 1),
            sb == mass_upto(h, t as int - 1),
            best_t as int == best_otsu(h, t as int).0,
            best_s as int == best_otsu(h, t as int).1,
        decreases 256 - t,
    {
        proof {
            lemma_count_bounds(h, t as int);
            lemma_count_bounds(h, t as int - 1);
        }
        nb = nb + hist[t];
        sb = sb + (t as u64) * hist[t];
        let nf = n - nb;
        let s: u128 = if nb == 0 || nf == 0 {
            0
        } else {
            proof {
                lemma_count_mono(h, t as int, 255);
            }
            let sf = total_mass - sb;
            proof {
                lemma_count_bounds(h, t as int);
                assert(sb * nf <= 0x100_0000_0000_0000) by (nonlinear_arith)
                    requires
                        sb <= 255 * MAX_PIXELS,
                        nf <= MAX_PIXELS,
                ;
                assert(sf * nb <= 0x100_0000_0000_0000) by (nonlinear_arith)
                    requires
                        sf <= 255 * MAX_PIXELS,
                        nb <= MAX_PIXELS,
                ;
                assert(1 <= nb * nf <= MAX_PIXELS * MAX_PIXELS) by (nonlinear_arith)
                    requires
                        1 <= nb <= MAX_PIXELS,
                        1 <= nf <= MAX_PIXELS,
                ;
                assert(1 <= n * n <= MAX_PIXELS * MAX_PIXELS) by (nonlinear_arith)
                    requires
                        1 <= n <= MAX_PIXELS,
                ;
            }
            let a = (sb as i128) * (nf as i128) - (sf as i128) * (nb as i128);
            proof {
                assert(0 <= a * a <= 0x100_0000_0000_0000 * 0x100_0000_0000_0000) by (nonlinear_arith)
                    requires
                        -0x100_0000_0000_0000 <= a <= 0x100_0000_0000_0000,
                ;
            }
            let aa = (a * a) as u128;
            let p1 = (nb as u128) * (nf as u128);
            let p2 = (n as u128) * (n as u128);
            proof {
                assert(1 <= p1 * p2 <= (MAX_PIXELS * MAX_PIXELS) * (MAX_PIXELS * MAX_PIXELS)) by (nonlinear_arith)
                    requires
                        1 <= p1 <= MAX_PIXELS * MAX_PIXELS,
                        1 <= p2 <= MAX_PIXELS * MAX_PIXELS,
                ;
            }
            (1000 * aa) / (p1 * p2)
        };
        assert(s as int == otsu_score(h, t as int));
        if s > best_s {
            best_s = s;
            best_t = t as u8;
        }
        t = t + 1;
    }
    (best_t, best_s)
}

/// The weighted between-class variance of threshold `t` on a histogram of
/// fill rates in percent, in thousandths of percent squared: `wB wF (muB -
/// muF)^2`, scaled by `1 - weight (1 - t / 100)` (weight in per mille), which
/// favours higher thresholds; zero when a class is empty.
pub open spec fn weighted_score(h: Seq<int>, t: int, weight: int) -> int {
    let n = count_upto(h, 255);
    let nb = count_upto(h, t);
    let nf = n - nb;
    let sb = mass_upto(h, t);
    let sf = mass_upto(h, 255) - sb;
    if nb == 0 || nf == 0 {
        0
    } else {
        1000 * ((sb * nf - sf * nb) * (sb * nf - sf * nb)) * (100000 - weight * (100 - t)) / (nb
            * nf * (n * n) * 100000)
    }
}

/// The last threshold below `k` of largest positive weighted variance, and
/// that variance; (0, 0) when none is above zero. Among thresholds of equal
/// variance the last is kept, so that a threshold between two clusters of
/// values lies just below the upper cluster.
pub open spec fn best_weighted(h: Seq<int>, weight: int, k: int) -> (int, int)
    decreases k,
{
    if k <= 0 {
        (0, 0)
    } else {
        let prev = best_weighted(h, weight, k - 1);
        let s = weighted_score(h, k - 1, weight);
        if s > 0 && s >= prev.1 {
            (k - 1, s)
        } else {
            prev
        }
    }
}

fn mul_small(a: i128, b: i128) -> (r: i128)
    requires
        0 <= a <= 0x1_0000_0000_0000_0000,
        0 <= b <= 0x1_0000_0000,
    ensures
        r == a * b,
        0 <= r <= 0x1_0000_0000_0000_0000_0000_0000,
{
    assert(0 <= a * b <= 0x1_0000_0000_0000_0000_0000_0000) by (nonlinear_arith)
        requires
            0 <= a <= 0x1_0000_0000_0000_0000,
            0 <= b <= 0x1_0000_0000,
    ;
    a * b
}

/// Histogram of a sequence of values.
pub fn value_histogram(data: &Vec<u8>) -> (h: Vec<u64>)
    requires
        data@.len() <= MAX_PIXELS,
    ensures
        hist_view(h@) == values_hist(data@, data@.len() as int),
        h@.len() == 256,
{
    let mut h: Vec<u64> = vec![0u64; 256];
    assert(hist_view(h@) =~= zeros());
    let mut i: usize = 0;
    while i < data.len()
        invariant
            i <= data@.len() <= MAX_PIXELS,
            h@.len() == 256,
            hist_view(h@) == values_hist(data@, i as int),
        decreases data@.len() - i,
    {
        let v = data[i] as usize;
        proof {
            lemma_values_hist(data@, i as int);
            lemma_count_bounds(values_hist(data@, i as int), v as int);
            lemma_count_mono(values_hist(data@, i as int), v as int - 1, v as int);
        }
        h.set(v, h[v] + 1);
        assert(hist_view(h@) =~= values_hist(data@, i as int + 1));
        i = i + 1;
    }
    h
}

/// Otsu's threshold of a set of fill rates in percent, each option being a
/// sample, with the weighted variance (see `weighted_score`) it achieves.
pub fn get_otsu(data: &Vec<u8>, weight_permille: i64) -> (r: (u8, i128))
    requires
        data@.len() <= MAX_OPTIONS,
        0 <= weight_permille <= 1000,
    ensures
        r.0 as int == best_weighted(values_hist(data@, data@.len() as int), weight_permille as int, 256).0,
        r.1 as int == best_weighted(values_hist(data@, data@.len() as int), weight_permille as int, 256).1,
{
    let hist = value_histogram(data);
    let ghost h = hist_view(hist@);
    proof {
        lemma_values_hist(data@, data@.len() as int);
    }
    let n: u64 = data.len() as u64;
    let mut total_mass: u64 = 0;
    let mut t: usize = 0;
    while t < 256
        invariant
            t <= 256,
            h == hist_view(hist@),
            hist@.len() == 256,
            hist_ok(h),
            count_upto(h, 255) == n,
            n <= MAX_OPTIONS,
            total_mass == mass_upto(h, t as int - 1),
        decreases 256 - t,
    {
        proof {
            lemma_count_bounds(h, t as int);
        }
        total_mass = total_mass + (t as u64) * hist[t];
        t = t + 1;
    }
    proof {
        lemma_count_bounds(h, 255);
    }
    let mut nb: u64 = 0;
    let mut sb: u64 = 0;
    let mut best_t: u8 = 0;
    let mut best_s: i128 = 0;
    let mut t: usize = 0;
    while t < 256
        invariant
            t <= 256,
            h == hist_view(hist@),
            hist@.len() == 256,
            hist_ok(h),
            n == count_upto(h, 255),
            n <= MAX_OPTIONS,
            0 <= weight_permille <= 1000,
            total_mass == mass_upto(h, 255),
            total_mass <= 255 * n,
            nb == count_upto(h, t as int - 1),
            sb == mass_upto(h, t as int - 1),
            best_t as int == best_weighted(h, weight_permille as int, t as int).0,
            best_s as int == best_weighted(h, weight_permille as int, t as int).1,
        decreases 256 - t,
    {
        proof {
            lemma_count_bounds(h, t as int);
            lemma_count_bounds(h, t as int - 1);
        }
        nb = nb + hist[t];
        sb = sb + (t as u64) * hist[t];
        let nf = n - nb;
        let s: i128 = if nb == 0 || nf == 0 {
            0
        } else {
            proof {
                lemma_count_mono(h, t as int, 255);
            }
            let sf = total_mass - sb;
            proof {
                lemma_count_bounds(h, t as int);
                assert(sb * nf <= 0x100_0000_0000) by (nonlinear_arith)
                    requires
                        sb <= 255 * 0x1_0000,
                        nf <= 0x1_0000,
                ;
                assert(sf * nb <= 0x100_0000_0000) by (nonlinear_arith)
                    requires
                        sf <= 255 * 0x1_0000,
                        nb <= 0x1_0000,
                ;
            }
            let a = (sb as i128) * (nf as i128) - (sf as i128) * (nb as i128);
            assert(-1000 * 256 <= weight_permille * (100 - t) <= 100000) by (nonlinear_arith)
                requires
                    0 <= weight_permille <= 1000,
                    0 <= t < 256,
            ;
            let f = 100000 - (weight_permille as i128) * (100 - t as i128);
            proof {
                assert(0 <= a * a <= 0x100_0000_0000 * 0x100_0000_0000) by (nonlinear_arith)
                    requires
                        -0x100_0000_0000 <= a <= 0x100_0000_0000,
                ;
                assert(0 <= f <= 255000) by (nonlinear_arith)
                    requires
                        0 <= weight_permille <= 1000,
                        0 <= t < 256,
                        f == 100000 - weight_permille * (100 - t),
                ;
                assert(0 <= 1000 * (a * a) * f <= 1000 * (0x100_0000_0000 * 0x100_0000_0000) * 255000)
                    by (nonlinear_arith)
                    requires
                        0 <= a * a <= 0x100_0000_0000 * 0x100_0000_0000,
                        0 <= f <= 255000,
                ;
                assert(1 <= nb * nf <= 0x1_0000 * 0x1_0000) by (nonlinear_arith)
                    requires
                        1 <= nb <= 0x1_0000,
                        1 <= nf <= 0x1_0000,
                ;
                assert(1 <= n * n <= 0x1_0000 * 0x1_0000) by (nonlinear_arith)
                    requires
                        1 <= n <= 0x1_0000,
                ;
                assert(1 <= (nb * nf) * (n * n) <= (0x1_0000 * 0x1_0000) * (0x1_0000 * 0x1_0000))
                    by (nonlinear_arith)
                    requires
                        1 <= nb * nf <= 0x1_0000 * 0x1_0000,
                        1 <= n * n <= 0x1_0000 * 0x1_0000,
                ;
            }
            let num = 1000 * (a * a) * f;
            let p1 = mul_small(nb as i128, nf as i128);
            let p2 = mul_small(n as i128, n as i128);
            let p3 = mul_small(p1, p2);
            let den = p3 * 100000;
            num / den
        };
        assert(s as int == weighted_score(h, t as int, weight_permille as int));
        if s > 0 && s >= best_s {
            best_s = s;
            best_t = t as u8;
        }
        t = t + 1;
    }
    (best_t, best_s)
}

/// Histogram of the pixels of rectangle `r` of raster `g`.
pub fn crop_histogram(g: &GrayRaster, r: &Coordinate) -> (h: Vec<u64>)
    requires
        g.wf(),
        inside(*g, *r),
    ensures
        h@.len() == 256,
        hist_view(h@) == crop_hist(*g, *r, r.w * r.h),
{
    proof {
        assert(r.w * r.h <= 0x10_0000 * 0x10_0000) by (nonlinear_arith)
            requires
                1 <= r.w <= 0x10_0000,
                1 <= r.h <= 0x10_0000,
        ;
    }
    let area: u64 = (r.w as u64) * (r.h as u64);
    let mut h: Vec<u64> = vec![0u64; 256];
    assert(hist_view(h@) =~= zeros());
    let mut k: u64 = 0;
    while k < area
        invariant
            g.wf(),
            inside(*g, *r),
            area == r.w * r.h,
            area <= 0x100_0000_0000,
            k <= area,
            h@.len() == 256,
            hist_view(h@) == crop_hist(*g, *r, k as int),
        decreases area - k,
    {
        let w = r.w as u64;
        let row = k / w;
        let col = k % w;
        proof {
            vstd::arithmetic::div_mod::lemma_fundamental_div_mod(k as int, w as int);
            assert(row < r.h) by (nonlinear_arith)
                requires
                    k < area,
                    area == w * r.h,
                    k == w * row + col,
                    0 <= col,
                    w >= 1,
            ;
            assert((r.y + row) * g.width + r.x + col < g.width * g.height) by (nonlinear_arith)
                requires
                    0 <= r.x,
                    0 <= r.y,
                    row < r.h,
                    col < w,
                    w == r.w,
                    r.x + r.w <= g.width,
                    r.y + r.h <= g.height,
            ;
            assert((r.y + row) * g.width <= 0x10_0000 * 0x10_0000) by (nonlinear_arith)
                requires
                    r.y + row <= 0x10_0000,
                    g.width <= 0x10_0000,
            ;
        }
        let idx: u64 = (r.y as u64 + row) * (g.width as u64) + r.x as u64 + col;
        let n = g.pixels.len();
        assert(idx < n);
        let p = g.pixels[idx as usize] as usize;
        assert(p as int == crop_pixel(*g, *r, k as int) as int);
        proof {
            lemma_crop_hist(*g, *r, k as int);
            lemma_count_mono(crop_hist(*g, *r, k as int), p as int, 255);
            lemma_count_mono(crop_hist(*g, *r, k as int), p as int - 1, p as int);
        }
        h.set(p, h[p] + 1);
        assert(hist_view(h@) =~= crop_hist(*g, *r, k as int + 1));
        k = k + 1;
    }
    h
}

pub open spec fn hist_sum(a: Seq<int>, b: Seq<int>) -> Seq<int> {
    Seq::new(256, |v: int| a[v] + b[v])
}

/// Adds two histograms bin by bin.
pub fn add_histograms(h1: &Vec<u64>, h2: &Vec<u64>) -> (r: Vec<u64>)
    requires
        h1@.len() == 256,
        h2@.len() == 256,
        forall|v: int| 0 <= v < 256 ==> h1@[v] + h2@[v] <= u64::MAX,
    ensures
        r@.len() == 256,
        hist_view(r@) == hist_sum(hist_view(h1@), hist_view(h2@)),
{
    let mut r: Vec<u64> = Vec::new();
    let mut v: usize = 0;
    while v < 256
        invariant
            v <= 256,
            h1@.len() == 256,
            h2@.len() == 256,
            forall|u: int| 0 <= u < 256 ==> h1@[u] + h2@[u] <= u64::MAX,
            r@.len() == v,
            forall|u: int| 0 <= u < v ==> r@[u] == h1@[u] + h2@[u],
        decreases 256 - v,
    {
        r.push(h1[v] + h2[v]);
        v = v + 1;
    }
    assert(hist_view(r@) =~= hist_sum(hist_view(h1@), hist_view(h2@)));
    r
}

/// Fill rate in percent of a crop whose histogram is `h`, binarized at
/// threshold `t`: the share of its pixels at or below `t`.
pub open spec fn fill_at(h: Seq<int>, t: int) -> int {
    100 * count_upto(h, t) / count_upto(h, 255)
}

/// A rectangle moved by (`dx`, `dy`).
pub open spec fn shifted(r: Coordinate, dx: int, dy: int) -> Coordinate {
    Coordinate { x: (r.x + dx) as i32, y: (r.y + dy) as i32, ..r }
}

pub open spec fn all_inside(g: GrayRaster, rects: Seq<Coordinate>) -> bool {
    forall|i: int| 0 <= i < rects.len() ==> inside(g, #[trigger] rects[i])
}

/// Number of pixels of the first `k` rectangles.
pub open spec fn total_area(rects: Seq<Coordinate>, k: int) -> int
    decreases k,
{
    if k <= 0 {
        0
    } else {
        total_area(rects, k - 1) + rects[k - 1].w * rects[k - 1].h
    }
}

/// The histogram of the pixels of the first `k` rectangles together.
pub open spec fn group_hist(g: GrayRaster, rects: Seq<Coordinate>, k: int) -> Seq<int>
    decreases k,
{
    if k <= 0 {
        zeros()
    } else {
        hist_sum(group_hist(g, rects, k - 1), crop_hist(g, rects[k - 1], rects[k - 1].w * rects[k - 1].h))
    }
}

/// The fill rate, in percent, of each rectangle binarized at threshold `t`.
pub open spec fn fills_at(g: GrayRaster, rects: Seq<Coordinate>, t: int) -> Seq<u8> {
    Seq::new(
        rects.len(),
        |i: int| fill_at(crop_hist(g, rects[i], rects[i].w * rects[i].h), t) as u8,
    )
}

/// The outcome of one offset of the neighbourhood search: the group's Otsu
/// threshold, the options' fill rates at it, and their weighted variance.
#[derive(Debug, Clone)]
pub struct OffsetFill {
    pub fills: Vec<u8>,
    pub variance: i128,
    pub threshold: u8,
}

/// The offset's outcome, for a group whose rectangles all lie inside the
/// raster and cover at most `MAX_PIXELS` pixels.
pub open spec fn offset_outcome(g: GrayRaster, rects: Seq<Coordinate>, weight: int) -> Option<
    (Seq<u8>, int, int),
> {
    if all_inside(g, rects) && total_area(rects, rects.len() as int) <= MAX_PIXELS && rects.len()
        <= MAX_OPTIONS {
        let t = best_otsu(group_hist(g, rects, rects.len() as int), 256).0;
        let f = fills_at(g, rects, t);
        Some((f, best_weighted(values_hist(f, f.len() as int), weight, 256).1, t))
    } else {
        None
    }
}

proof fn lemma_group_hist(g: GrayRaster, rects: Seq<Coordinate>, k: int)
    requires
        0 <= k <= rects.len(),
        all_inside(g, rects),
    ensures
        hist_ok(group_hist(g, rects, k)),
        count_upto(group_hist(g, rects, k), 255) == total_area(rects, k),
    decreases k,
{
    if k == 0 {
        lemma_count_zeros(255);
    } else {
        lemma_group_hist(g, rects, k - 1);
        let r = rects[k - 1];
        assert(inside(g, r));
        assert(0 <= r.w * r.h) by (nonlinear_arith)
            requires
                1 <= r.w,
                1 <= r.h,
        ;
        lemma_crop_hist(g, r, r.w * r.h);
        lemma_count_sum(group_hist(g, rects, k - 1), crop_hist(g, r, r.w * r.h), 255);
    }
}

proof fn lemma_count_sum(a: Seq<int>, b: Seq<int>, t: int)
    requires
        hist_ok(a),
        hist_ok(b),
        -1 <= t < 256,
    ensures
        hist_ok(hist_sum(a, b)),
        count_upto(hist_sum(a, b), t) == count_upto(a, t) + count_upto(b, t),
    decreases t + 1,
{
    if t >= 0 {
        lemma_count_sum(a, b, t - 1);
    }
}

proof fn lemma_fill_at_bound(h: Seq<int>, t: int)
    requires
        hist_ok(h),
        0 <= t < 256,
        count_upto(h, 255) > 0,
    ensures
        0 <= fill_at(h, t) <= 100,
{
    lemma_count_mono(h, t, 255);
    let c = count_upto(h, t);
    let n = count_upto(h, 255);
    vstd::arithmetic::div_mod::lemma_div_is_ordered(100 * c, 100 * n, n);
    vstd::arithmetic::div_mod::lemma_div_multiples_vanish(100, n);
    assert(100 * n == n * 100) by (nonlinear_arith);
    vstd::arithmetic::div_mod::lemma_div_pos_is_pos(100 * c, n);
}

/// Runs one offset of the neighbourhood search on rectangles already moved
/// by that offset (see `offset_outcome`).
pub fn offset_fill(g: &GrayRaster, rects: &Vec<Coordinate>, weight_permille: i64) -> (r: Option<
    OffsetFill,
>)
    requires
        g.wf(),
        0 <= weight_permille <= 1000,
    ensures
        r.is_some() == offset_outcome(*g, rects@, weight_permille as int).is_some(),
        r.is_some() ==> ({
            let o = offset_outcome(*g, rects@, weight_permille as int).unwrap();
            &&& r.unwrap().fills@ == o.0
            &&& r.unwrap().variance == o.1
            &&& r.unwrap().threshold == o.2
        }),
{
    if rects.len() > MAX_OPTIONS {
        return None;
    }
    let mut combined: Vec<u64> = vec![0u64; 256];
    assert(hist_view(combined@) =~= zeros());
    let mut hists: Vec<Vec<u64>> = Vec::new();
    let mut area: u64 = 0;
    let mut i: usize = 0;
    while i < rects.len()
        invariant
            g.wf(),
            i <= rects@.len() <= MAX_OPTIONS,
            combined@.len() == 256,
            hists@.len() == i,
            forall|k: int| 0 <= k < i ==> inside(*g, #[trigger] rects@[k]),
            forall|k: int|
                0 <= k < i ==> (#[trigger] hists@[k])@.len() == 256 && hist_view(hists@[k]@)
                    == crop_hist(*g, rects@[k], rects@[k].w * rects@[k].h),
            area == total_area(rects@, i as int),
            area <= MAX_PIXELS,
            hist_view(combined@) == group_hist(*g, rects@, i as int),
        decreases rects@.len() - i,
    {
        let r = rects[i];
        if r.x < 0 || r.y < 0 || r.w < 1 || r.h < 1 || r.x as i64 + r.w as i64 > g.width as i64
            || r.y as i64 + r.h as i64 > g.height as i64 {
            proof {
                assert(!inside(*g, rects@[i as int]));
            }
            return None;
        }
        proof {
            assert(r.w * r.h <= 0x10_0000 * 0x10_0000) by (nonlinear_arith)
                requires
                    1 <= r.w <= 0x10_0000,
                    1 <= r.h <= 0x10_0000,
            ;
        }
        let a = (r.w as u64) * (r.h as u64);
        if area + a > MAX_PIXELS {
            proof {
                lemma_total_area_mono(rects@, i as int + 1, rects@.len() as int);
            }
            return None;
        }
        let h = crop_histogram(g, &r);
        proof {
            let sub = rects@.take(i as int + 1);
            assert(forall|k: int| 0 <= k < i + 1 ==> inside(*g, #[trigger] rects@[k]));
            lemma_group_prefix(*g, rects@, i as int);
            lemma_crop_hist(*g, r, r.w * r.h);
            lemma_count_mono(crop_hist(*g, r, r.w * r.h), 0, 255);
            lemma_count_mono(group_hist(*g, rects@, i as int), 0, 255);
            assert forall|v: int| 0 <= v < 256 implies combined@[v] + h@[v] <= u64::MAX by {
                lemma_bin_le_count(crop_hist(*g, r, r.w * r.h), v);
                lemma_bin_le_count(group_hist(*g, rects@, i as int), v);
            }
        }
        combined = add_histograms(&combined, &h);
        hists.push(h);
        area = area + a;
        i = i + 1;
    }
    proof {
        assert(all_inside(*g, rects@));
        lemma_group_hist(*g, rects@, rects@.len() as int);
    }
    let (t, _) = otsu_level_and_var_from_hist(&combined);
    let mut fills: Vec<u8> = Vec::new();
    let mut k: usize = 0;
    while k < hists.len()
        invariant
            k <= hists@.len(),
            hists@.len() == rects@.len(),
            g.wf(),
            all_inside(*g, rects@),
            forall|j: int|
                0 <= j < hists@.len() ==> (#[trigger] hists@[j])@.len() == 256 && hist_view(hists@[j]@)
                    == crop_hist(*g, rects@[j], rects@[j].w * rects@[j].h),
            fills@.len() == k,
            forall|j: int| 0 <= j < k ==> fills@[j] == #[trigger] fills_at(*g, rects@, t as int)[j],
        decreases hists@.len() - k,
    {
        let h = &hists[k];
        let ghost hv = hist_view(h@);
        proof {
            let r = rects@[k as int];
            assert(inside(*g, r));
            assert(1 <= r.w * r.h) by (nonlinear_arith)
                requires
                    1 <= r.w,
                    1 <= r.h,
            ;
            assert(r.w * r.h <= 0x100_0000_0000) by (nonlinear_arith)
                requires
                    1 <= r.w <= 0x10_0000,
                    1 <= r.h <= 0x10_0000,
            ;
            lemma_crop_hist(*g, r, r.w * r.h);
            lemma_count_bounds(hv, 255);
        }
        let mut below: u64 = 0;
        let mut total: u64 = 0;
        let mut v: usize = 0;
        while v < 256
            invariant
                v <= 256,
                h@.len() == 256,
                hv == hist_view(h@),
                hist_ok(hv),
                count_upto(hv, 255) <= 0x100_0000_0000,
                below == count_upto(hv, (if v <= t as usize {
                    v as int
                } else {
                    t as int + 1
                }) - 1),
                total == count_upto(hv, v as int - 1),
            decreases 256 - v,
        {
            proof {
                lemma_count_mono(hv, v as int, 255);
                lemma_count_mono(hv, t as int, 255);
            }
            total = total + h[v];
            if v <= t as usize {
                below = below + h[v];
            }
            v = v + 1;
        }
        proof {
            assert(below == count_upto(hv, t as int));
            lemma_fill_at_bound(hv, t as int);
            lemma_count_mono(hv, t as int, 255);
        }
        let f = (100 * below) / total;
        fills.push(f as u8);
        k = k + 1;
    }
    assert(fills@ =~= fills_at(*g, rects@, t as int));
    let (_, var) = get_otsu(&fills, weight_permille);
    Some(OffsetFill { fills, variance: var, threshold: t })
}

proof fn lemma_bin_le_count(h: Seq<int>, v: int)
    requires
        hist_ok(h),
        0 <= v < 256,
    ensures
        h[v] <= count_upto(h, 255),
{
    lemma_count_mono(h, v - 1, v);
    lemma_count_mono(h, v, 255);
}

proof fn lemma_total_area_mono(rects: Seq<Coordinate>, k: int, n: int)
    requires
        0 <= k <= n <= rects.len(),
        forall|i: int| 0 <= i < k ==> 1 <= (#[trigger] rects[i]).w && 1 <= rects[i].h,
    ensures
        total_area(rects, k) <= total_area(rects, n) || exists|i: int|
            k <= i < n && !(1 <= (#[trigger] rects[i]).w && 1 <= rects[i].h),
    decreases n - k,
{
    if k < n {
        lemma_total_area_mono(rects, k, n - 1);
        let r = rects[n - 1];
        if 1 <= r.w && 1 <= r.h {
            assert(0 <= r.w * r.h) by (nonlinear_arith)
                requires
                    1 <= r.w,
                    1 <= r.h,
            ;
        }
    }
}

proof fn lemma_group_prefix(g: GrayRaster, rects: Seq<Coordinate>, i: int)
    requires
        0 <= i < rects.len(),
        forall|k: int| 0 <= k <= i ==> inside(g, #[trigger] rects[k]),
    ensures
        hist_ok(group_hist(g, rects, i)),
        count_upto(group_hist(g, rects, i), 255) == total_area(rects, i),
    decreases i,
{
    if i == 0 {
        lemma_count_zeros(255);
    } else {
        lemma_group_prefix(g, rects, i - 1);
        let r = rects[i - 1];
        assert(inside(g, r));
        assert(0 <= r.w * r.h) by (nonlinear_arith)
            requires
                1 <= r.w,
                1 <= r.h,
        ;
        lemma_crop_hist(g, r, r.w * r.h);
        lemma_count_sum(group_hist(g, rects, i - 1), crop_hist(g, r, r.w * r.h), 255);
    }
}

/// The rectangles of `rects` moved by (`dx`, `dy`).
pub open spec fn shifted_all(rects: Seq<Coordinate>, dx: int, dy: int) -> Seq<Coordinate> {
    Seq::new(rects.len(), |i: int| shifted(rects[i], dx, dy))
}

/// Result of the neighbourhood search: the fill rates at the offset of
/// largest variance, that variance, and the smallest variance met with the
/// threshold that gave it.
#[derive(Debug, Clone)]
pub struct GroupSearch {
    pub primary: Vec<u8>,
    pub max_variance: i128,
    pub min_variance: i128,
    pub min_threshold: u8,
}

/// The search over the first `k` offset outcomes: the first offset of
/// largest variance gives the primary fill rates; the first of smallest
/// variance gives the minimum and its threshold.
pub open spec fn search_state(outs: Seq<Option<(Seq<u8>, int, int)>>, k: int) -> Option<
    (Seq<u8>, int, int, int),
>
    decreases k,
{
    if k <= 0 {
        None
    } else {
        let prev = search_state(outs, k - 1);
        match outs[k - 1] {
            None => prev,
            Some(o) => match prev {
                None => Some((o.0, o.1, o.1, o.2)),
                Some(p) => Some(
                    (
                        if o.1 > p.1 {
                            o.0
                        } else {
                            p.0
                        },
                        if o.1 > p.1 {
                            o.1
                        } else {
                            p.1
                        },
                        if o.1 < p.2 {
                            o.1
                        } else {
                            p.2
                        },
                        if o.1 < p.2 {
                            o.2
                        } else {
                            p.3
                        },
                    ),
                ),
            },
        }
    }
}

pub open spec fn offset_outcomes(
    g: GrayRaster,
    rects: Seq<Coordinate>,
    offsets: Seq<(i32, i32)>,
    weight: int,
) -> Seq<Option<(Seq<u8>, int, int)>> {
    Seq::new(
        offsets.len(),
        |k: int| offset_outcome(g, shifted_all(rects, offsets[k].0 as int, offsets[k].1 as int), weight),
    )
}

/// Searches the offsets for the group's binarization: at each offset the
/// options' crops are moved, the group threshold is Otsu's on their joint
/// histogram, and the offset is scored by the weighted variance of the
/// options' fill rates (see `offset_outcome` and `search_state`).
pub fn search_group_fill(
    g: &GrayRaster,
    rects: &Vec<Coordinate>,
    offsets: &Vec<(i32, i32)>,
    weight_permille: i64,
) -> (r: Option<GroupSearch>)
    requires
        g.wf(),
        0 <= weight_permille <= 1000,
        forall|i: int| 0 <= i < rects@.len() ==> (#[trigger] rects@[i]).in_range(),
        forall|k: int|
            0 <= k < offsets@.len() ==> -PIXEL_LIMIT <= (#[trigger] offsets@[k]).0 <= PIXEL_LIMIT
                && -PIXEL_LIMIT <= offsets@[k].1 <= PIXEL_LIMIT,
    ensures
        r.is_some() == search_state(
            offset_outcomes(*g, rects@, offsets@, weight_permille as int),
            offsets@.len() as int,
        ).is_some(),
        r.is_some() ==> ({
            let s = search_state(
                offset_outcomes(*g, rects@, offsets@, weight_permille as int),
                offsets@.len() as int,
            ).unwrap();
            &&& r.unwrap().primary@ == s.0
            &&& r.unwrap().max_variance == s.1
            &&& r.unwrap().min_variance == s.2
            &&& r.unwrap().min_threshold == s.3
        }),
{
    let ghost outs = offset_outcomes(*g, rects@, offsets@, weight_permille as int);
    let mut best: Option<GroupSearch> = None;
    let mut k: usize = 0;
    while k < offsets.len()
        invariant
            k <= offsets@.len(),
            g.wf(),
            0 <= weight_permille <= 1000,
            forall|i: int| 0 <= i < rects@.len() ==> (#[trigger] rects@[i]).in_range(),
            forall|j: int|
                0 <= j < offsets@.len() ==> -PIXEL_LIMIT <= (#[trigger] offsets@[j]).0 <= PIXEL_LIMIT
                    && -PIXEL_LIMIT <= offsets@[j].1 <= PIXEL_LIMIT,
            outs == offset_outcomes(*g, rects@, offsets@, weight_permille as int),
            best.is_some() == search_state(outs, k as int).is_some(),
            best.is_some() ==> ({
                let s = search_state(outs, k as int).unwrap();
                &&& best.unwrap().primary@ == s.0
                &&& best.unwrap().max_variance == s.1
                &&& best.unwrap().min_variance == s.2
                &&& best.unwrap().min_threshold == s.3
            }),
        decreases offsets@.len() - k,
    {
        let (dx, dy) = offsets[k];
        let mut moved: Vec<Coordinate> = Vec::new();
        let mut i: usize = 0;
        while i < rects.len()
            invariant
                i <= rects@.len(),
                -PIXEL_LIMIT <= dx <= PIXEL_LIMIT,
                -PIXEL_LIMIT <= dy <= PIXEL_LIMIT,
                forall|j: int| 0 <= j < rects@.len() ==> (#[trigger] rects@[j]).in_range(),
                moved@ =~= shifted_all(rects@, dx as int, dy as int).take(i as int),
            decreases rects@.len() - i,
        {
            let r = rects[i];
            assert(rects@[i as int].in_range());
            moved.push(Coordinate { x: r.x + dx, y: r.y + dy, ..r });
            i = i + 1;
        }
        assert(moved@ =~= shifted_all(rects@, dx as int, dy as int));
        let o = offset_fill(g, &moved, weight_permille);
        assert(outs[k as int] == offset_outcome(*g, moved@, weight_permille as int));
        match o {
            None => {},
            Some(of) => {
                match best {
                    None => {
                        best = Some(
                            GroupSearch {
                                primary: of.fills,
                                max_variance: of.variance,
                                min_variance: of.variance,
                                min_threshold: of.threshold,
                            },
                        );
                    },
                    Some(b) => {
                        let (p, mx) = if of.variance > b.max_variance {
                            (of.fills, of.variance)
                        } else {
                            (b.primary, b.max_variance)
                        };
                        let (mn, mt) = if of.variance < b.min_variance {
                            (of.variance, of.threshold)
                        } else {
                            (b.min_variance, b.min_threshold)
                        };
                        best = Some(
                            GroupSearch {
                                primary: p,
                                max_variance: mx,
                                min_variance: mn,
                                min_threshold: mt,
                            },
                        );
                    },
                }
            },
        }
        k = k + 1;
    }
    best
}

/// The fill rate, in percent, of each rectangle binarized at threshold `t`.
pub fn fills_at_threshold(g: &GrayRaster, rects: &Vec<Coordinate>, t: u8) -> (r: Vec<u8>)
    requires
        g.wf(),
        all_inside(*g, rects@),
    ensures
        r@ == fills_at(*g, rects@, t as int),
{
    let mut fills: Vec<u8> = Vec::new();
    let mut k: usize = 0;
    while k < rects.len()
        invariant
            k <= rects@.len(),
            g.wf(),
            all_inside(*g, rects@),
            fills@.len() == k,
            forall|j: int| 0 <= j < k ==> fills@[j] == #[trigger] fills_at(*g, rects@, t as int)[j],
        decreases rects@.len() - k,
    {
        let r = rects[k];
        assert(inside(*g, rects@[k as int]));
        let h = crop_histogram(g, &r);
        let ghost hv = hist_view(h@);
        proof {
            assert(1 <= r.w * r.h <= 0x100_0000_0000) by (nonlinear_arith)
                requires
                    1 <= r.w <= 0x10_0000,
                    1 <= r.h <= 0x10_0000,
            ;
            lemma_crop_hist(*g, r, r.w * r.h);
            lemma_count_bounds(hv, 255);
        }
        let mut below: u64 = 0;
        let mut total: u64 = 0;
        let mut v: usize = 0;
        while v < 256
            invariant
                v <= 256,
                h@.len() == 256,
                hv == hist_view(h@),
                hist_ok(hv),
                count_upto(hv, 255) <= 0x100_0000_0000,
                below == count_upto(hv, (if v <= t as usize {
                    v as int
                } else {
                    t as int + 1
                }) - 1),
                total == count_upto(hv, v as int - 1),
            decreases 256 - v,
        {
            proof {
                lemma_count_mono(hv, v as int, 255);
                lemma_count_mono(hv, t as int, 255);
            }
            total = total + h[v];
            if v <= t as usize {
                below = below + h[v];
            }
            v = v + 1;
        }
        proof {
            assert(below == count_upto(hv, t as int));
            lemma_fill_at_bound(hv, t as int);
            lemma_count_mono(hv, t as int, 255);
        }
        let f = (100 * below) / total;
        fills.push(f as u8);
        k = k + 1;
    }
    assert(fills@ =~= fills_at(*g, rects@, t as int));
    fills
}

/// The group's fill rates after the special cases: all filled when even the
/// least varied offset is nearly uniform at a dark threshold (ink showing
/// through); the page-wide binarization when the group is uniform; else the
/// primary search result.
pub open spec fn group_choice(
    primary: Seq<u8>,
    min_var: int,
    min_threshold: int,
    global: Seq<u8>,
    args: FillArgs,
) -> Seq<u8> {
    if min_var < args.all_fill_var && min_threshold < args.all_fill_otsu {
        Seq::new(primary.len(), |i: int| 100u8)
    } else if min_var < args.all_fill_or_empty_min_var {
        global
    } else {
        primary
    }
}

/// Applies the special cases of uniform groups to a search result;
/// `global` holds the options' fill rates at the page-wide threshold. A
/// group whose least variance is below the all-filled bound at a threshold
/// below the all-filled ceiling comes out all filled, whatever its options'
/// fill rates.
pub fn choose_group_fills(search: &GroupSearch, global: &Vec<u8>, args: &FillArgs) -> (r: Vec<u8>)
    ensures
        r@ == group_choice(
            search.primary@,
            search.min_variance as int,
            search.min_threshold as int,
            global@,
            *args,
        ),
        search.min_variance < args.all_fill_var && search.min_threshold < args.all_fill_otsu ==> (
        r@.len() == search.primary@.len() && forall|i: int| 0 <= i < r@.len() ==> r@[i] == 100),
{
    if (search.min_variance < args.all_fill_var as i128) && search.min_threshold < args.all_fill_otsu {
        let mut r: Vec<u8> = Vec::new();
        let mut i: usize = 0;
        while i < search.primary.len()
            invariant
                i <= search.primary@.len(),
                r@.len() == i,
                forall|j: int| 0 <= j < i ==> r@[j] == 100,
            decreases search.primary@.len() - i,
        {
            r.push(100);
            i = i + 1;
        }
        assert(r@ =~= Seq::new(search.primary@.len(), |i: int| 100u8));
        r
    } else if search.min_variance < args.all_fill_or_empty_min_var as i128 {
        global.clone()
    } else {
        search.primary.clone()
    }
}

/// The largest of the first `k` values, or zero.
pub open spec fn seq_max(s: Seq<u8>, k: int) -> int
    decreases k,
{
    if k <= 0 {
        0
    } else if s[k - 1] as int > seq_max(s, k - 1) {
        s[k - 1] as int
    } else {
        seq_max(s, k - 1)
    }
}

/// The final per-option decision of a group. Where the weighted Otsu
/// variance of its fill rates is below `same_var` the group is uniform:
/// all filled when its largest rate reaches the filled ceiling, all empty
/// when it stays under the empty ceiling. Otherwise an option is filled when
/// its rate is above the group's Otsu threshold.
pub open spec fn binarized(values: Seq<u8>, args: FillArgs, same_var: int) -> Seq<bool> {
    let b = best_weighted(values_hist(values, values.len() as int), args.otsu_black_fill_sep_weight_permille as int, 256);
    let mx = seq_max(values, values.len() as int);
    if b.1 < same_var && mx >= args.fill_same_max {
        Seq::new(values.len(), |i: int| true)
    } else if b.1 < same_var && mx < args.empty_same_max {
        Seq::new(values.len(), |i: int| false)
    } else {
        Seq::new(values.len(), |i: int| values[i] > b.0)
    }
}

/// Decides each option of a group filled or not (see `binarized`).
pub fn set_filled_use_threshold(values: &Vec<u8>, args: &FillArgs, same_var: i64) -> (r: Vec<bool>)
    requires
        values@.len() <= MAX_OPTIONS,
        0 <= args.otsu_black_fill_sep_weight_permille <= 1000,
    ensures
        r@ == binarized(values@, *args, same_var as int),
{
    let (t, var) = get_otsu(values, args.otsu_black_fill_sep_weight_permille);
    let mut mx: u8 = 0;
    let mut i: usize = 0;
    while i < values.len()
        invariant
            i <= values@.len(),
            mx as int == seq_max(values@, i as int),
        decreases values@.len() - i,
    {
        if values[i] > mx {
            mx = values[i];
        }
        i = i + 1;
    }
    let uniform = var < same_var as i128;
    let mut r: Vec<bool> = Vec::new();
    let mut k: usize = 0;
    while k < values.len()
        invariant
            k <= values@.len(),
            r@.len() == k,
            mx as int == seq_max(values@, values@.len() as int),
            uniform == (var < same_var),
            forall|j: int|
                0 <= j < k ==> r@[j] == (if uniform && mx >= args.fill_same_max {
                    true
                } else if uniform && mx < args.empty_same_max {
                    false
                } else {
                    values@[j] > t
                }),
        decreases values@.len() - k,
    {
        let v = if uniform && mx >= args.fill_same_max {
            true
        } else if uniform && mx < args.empty_same_max {
            false
        } else {
            values[k] > t
        };
        r.push(v);
        k = k + 1;
    }
    assert(r@ =~= binarized(values@, *args, same_var as int));
    r
}

/// The largest fill rate, in per mille, of the rectangle moved anywhere in
/// the square of offsets `[-space, space]` (first `k` offsets, row by row),
/// and `start`.
pub open spec fn neighborhood_max(ii: IntegralImage, c: Coordinate, space: int, start: int, k: int) -> int
    decreases k,
{
    if k <= 0 {
        start
    } else {
        let p = neighborhood_max(ii, c, space, start, k - 1);
        let side = 2 * space + 1;
        let dx = -space + (k - 1) / side;
        let dy = -space + (k - 1) % side;
        let f = region_fill(ii, Coordinate { x: (c.x + dx) as i32, y: (c.y + dy) as i32, ..c });
        if p < f {
            f
        } else {
            p
        }
    }
}

/// The largest fill rate of the rectangle over its neighbourhood of
/// `neighborhood_size` pixels, starting from `start_fillrate`.
pub fn find_max_fillrate_in_neighborhood(
    integral_image: &IntegralImage,
    coordinate: &Coordinate,
    start_fillrate: i128,
    neighborhood_size: u8,
) -> (r: i128)
    requires
        integral_image.wf(),
        coordinate.in_range(),
        -0x8000_0000_0000_0000 * 5000 <= start_fillrate <= 0x8000_0000_0000_0000 * 5000,
    ensures
        ({
            let space = (neighborhood_size / 2) as int;
            r == neighborhood_max(*integral_image, *coordinate, space, start_fillrate as int, (2 * space + 1) * (2 * space + 1))
        }),
        -0x8000_0000_0000_0000 * 5000 <= r <= 0x8000_0000_0000_0000 * 5000,
{
    let space: i64 = (neighborhood_size / 2) as i64;
    let side: i64 = 2 * space + 1;
    assert(side * side <= 65025) by (nonlinear_arith)
        requires
            1 <= side <= 255,
    ;
    let total: i64 = side * side;
    let mut best = start_fillrate;
    let mut q: i64 = 0;
    while q < total
        invariant
            integral_image.wf(),
            coordinate.in_range(),
            0 <= space <= 127,
            side == 2 * space + 1,
            total == side * side,
            0 <= q <= total,
            best == neighborhood_max(*integral_image, *coordinate, space as int, start_fillrate as int, q as int),
            -0x8000_0000_0000_0000 * 5000 <= best <= 0x8000_0000_0000_0000 * 5000,
        decreases total - q,
    {
        let dx = -space + q / side;
        let dy = -space + q % side;
        proof {
            vstd::arithmetic::div_mod::lemma_fundamental_div_mod(q as int, side as int);
            assert(0 <= q / side < side) by (nonlinear_arith)
                requires
                    0 <= q < side * side,
                    side >= 1,
                    q == side * (q / side) + q % side,
                    0 <= q % side < side,
            ;
        }
        let moved = Coordinate { x: coordinate.x + dx as i32, y: coordinate.y + dy as i32, ..*coordinate };
        let f = calculate_fill_ratio(integral_image, &moved);
        if best < f {
            best = f;
        }
        q = q + 1;
    }
    best
}

/// A fill rate corrected for the printed letter of its option: the rate of
/// the first of the four configured letters that matches is subtracted.
pub open spec fn finetuned(rate: int, label: Option<char>, args: FillArgs) -> int {
    match label {
        None => rate,
        Some(ch) => if ch == args.text_a.text {
            rate - args.text_a.rate_permille
        } else if ch == args.text_b.text {
            rate - args.text_b.rate_permille
        } else if ch == args.text_c.text {
            rate - args.text_c.rate_permille
        } else if ch == args.text_d.text {
            rate - args.text_d.rate_permille
        } else {
            rate
        },
    }
}

/// Corrects a fill rate for the first letter of its option's label (see
/// `finetuned`).
pub fn finetune_rate(rate: i128, label: Option<char>, args: &FillArgs) -> (r: i128)
    requires
        -0x8000_0000_0000_0000 * 5000 <= rate <= 0x8000_0000_0000_0000 * 5000,
    ensures
        r == finetuned(rate as int, label, *args),
{
    match label {
        None => rate,
        Some(ch) => {
            if ch == args.text_a.text {
                rate - args.text_a.rate_permille as i128
            } else if ch == args.text_b.text {
                rate - args.text_b.rate_permille as i128
            } else if ch == args.text_c.text {
                rate - args.text_c.rate_permille as i128
            } else if ch == args.text_d.text {
                rate - args.text_d.rate_permille as i128
            } else {
                rate
            }
        },
    }
}

/// `v` held within `[0, 1000]`.
pub open spec fn clamp_rate(v: int) -> int {
    if v < 0 {
        0
    } else if v > 1000 {
        1000
    } else {
        v
    }
}

/// The fill rate of one option, in per mille: the largest over its
/// neighbourhood, corrected for its letter, held within `[0, 1000]`.
pub fn rec_black_fill(
    img: &IntegralImage,
    coordinate: &Coordinate,
    label: Option<char>,
    args: &FillArgs,
    neighborhood_size: u8,
) -> (r: i64)
    requires
        img.wf(),
        coordinate.in_range(),
    ensures
        ({
            let space = (neighborhood_size / 2) as int;
            let m = neighborhood_max(
                *img,
                *coordinate,
                space,
                region_fill(*img, *coordinate),
                (2 * space + 1) * (2 * space + 1),
            );
            r == clamp_rate(finetuned(m, label, *args))
        }),
        0 <= r <= 1000,
{
    let f = calculate_fill_ratio(img, coordinate);
    let m = find_max_fillrate_in_neighborhood(img, coordinate, f, neighborhood_size);
    let t = finetune_rate(m, label, args);
    if t < 0 {
        0
    } else if t > 1000 {
        1000
    } else {
        t as i64
    }
}

/// Fill rates in per mille as whole percents, for the Otsu search.
pub fn get_array_values_for_otsu(rates: &Vec<i64>) -> (r: Vec<u8>)
    requires
        forall|i: int| 0 <= i < rates@.len() ==> 0 <= #[trigger] rates@[i] <= 1000,
    ensures
        r@.len() == rates@.len(),
        forall|i: int| 0 <= i < rates@.len() ==> #[trigger] r@[i] == rates@[i] / 10,
{
    let mut r: Vec<u8> = Vec::new();
    let mut i: usize = 0;
    while i < rates.len()
        invariant
            i <= rates@.len(),
            forall|k: int| 0 <= k < rates@.len() ==> 0 <= #[trigger] rates@[k] <= 1000,
            r@.len() == i,
            forall|k: int| 0 <= k < i ==> #[trigger] r@[k] == rates@[k] / 10,
        decreases rates@.len() - i,
    {
        let v = rates[i];
        r.push((v / 10) as u8);
        i = i + 1;
    }
    r
}

/// Otsu's threshold of a whole raster of at most `MAX_PIXELS` pixels, with
/// its score (see `otsu_score`).
pub fn otsu_level_and_variance(image: &GrayRaster) -> (r: (u8, u128))
    requires
        image.wf(),
        1 <= image.width,
        1 <= image.height,
        image.width * image.height <= MAX_PIXELS,
    ensures
        ({
            let whole = Coordinate { x: 0, y: 0, w: image.width as i32, h: image.height as i32 };
            let b = best_otsu(crop_hist(*image, whole, image.width * image.height), 256);
            r.0 as int == b.0 && r.1 as int == b.1
        }),
{
    let whole = Coordinate { x: 0, y: 0, w: image.width as i32, h: image.height as i32 };
    let h = crop_histogram(image, &whole);
    proof {
        lemma_crop_hist(*image, whole, image.width * image.height);
    }
    otsu_level_and_var_from_hist(&h)
}

} // verus!
