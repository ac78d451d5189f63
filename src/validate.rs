//! The geometric contract of a fiducial set, and the repair of a set with
//! one bad corner from the three others.
use vstd::prelude::*;
use crate::config::ImageBaizheng;
use crate::geometry::{Coordinate, PIXEL_LIMIT, div_trunc, trunc_div};
use crate::numeric::{
    COS_SCALE,
    floor_sqrt,
    is_low_outlier,
    far_from_mean,
    int_seq,
    small_values,
    isqrt,
    low_outlier,
    far_from_mean_exec,
    lemma_floor_sqrt_is,
};

verus! {

/// Template fiducial size and the detection mode of a template.
#[derive(Debug, Clone, Copy)]
pub struct LocationInfo {
    pub wh: (i32, i32),
    pub is_in_seal: bool,
}

impl LocationInfo {
    pub fn new(wh: (i32, i32), is_in_seal: bool) -> (r: Self)
        ensures
            r.wh == wh,
            r.is_in_seal == is_in_seal,
    {
        LocationInfo { wh, is_in_seal }
    }

    pub open spec fn in_range(self) -> bool {
        &&& -PIXEL_LIMIT <= self.wh.0 <= PIXEL_LIMIT
        &&& -PIXEL_LIMIT <= self.wh.1 <= PIXEL_LIMIT
    }
}

impl ImageBaizheng {
    /// The bounds under which the validator's arithmetic is exact.
    pub open spec fn wf(self) -> bool {
        &&& 0 <= self.valid_coordinates_wh_sum_mean_dis <= 4000000
    }
}

pub open spec fn abs(x: int) -> int {
    if x < 0 {
        -x
    } else {
        x
    }
}

pub open spec fn dot2(a0: int, a1: int, b0: int, b1: int) -> int {
    a0 * b0 + a1 * b1
}

pub open spec fn norm2(a0: int, a1: int) -> int {
    a0 * a0 + a1 * a1
}

/// The cosine of the angle between two vectors, scaled by `COS_SCALE` and
/// rounded toward zero; zero where a vector is null.
pub open spec fn cos_scaled(a0: int, a1: int, b0: int, b1: int) -> int {
    let d = dot2(a0, a1, b0, b1);
    let n = norm2(a0, a1) * norm2(b0, b1);
    if n == 0 {
        0
    } else if d >= 0 {
        floor_sqrt(d * d * 1000000000000 / n)
    } else {
        -floor_sqrt(d * d * 1000000000000 / n)
    }
}

proof fn lemma_cauchy_schwarz(a0: int, a1: int, b0: int, b1: int)
    ensures
        dot2(a0, a1, b0, b1) * dot2(a0, a1, b0, b1) <= norm2(a0, a1) * norm2(b0, b1),
        0 <= norm2(a0, a1),
{
    let x = a0 * b0;
    let y = a1 * b1;
    let u = a0 * b1;
    let v = a1 * b0;
    assert(norm2(a0, a1) * norm2(b0, b1) == a0 * a0 * (b0 * b0) + a0 * a0 * (b1 * b1) + a1 * a1 * (
    b0 * b0) + a1 * a1 * (b1 * b1)) by (nonlinear_arith);
    assert(a0 * a0 * (b0 * b0) == x * x) by (nonlinear_arith)
        requires
            x == a0 * b0,
    ;
    assert(a0 * a0 * (b1 * b1) == u * u) by (nonlinear_arith)
        requires
            u == a0 * b1,
    ;
    assert(a1 * a1 * (b0 * b0) == v * v) by (nonlinear_arith)
        requires
            v == a1 * b0,
    ;
    assert(a1 * a1 * (b1 * b1) == y * y) by (nonlinear_arith)
        requires
            y == a1 * b1,
    ;
    assert(x * y == u * v) by (nonlinear_arith)
        requires
            x == a0 * b0,
            y == a1 * b1,
            u == a0 * b1,
            v == a1 * b0,
    ;
    assert((x + y) * (x + y) == x * x + 2 * (x * y) + y * y) by (nonlinear_arith);
    assert((u - v) * (u - v) == u * u - 2 * (u * v) + v * v) by (nonlinear_arith);
    assert(0 <= (u - v) * (u - v)) by (nonlinear_arith);
    assert(0 <= a0 * a0) by (nonlinear_arith);
    assert(0 <= a1 * a1) by (nonlinear_arith);
}

/// Cosine similarity of two integer vectors (see `cos_scaled`).
pub fn cosine_similarity(a0: i64, a1: i64, b0: i64, b1: i64) -> (r: i64)
    requires
        -2 * PIXEL_LIMIT <= a0 <= 2 * PIXEL_LIMIT,
        -2 * PIXEL_LIMIT <= a1 <= 2 * PIXEL_LIMIT,
        -2 * PIXEL_LIMIT <= b0 <= 2 * PIXEL_LIMIT,
        -2 * PIXEL_LIMIT <= b1 <= 2 * PIXEL_LIMIT,
    ensures
        r == cos_scaled(a0 as int, a1 as int, b0 as int, b1 as int),
        -COS_SCALE <= r <= COS_SCALE,
{
    proof {
        assert(-4398046511104 <= a0 * b0 <= 4398046511104) by (nonlinear_arith)
            requires
                -2097152 <= a0 <= 2097152,
                -2097152 <= b0 <= 2097152,
        ;
        assert(-4398046511104 <= a1 * b1 <= 4398046511104) by (nonlinear_arith)
            requires
                -2097152 <= a1 <= 2097152,
                -2097152 <= b1 <= 2097152,
        ;
        assert(0 <= a0 * a0 <= 4398046511104) by (nonlinear_arith)
            requires
                -2097152 <= a0 <= 2097152,
        ;
        assert(0 <= a1 * a1 <= 4398046511104) by (nonlinear_arith)
            requires
                -2097152 <= a1 <= 2097152,
        ;
        assert(0 <= b0 * b0 <= 4398046511104) by (nonlinear_arith)
            requires
                -2097152 <= b0 <= 2097152,
        ;
        assert(0 <= b1 * b1 <= 4398046511104) by (nonlinear_arith)
            requires
                -2097152 <= b1 <= 2097152,
        ;
    }
    let d: i128 = (a0 as i128) * (b0 as i128) + (a1 as i128) * (b1 as i128);
    let na: i128 = (a0 as i128) * (a0 as i128) + (a1 as i128) * (a1 as i128);
    let nb: i128 = (b0 as i128) * (b0 as i128) + (b1 as i128) * (b1 as i128);
    proof {
        assert(0 <= na * nb <= 77371252455336267181195264) by (nonlinear_arith)
            requires
                0 <= na <= 2 * 4398046511104,
                0 <= nb <= 2 * 4398046511104,
        ;
        lemma_cauchy_schwarz(a0 as int, a1 as int, b0 as int, b1 as int);
    }
    let n: i128 = na * nb;
    if n == 0 {
        return 0;
    }
    assert(d == dot2(a0 as int, a1 as int, b0 as int, b1 as int));
    assert(n == norm2(a0 as int, a1 as int) * norm2(b0 as int, b1 as int));
    assert(0 <= d * d <= 77371252455336267181195264) by (nonlinear_arith)
        requires
            d * d <= n,
            n <= 77371252455336267181195264,
    ;
    let dd: u128 = (d * d) as u128;
    let big: u128 = dd * 1000000000000;
    let q: u128 = big / (n as u128);
    proof {
        vstd::arithmetic::div_mod::lemma_div_is_ordered(
            big as int,
            (n as int) * 1000000000000,
            n as int,
        );
        vstd::arithmetic::div_mod::lemma_div_multiples_vanish(1000000000000, n as int);
        assert((n as int) * 1000000000000 / (n as int) == 1000000000000) by {
            assert((n as int) * 1000000000000 == 1000000000000 * (n as int)) by (nonlinear_arith);
        }
    }
    let s: u64 = isqrt(q);
    proof {
        if s > 1000000 {
            assert(s * s > 1000000000000) by (nonlinear_arith)
                requires
                    s > 1000000,
            ;
        }
    }
    if d >= 0 {
        s as i64
    } else {
        -(s as i64)
    }
}

/// The absolute cosine of the angle at `b` between `a` and `c` (top-left
/// corners), scaled by `COS_SCALE`; a null side counts as a straight angle.
pub open spec fn corner_abs_cos(a: Coordinate, b: Coordinate, c: Coordinate) -> int {
    let v0 = a.x - b.x;
    let v1 = a.y - b.y;
    let u0 = c.x - b.x;
    let u1 = c.y - b.y;
    if norm2(v0, v1) == 0 || norm2(u0, u1) == 0 {
        COS_SCALE as int
    } else {
        abs(cos_scaled(v0, v1, u0, u1))
    }
}

pub fn corner_cos(a: &Coordinate, b: &Coordinate, c: &Coordinate) -> (r: i64)
    requires
        a.in_range(),
        b.in_range(),
        c.in_range(),
    ensures
        r == corner_abs_cos(*a, *b, *c),
        0 <= r <= COS_SCALE,
{
    let v0 = a.x as i64 - b.x as i64;
    let v1 = a.y as i64 - b.y as i64;
    let u0 = c.x as i64 - b.x as i64;
    let u1 = c.y as i64 - b.y as i64;
    if v0 == 0 && v1 == 0 {
        assert(norm2(v0 as int, v1 as int) == 0);
        return COS_SCALE;
    }
    if u0 == 0 && u1 == 0 {
        assert(norm2(u0 as int, u1 as int) == 0);
        return COS_SCALE;
    }
    proof {
        if v0 != 0 {
            assert(v0 * v0 > 0) by (nonlinear_arith)
                requires
                    v0 != 0,
            ;
        } else {
            assert(v1 * v1 > 0) by (nonlinear_arith)
                requires
                    v1 != 0,
            ;
        }
        if u0 != 0 {
            assert(u0 * u0 > 0) by (nonlinear_arith)
                requires
                    u0 != 0,
            ;
        } else {
            assert(u1 * u1 > 0) by (nonlinear_arith)
                requires
                    u1 != 0,
            ;
        }
        assert(0 <= v0 * v0) by (nonlinear_arith);
        assert(0 <= v1 * v1) by (nonlinear_arith);
        assert(0 <= u0 * u0) by (nonlinear_arith);
        assert(0 <= u1 * u1) by (nonlinear_arith);
    }
    let r = cosine_similarity(v0, v1, u0, u1);
    if r < 0 {
        -r
    } else {
        r
    }
}

pub open spec fn wh_cos(c: Coordinate, wh: (i32, i32)) -> int {
    cos_scaled(c.w as int, c.h as int, wh.0 as int, wh.1 as int)
}

pub open spec fn cos_values(c: Seq<Coordinate>, wh: (i32, i32)) -> Seq<int> {
    c.map_values(|x: Coordinate| wh_cos(x, wh))
}

pub open spec fn wh_sums(c: Seq<Coordinate>) -> Seq<int> {
    c.map_values(|x: Coordinate| x.w + x.h)
}

/// A (w, h) cosine similarity that is a low outlier and not above the
/// similarity that is always accepted.
pub open spec fn cos_outlier(cs: Seq<int>, v: int, cfg: ImageBaizheng) -> bool {
    v <= cfg.valid_coordinates4_cosine_similarity && is_low_outlier(cs, v)
}

/// A w + h sum that is a low outlier and far enough from the mean.
pub open spec fn sum_outlier(ss: Seq<int>, v: int, cfg: ImageBaizheng) -> bool {
    is_low_outlier(ss, v) && far_from_mean(ss, v, cfg.valid_coordinates_wh_sum_mean_dis as int)
}

pub open spec fn all_distinct(c: Seq<Coordinate>) -> bool {
    forall|i: int, j: int| 0 <= i < j < c.len() ==> c[i] != c[j]
}

pub open spec fn diagonal_areas_ok(c: Seq<Coordinate>, cfg: ImageBaizheng) -> bool {
    &&& abs(c[0].x - c[1].x) * abs(c[0].y - c[2].y) >= cfg.model_point_min_area
    &&& abs(c[3].x - c[2].x) * abs(c[3].y - c[1].y) >= cfg.model_point_min_area
}

pub open spec fn parallel_ok(c: Seq<Coordinate>, cfg: ImageBaizheng) -> bool {
    &&& abs((c[2].x - c[0].x) - (c[3].x - c[1].x)) <= cfg.model_point_diff
    &&& abs((c[2].y - c[0].y) - (c[3].y - c[1].y)) <= cfg.model_point_diff
}

pub open spec fn right_corners(c: Seq<Coordinate>, cfg: ImageBaizheng) -> bool {
    let m = cfg.model_points_right_angle_max_cos as int;
    &&& corner_abs_cos(c[2], c[0], c[1]) < m
    &&& corner_abs_cos(c[0], c[1], c[3]) < m
    &&& corner_abs_cos(c[3], c[2], c[0]) < m
    &&& corner_abs_cos(c[1], c[3], c[2]) < m
}

pub open spec fn no_outliers(c: Seq<Coordinate>, wh: (i32, i32), cfg: ImageBaizheng) -> bool {
    &&& forall|i: int|
        0 <= i < c.len() ==> !cos_outlier(cos_values(c, wh), #[trigger] cos_values(c, wh)[i], cfg)
    &&& forall|i: int| 0 <= i < c.len() ==> !sum_outlier(wh_sums(c), #[trigger] wh_sums(c)[i], cfg)
}

/// The geometric contract of a fiducial set (top-left, top-right,
/// bottom-left, bottom-right).
pub open spec fn fiducials_valid(c: Seq<Coordinate>, wh: (i32, i32), cfg: ImageBaizheng) -> bool {
    &&& all_distinct(c)
    &&& diagonal_areas_ok(c, cfg)
    &&& parallel_ok(c, cfg)
    &&& right_corners(c, cfg)
    &&& no_outliers(c, wh, cfg)
}

pub open spec fn all_in_range(c: Seq<Coordinate>) -> bool {
    forall|i: int| 0 <= i < c.len() ==> (#[trigger] c[i]).in_range()
}

fn wh_cos_exec(c: &Coordinate, info: &LocationInfo) -> (r: i64)
    requires
        c.in_range(),
        info.in_range(),
    ensures
        r == wh_cos(*c, info.wh),
        -COS_SCALE <= r <= COS_SCALE,
{
    cosine_similarity(c.w as i64, c.h as i64, info.wh.0 as i64, info.wh.1 as i64)
}

/// The cosine similarities of each (w, h) with the template's, and each w + h.
fn cos_and_sums(coors: &Vec<Coordinate>, info: &LocationInfo) -> (r: (Vec<i64>, Vec<i64>))
    requires
        1 <= coors@.len() <= 4,
        all_in_range(coors@),
        info.in_range(),
    ensures
        r.0@.len() == coors@.len(),
        r.1@.len() == coors@.len(),
        int_seq(r.0@) == cos_values(coors@, info.wh),
        int_seq(r.1@) == wh_sums(coors@),
        small_values(r.0@),
        small_values(r.1@),
{
    let mut cs: Vec<i64> = Vec::new();
    let mut ss: Vec<i64> = Vec::new();
    let mut i: usize = 0;
    while i < coors.len()
        invariant
            i <= coors@.len() <= 4,
            all_in_range(coors@),
            info.in_range(),
            cs@.len() == i,
            ss@.len() == i,
            forall|k: int| 0 <= k < i ==> cs@[k] == wh_cos(coors@[k], info.wh),
            forall|k: int| 0 <= k < i ==> ss@[k] == coors@[k].w + coors@[k].h,
            forall|k: int| 0 <= k < i ==> -4000000 <= #[trigger] cs@[k] <= 4000000,
            forall|k: int| 0 <= k < i ==> -4000000 <= #[trigger] ss@[k] <= 4000000,
        decreases coors@.len() - i,
    {
        let c = coors[i];
        assert(coors@[i as int].in_range());
        let v = wh_cos_exec(&c, info);
        cs.push(v);
        ss.push(c.w as i64 + c.h as i64);
        i = i + 1;
    }
    assert(int_seq(cs@) =~= cos_values(coors@, info.wh));
    assert(int_seq(ss@) =~= wh_sums(coors@));
    (cs, ss)
}

fn abs_i64(x: i64) -> (r: i64)
    requires
        x > i64::MIN,
    ensures
        r == abs(x as int),
{
    if x < 0 {
        -x
    } else {
        x
    }
}

/// Whether four fiducial rectangles (top-left, top-right, bottom-left,
/// bottom-right) satisfy the geometric contract.
pub fn coordinates4_is_valid(
    coors: &[Coordinate; 4],
    location_info: &LocationInfo,
    cfg: &ImageBaizheng,
) -> (r: bool)
    requires
        all_in_range(coors@),
        location_info.in_range(),
        cfg.wf(),
    ensures
        r == fiducials_valid(coors@, location_info.wh, *cfg),
{
    let c0 = coors[0];
    let c1 = coors[1];
    let c2 = coors[2];
    let c3 = coors[3];
    assert(c0.in_range() && c1.in_range() && c2.in_range() && c3.in_range()) by {
        assert(coors@[0].in_range());
        assert(coors@[1].in_range());
        assert(coors@[2].in_range());
        assert(coors@[3].in_range());
    }
    if c0 == c1 || c0 == c2 || c0 == c3 || c1 == c2 || c1 == c3 || c2 == c3 {
        return false;
    }
    assert(all_distinct(coors@));
    let a1 = abs_i64(c0.x as i64 - c1.x as i64);
    let b1 = abs_i64(c0.y as i64 - c2.y as i64);
    let a2 = abs_i64(c3.x as i64 - c2.x as i64);
    let b2 = abs_i64(c3.y as i64 - c1.y as i64);
    proof {
        assert(0 <= a1 * b1 <= 2097152 * 2097152) by (nonlinear_arith)
            requires
                0 <= a1 <= 2097152,
                0 <= b1 <= 2097152,
        ;
        assert(0 <= a2 * b2 <= 2097152 * 2097152) by (nonlinear_arith)
            requires
                0 <= a2 <= 2097152,
                0 <= b2 <= 2097152,
        ;
    }
    if a1 * b1 < cfg.model_point_min_area || a2 * b2 < cfg.model_point_min_area {
        return false;
    }
    let diff_x = abs_i64((c2.x as i64 - c0.x as i64) - (c3.x as i64 - c1.x as i64));
    let diff_y = abs_i64((c2.y as i64 - c0.y as i64) - (c3.y as i64 - c1.y as i64));
    if diff_x > cfg.model_point_diff as i64 || diff_y > cfg.model_point_diff as i64 {
        return false;
    }
    let m = cfg.model_points_right_angle_max_cos;
    if corner_cos(&c2, &c0, &c1) >= m || corner_cos(&c0, &c1, &c3) >= m || corner_cos(&c3, &c2, &c0)
        >= m || corner_cos(&c1, &c3, &c2) >= m {
        return false;
    }
    let v: Vec<Coordinate> = vec![c0, c1, c2, c3];
    assert(v@ =~= coors@);
    let (cs, ss) = cos_and_sums(&v, location_info);
    let mut i: usize = 0;
    while i < 4
        invariant
            i <= 4,
            v@ == coors@,
            cs@.len() == 4,
            ss@.len() == 4,
            int_seq(cs@) == cos_values(coors@, location_info.wh),
            int_seq(ss@) == wh_sums(coors@),
            small_values(cs@),
            small_values(ss@),
            cfg.wf(),
            forall|k: int|
                0 <= k < i ==> !cos_outlier(
                    cos_values(coors@, location_info.wh),
                    #[trigger] cos_values(coors@, location_info.wh)[k],
                    *cfg,
                ),
            forall|k: int|
                0 <= k < i ==> !sum_outlier(wh_sums(coors@), #[trigger] wh_sums(coors@)[k], *cfg),
        decreases 4 - i,
    {
        let cv = cs[i];
        let sv = ss[i];
        assert(int_seq(cs@)[i as int] == cv);
        assert(int_seq(ss@)[i as int] == sv);
        if cv <= cfg.valid_coordinates4_cosine_similarity && low_outlier(&cs, cv) {
            return false;
        }
        if low_outlier(&ss, sv) && far_from_mean_exec(&ss, sv, cfg.valid_coordinates_wh_sum_mean_dis) {
            return false;
        }
        i = i + 1;
    }
    true
}

pub open spec fn key_sum(c: Coordinate) -> int {
    c.x + c.y
}

pub open spec fn key_diff(c: Coordinate) -> int {
    c.x - c.y
}

/// Index of the first smallest of `keys[0..k]`.
pub open spec fn first_min(keys: Seq<int>, k: int) -> int
    decreases k,
{
    if k <= 1 {
        0
    } else {
        let j = first_min(keys, k - 1);
        if keys[k - 1] < keys[j] {
            k - 1
        } else {
            j
        }
    }
}

/// Index of the last largest of `keys[0..k]`.
pub open spec fn last_max(keys: Seq<int>, k: int) -> int
    decreases k,
{
    if k <= 1 {
        0
    } else {
        let j = last_max(keys, k - 1);
        if keys[k - 1] >= keys[j] {
            k - 1
        } else {
            j
        }
    }
}

pub open spec fn sum_keys(c: Seq<Coordinate>) -> Seq<int> {
    c.map_values(|x: Coordinate| key_sum(x))
}

pub open spec fn diff_keys(c: Seq<Coordinate>) -> Seq<int> {
    c.map_values(|x: Coordinate| key_diff(x))
}

/// Four rectangles in (top-left, top-right, bottom-left, bottom-right)
/// order: smallest x + y, largest x - y, smallest x - y, largest x + y.
pub open spec fn sorted_corners(c: Seq<Coordinate>) -> Seq<Coordinate> {
    seq![
        c[first_min(sum_keys(c), 4)],
        c[last_max(diff_keys(c), 4)],
        c[first_min(diff_keys(c), 4)],
        c[last_max(sum_keys(c), 4)],
    ]
}

fn extreme_index(coors: &[Coordinate; 4], by_sum: bool, largest: bool) -> (r: usize)
    requires
        all_in_range(coors@),
    ensures
        by_sum && !largest ==> r == first_min(sum_keys(coors@), 4),
        by_sum && largest ==> r == last_max(sum_keys(coors@), 4),
        !by_sum && !largest ==> r == first_min(diff_keys(coors@), 4),
        !by_sum && largest ==> r == last_max(diff_keys(coors@), 4),
        r < 4,
{
    let ghost keys = if by_sum {
        sum_keys(coors@)
    } else {
        diff_keys(coors@)
    };
    let mut best: usize = 0;
    let mut i: usize = 1;
    while i < 4
        invariant
            1 <= i <= 4,
            best < i,
            all_in_range(coors@),
            keys == (if by_sum {
                sum_keys(coors@)
            } else {
                diff_keys(coors@)
            }),
            !largest ==> best == first_min(keys, i as int),
            largest ==> best == last_max(keys, i as int),
        decreases 4 - i,
    {
        let c = coors[i];
        let b = coors[best];
        assert(coors@[i as int].in_range() && coors@[best as int].in_range());
        let kc: i64 = if by_sum {
            c.x as i64 + c.y as i64
        } else {
            c.x as i64 - c.y as i64
        };
        let kb: i64 = if by_sum {
            b.x as i64 + b.y as i64
        } else {
            b.x as i64 - b.y as i64
        };
        assert(kc == keys[i as int] && kb == keys[best as int]);
        if largest {
            if kc >= kb {
                best = i;
            }
        } else {
            if kc < kb {
                best = i;
            }
        }
        i = i + 1;
    }
    best
}

/// Sorts four rectangles into (top-left, top-right, bottom-left,
/// bottom-right) order by their x + y and x - y extremes.
pub fn get_sort_coordinates(coors: [Coordinate; 4]) -> (r: [Coordinate; 4])
    requires
        all_in_range(coors@),
    ensures
        r@ == sorted_corners(coors@),
{
    let i0 = extreme_index(&coors, true, false);
    let i1 = extreme_index(&coors, false, true);
    let i2 = extreme_index(&coors, false, false);
    let i3 = extreme_index(&coors, true, true);
    let r = [coors[i0], coors[i1], coors[i2], coors[i3]];
    assert(r@ =~= sorted_corners(coors@));
    r
}

/// The fourth corner of the parallelogram whose vertex is `c[1]`, with the
/// mean width and height of the three.
pub open spec fn completed_corner(c: Seq<Coordinate>) -> Coordinate {
    Coordinate {
        x: (c[0].x - c[1].x + c[2].x) as i32,
        y: (c[0].y - c[1].y + c[2].y) as i32,
        w: div_trunc(c[0].w + c[1].w + c[2].w, 3) as i32,
        h: div_trunc(c[0].h + c[1].h + c[2].h, 3) as i32,
    }
}

/// From three corners, the middle one being the vertex of the right angle,
/// the full fiducial set: the fourth corner completes the parallelogram,
/// and the four are sorted into (top-left, top-right, bottom-left,
/// bottom-right) order.
pub fn predict_model_points_with_3_coordinate(coors: &[Coordinate; 3]) -> (r: [Coordinate; 4])
    requires
        all_in_range(coors@),
        completed_corner(coors@).in_range(),
    ensures
        r@ == sorted_corners(seq![coors@[0], coors@[1], coors@[2], completed_corner(coors@)]),
{
    let c0 = coors[0];
    let c1 = coors[1];
    let c2 = coors[2];
    assert(c0.in_range() && c1.in_range() && c2.in_range()) by {
        assert(coors@[0].in_range());
        assert(coors@[1].in_range());
        assert(coors@[2].in_range());
    }
    let w = trunc_div(c0.w as i64 + c1.w as i64 + c2.w as i64, 3);
    let h = trunc_div(c0.h as i64 + c1.h as i64 + c2.h as i64, 3);
    let x = c0.x as i64 - c1.x as i64 + c2.x as i64;
    let y = c0.y as i64 - c1.y as i64 + c2.y as i64;
    let fourth = Coordinate::new(x as i32, y as i32, w as i32, h as i32);
    assert(fourth == completed_corner(coors@));
    let all = [c0, c1, c2, fourth];
    assert(all@ =~= seq![coors@[0], coors@[1], coors@[2], completed_corner(coors@)]);
    get_sort_coordinates(all)
}

/// The rectangles of `c` whose (w, h) cosine similarity is no outlier.
pub open spec fn keep_cos(c: Seq<Coordinate>, wh: (i32, i32), cfg: ImageBaizheng) -> Seq<
    Coordinate,
> {
    c.filter(|x: Coordinate| !cos_outlier(cos_values(c, wh), wh_cos(x, wh), cfg))
}

/// The rectangles of `c` whose w + h is no outlier.
pub open spec fn keep_sum(c: Seq<Coordinate>, cfg: ImageBaizheng) -> Seq<Coordinate> {
    c.filter(|x: Coordinate| !sum_outlier(wh_sums(c), x.w + x.h, cfg))
}

/// Candidate corner triples (first, vertex, last) among three rectangles.
pub open spec fn triples3() -> Seq<(int, int, int)> {
    seq![(0, 1, 2), (1, 2, 0), (1, 0, 2)]
}

/// Candidate corner triples among four rectangles in corner order: each
/// corner with its two neighbours.
pub open spec fn triples4() -> Seq<(int, int, int)> {
    seq![(2, 0, 1), (0, 1, 3), (3, 2, 0), (1, 3, 2)]
}

pub open spec fn triple_cos(c: Seq<Coordinate>, t: (int, int, int)) -> int {
    corner_abs_cos(c[t.0], c[t.1], c[t.2])
}

/// Among `ts[0..k]`, the index of the first triple with the smallest corner
/// cosine below `m`, if any is below `m`.
pub open spec fn best_triple(c: Seq<Coordinate>, ts: Seq<(int, int, int)>, m: int, k: int) -> Option<
    int,
>
    decreases k,
{
    if k <= 0 {
        None
    } else {
        let prev = best_triple(c, ts, m, k - 1);
        let v = triple_cos(c, ts[k - 1]);
        if v >= m {
            prev
        } else {
            match prev {
                None => Some(k - 1),
                Some(j) => if v < triple_cos(c, ts[j]) {
                    Some(k - 1)
                } else {
                    prev
                },
            }
        }
    }
}

/// The three rectangles that the repair keeps, in (first, vertex, last)
/// order, if three remain that meet at a right angle.
pub open spec fn repair_triple(c: Seq<Coordinate>, wh: (i32, i32), cfg: ImageBaizheng) -> Option<
    Seq<Coordinate>,
> {
    let k1 = keep_cos(c, wh, cfg);
    let k2 = keep_sum(k1, cfg);
    let ts = if k2.len() == 3 {
        triples3()
    } else {
        triples4()
    };
    if k1.len() < 3 || k2.len() < 3 {
        None
    } else {
        match best_triple(k2, ts, cfg.model_points_right_angle_max_cos as int, ts.len() as int) {
            None => None,
            Some(j) => Some(seq![k2[ts[j].0], k2[ts[j].1], k2[ts[j].2]]),
        }
    }
}

proof fn lemma_filter_step(s: Seq<Coordinate>, p: spec_fn(Coordinate) -> bool, i: int)
    requires
        0 <= i < s.len(),
    ensures
        s.take(i + 1).filter(p) == (if p(s[i]) {
            s.take(i).filter(p).push(s[i])
        } else {
            s.take(i).filter(p)
        }),
{
    reveal(Seq::filter);
    assert(s.take(i + 1).drop_last() =~= s.take(i));
}

fn keep_cos_exec(coors: &Vec<Coordinate>, info: &LocationInfo, cfg: &ImageBaizheng) -> (r: Vec<
    Coordinate,
>)
    requires
        1 <= coors@.len() <= 4,
        all_in_range(coors@),
        info.in_range(),
    ensures
        r@ == keep_cos(coors@, info.wh, *cfg),
        r@.len() <= coors@.len(),
        all_in_range(r@),
{
    let (cs, _) = cos_and_sums(coors, info);
    let ghost p = |x: Coordinate| !cos_outlier(cos_values(coors@, info.wh), wh_cos(x, info.wh), *cfg);
    let mut kept: Vec<Coordinate> = Vec::new();
    let mut i: usize = 0;
    while i < coors.len()
        invariant
            i <= coors@.len(),
            cs@.len() == coors@.len(),
            int_seq(cs@) == cos_values(coors@, info.wh),
            small_values(cs@),
            all_in_range(coors@),
            p == (|x: Coordinate| !cos_outlier(cos_values(coors@, info.wh), wh_cos(x, info.wh), *cfg)),
            kept@ == coors@.take(i as int).filter(p),
            kept@.len() <= i,
            all_in_range(kept@),
        decreases coors@.len() - i,
    {
        proof {
            lemma_filter_step(coors@, p, i as int);
        }
        let cv = cs[i];
        assert(int_seq(cs@)[i as int] == cv);
        let outlier = cv <= cfg.valid_coordinates4_cosine_similarity && low_outlier(&cs, cv);
        if !outlier {
            kept.push(coors[i]);
        }
        i = i + 1;
    }
    assert(coors@.take(coors@.len() as int) =~= coors@);
    kept
}

fn keep_sum_exec(coors: &Vec<Coordinate>, info: &LocationInfo, cfg: &ImageBaizheng) -> (r: Vec<
    Coordinate,
>)
    requires
        1 <= coors@.len() <= 4,
        all_in_range(coors@),
        info.in_range(),
        cfg.wf(),
    ensures
        r@ == keep_sum(coors@, *cfg),
        r@.len() <= coors@.len(),
        all_in_range(r@),
{
    let (_, ss) = cos_and_sums(coors, info);
    let ghost p = |x: Coordinate| !sum_outlier(wh_sums(coors@), x.w + x.h, *cfg);
    let mut kept: Vec<Coordinate> = Vec::new();
    let mut i: usize = 0;
    while i < coors.len()
        invariant
            i <= coors@.len(),
            ss@.len() == coors@.len(),
            int_seq(ss@) == wh_sums(coors@),
            small_values(ss@),
            all_in_range(coors@),
            cfg.wf(),
            p == (|x: Coordinate| !sum_outlier(wh_sums(coors@), x.w + x.h, *cfg)),
            kept@ == coors@.take(i as int).filter(p),
            kept@.len() <= i,
            all_in_range(kept@),
        decreases coors@.len() - i,
    {
        proof {
            lemma_filter_step(coors@, p, i as int);
        }
        let sv = ss[i];
        assert(int_seq(ss@)[i as int] == sv);
        let outlier = low_outlier(&ss, sv) && far_from_mean_exec(&ss, sv, cfg.valid_coordinates_wh_sum_mean_dis);
        if !outlier {
            kept.push(coors[i]);
        }
        i = i + 1;
    }
    assert(coors@.take(coors@.len() as int) =~= coors@);
    kept
}

/// Picks three of four fiducial rectangles that can stand for the set:
/// drops the (w, h) similarity outliers, then the w + h outliers, and among
/// what remains takes the corner triple closest to a right angle.
pub fn find_3_valid_coordinates(
    coors: &[Coordinate; 4],
    location_info: &LocationInfo,
    cfg: &ImageBaizheng,
) -> (r: Option<[Coordinate; 3]>)
    requires
        all_in_range(coors@),
        location_info.in_range(),
        cfg.wf(),
    ensures
        r.is_some() == repair_triple(coors@, location_info.wh, *cfg).is_some(),
        r.is_some() ==> r.unwrap()@ == repair_triple(coors@, location_info.wh, *cfg).unwrap(),
        r.is_some() ==> all_in_range(r.unwrap()@),
{
    let all: Vec<Coordinate> = vec![coors[0], coors[1], coors[2], coors[3]];
    assert(all@ =~= coors@);
    let k1 = keep_cos_exec(&all, location_info, cfg);
    if k1.len() < 3 {
        return None;
    }
    let k2 = keep_sum_exec(&k1, location_info, cfg);
    if k2.len() < 3 {
        return None;
    }
    let ghost ts = if k2@.len() == 3 {
        triples3()
    } else {
        triples4()
    };
    let tv: Vec<(usize, usize, usize)> = if k2.len() == 3 {
        vec![(0, 1, 2), (1, 2, 0), (1, 0, 2)]
    } else {
        vec![(2, 0, 1), (0, 1, 3), (3, 2, 0), (1, 3, 2)]
    };
    assert(tv@.len() == ts.len());
    assert(forall|j: int|
        0 <= j < tv@.len() ==> (tv@[j].0 as int, tv@[j].1 as int, tv@[j].2 as int) == #[trigger] ts[j]);
    let m = cfg.model_points_right_angle_max_cos;
    let mut best: Option<usize> = None;
    let mut best_cos: i64 = 0;
    let mut j: usize = 0;
    while j < tv.len()
        invariant
            j <= tv@.len(),
            tv@.len() == ts.len(),
            3 <= k2@.len() <= 4,
            all_in_range(k2@),
            ts == (if k2@.len() == 3 {
                triples3()
            } else {
                triples4()
            }),
            forall|t: int|
                0 <= t < tv@.len() ==> (tv@[t].0 as int, tv@[t].1 as int, tv@[t].2 as int)
                    == #[trigger] ts[t],
            m == cfg.model_points_right_angle_max_cos,
            best.is_some() == best_triple(k2@, ts, m as int, j as int).is_some(),
            best.is_some() ==> best.unwrap() as int == best_triple(k2@, ts, m as int, j as int).unwrap(),
            best.is_some() ==> best.unwrap() < j,
            best.is_some() ==> best_cos == triple_cos(k2@, ts[best.unwrap() as int]),
        decreases tv@.len() - j,
    {
        let t = tv[j];
        assert((t.0 as int, t.1 as int, t.2 as int) == ts[j as int]);
        assert(t.0 < k2@.len() && t.1 < k2@.len() && t.2 < k2@.len()) by {
            if k2@.len() == 3 {
                assert(j < 3);
            }
        }
        let a = k2[t.0];
        let b = k2[t.1];
        let c = k2[t.2];
        assert(k2@[t.0 as int].in_range() && k2@[t.1 as int].in_range() && k2@[t.2 as int].in_range());
        let v = corner_cos(&a, &b, &c);
        assert(v == triple_cos(k2@, ts[j as int]));
        if v < m {
            match best {
                None => {
                    best = Some(j);
                    best_cos = v;
                },
                Some(_) => {
                    if v < best_cos {
                        best = Some(j);
                        best_cos = v;
                    }
                },
            }
        }
        j = j + 1;
    }
    match best {
        None => None,
        Some(bi) => {
            let t = tv[bi];
            assert((t.0 as int, t.1 as int, t.2 as int) == ts[bi as int]);
            assert(t.0 < k2@.len() && t.1 < k2@.len() && t.2 < k2@.len()) by {
                if k2@.len() == 3 {
                    assert(bi < 3);
                }
            }
            let r = [k2[t.0], k2[t.1], k2[t.2]];
            assert(r@ =~= repair_triple(coors@, location_info.wh, *cfg).unwrap());
            assert(all_in_range(r@)) by {
                assert(k2@[t.0 as int].in_range() && k2@[t.1 as int].in_range() && k2@[t.2 as int].in_range());
            }
            Some(r)
        },
    }
}

/// The corners (top-left, top-right, bottom-left, bottom-right) of an
/// axis-aligned square of side `side` at (`x`, `y`), each marker `size`
/// pixels wide and high.
pub open spec fn square_corners(x: int, y: int, side: int, size: int) -> Seq<Coordinate> {
    seq![
        Coordinate { x: x as i32, y: y as i32, w: size as i32, h: size as i32 },
        Coordinate { x: (x + side) as i32, y: y as i32, w: size as i32, h: size as i32 },
        Coordinate { x: x as i32, y: (y + side) as i32, w: size as i32, h: size as i32 },
        Coordinate { x: (x + side) as i32, y: (y + side) as i32, w: size as i32, h: size as i32 },
    ]
}

pub open spec fn square_in_range(x: int, y: int, side: int, size: int) -> bool {
    &&& -PIXEL_LIMIT <= x
    &&& x + side <= PIXEL_LIMIT
    &&& -PIXEL_LIMIT <= y
    &&& y + side <= PIXEL_LIMIT
    &&& 0 < side
    &&& 0 < size <= PIXEL_LIMIT
}

proof fn lemma_right_corner(a: Coordinate, b: Coordinate, c: Coordinate, m: int)
    requires
        (a.x - b.x) * (c.x - b.x) + (a.y - b.y) * (c.y - b.y) == 0,
        norm2(a.x - b.x, a.y - b.y) != 0,
        norm2(c.x - b.x, c.y - b.y) != 0,
        m > 0,
    ensures
        corner_abs_cos(a, b, c) < m,
{
    let n = norm2(a.x - b.x, a.y - b.y) * norm2(c.x - b.x, c.y - b.y);
    assert(n != 0) by (nonlinear_arith)
        requires
            norm2(a.x - b.x, a.y - b.y) != 0,
            norm2(c.x - b.x, c.y - b.y) != 0,
            n == norm2(a.x - b.x, a.y - b.y) * norm2(c.x - b.x, c.y - b.y),
    ;
    assert(0int * 0int * 1000000000000int / n == 0) by (nonlinear_arith)
        requires
            n != 0,
    ;
    lemma_floor_sqrt_is(0, 0);
}

/// A perfect axis-aligned square of equal markers passes validation, given
/// a diagonal area threshold it meets, a non-negative distance tolerance
/// and a positive angle tolerance.
pub proof fn lemma_square_is_valid(
    x: int,
    y: int,
    side: int,
    size: int,
    wh: (i32, i32),
    cfg: ImageBaizheng,
)
    requires
        square_in_range(x, y, side, size),
        side * side >= cfg.model_point_min_area,
        cfg.model_point_diff >= 0,
        cfg.model_points_right_angle_max_cos > 0,
    ensures
        fiducials_valid(square_corners(x, y, side, size), wh, cfg),
{
    let c = square_corners(x, y, side, size);
    assert(all_distinct(c));
    assert(abs(c[0].x - c[1].x) * abs(c[0].y - c[2].y) == side * side);
    assert(abs(c[3].x - c[2].x) * abs(c[3].y - c[1].y) == side * side);
    assert(0 < side * side) by (nonlinear_arith)
        requires
            0 < side,
    ;
    let m = cfg.model_points_right_angle_max_cos as int;
    assert(0 < (-side) * (-side)) by (nonlinear_arith)
        requires
            0 < side,
    ;
    assert((-side) * 0 == 0 && 0 * side == 0 && 0 * (-side) == 0 && side * 0 == 0);
    lemma_right_corner(c[2], c[0], c[1], m);
    lemma_right_corner(c[0], c[1], c[3], m);
    lemma_right_corner(c[3], c[2], c[0], m);
    lemma_right_corner(c[1], c[3], c[2], m);
    let cs = cos_values(c, wh);
    let v = wh_cos(c[0], wh);
    assert(cs =~= seq![v, v, v, v]);
    reveal_with_fuel(crate::numeric::seq_sum, 5);
    assert(crate::numeric::seq_sum(cs) == 4 * v);
    assert forall|i: int| 0 <= i < c.len() implies !cos_outlier(cs, #[trigger] cs[i], cfg) by {
        assert(cs[i] == v);
    }
    let ss = wh_sums(c);
    assert(ss =~= seq![2 * size, 2 * size, 2 * size, 2 * size]);
    assert(crate::numeric::seq_sum(ss) == 8 * size);
    assert forall|i: int| 0 <= i < c.len() implies !sum_outlier(ss, #[trigger] ss[i], cfg) by {
        assert(ss[i] == 2 * size);
    }
}

/// Moving the bottom-right corner of such a square sideways by more than
/// the distance tolerance fails validation.
pub proof fn lemma_shifted_corner_is_invalid(
    x: int,
    y: int,
    side: int,
    size: int,
    d: int,
    wh: (i32, i32),
    cfg: ImageBaizheng,
)
    requires
        square_in_range(x, y, side, size),
        -PIXEL_LIMIT <= x + side + d <= PIXEL_LIMIT,
        abs(d) > cfg.model_point_diff,
    ensures
        !fiducials_valid(
            square_corners(x, y, side, size).update(
                3,
                Coordinate { x: (x + side + d) as i32, y: (y + side) as i32, w: size as i32, h: size as i32 },
            ),
            wh,
            cfg,
        ),
{
    let c = square_corners(x, y, side, size).update(
        3,
        Coordinate { x: (x + side + d) as i32, y: (y + side) as i32, w: size as i32, h: size as i32 },
    );
    assert(abs((c[2].x - c[0].x) - (c[3].x - c[1].x)) == abs(d));
}

/// Three corners of such a square, the right angle at the top-left,
/// complete to the whole square: the fourth corner is the true
/// bottom-right, with the markers' size, and the four come out in corner
/// order.
pub proof fn lemma_repair_completes_square(x: int, y: int, side: int, size: int)
    requires
        square_in_range(x, y, side, size),
    ensures
        ({
            let c = square_corners(x, y, side, size);
            let three = seq![c[2], c[0], c[1]];
            &&& completed_corner(three) == c[3]
            &&& sorted_corners(seq![three[0], three[1], three[2], completed_corner(three)]) == c
        }),
{
    let c = square_corners(x, y, side, size);
    let three = seq![c[2], c[0], c[1]];
    assert(div_trunc(3 * size, 3) == size) by {
        vstd::arithmetic::div_mod::lemma_div_multiples_vanish(size, 3);
        assert(3 * size == size * 3);
    }
    assert(completed_corner(three) == c[3]);
    let four = seq![three[0], three[1], three[2], completed_corner(three)];
    reveal_with_fuel(first_min, 5);
    reveal_with_fuel(last_max, 5);
    assert(sum_keys(four) =~= seq![x + y + side, x + y, x + y + side, x + y + 2 * side]);
    assert(diff_keys(four) =~= seq![x - y - side, x - y, x - y + side, x - y]);
    assert(sorted_corners(four) =~= c);
}

} // verus!
