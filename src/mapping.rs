//! Template-to-photograph mapping of rectangles by proportional scaling
//! against reference fiducials, and the per-row move operations that
//! correct local warp.
use vstd::prelude::*;
use crate::config::Location;
use crate::geometry::{Coordinate, ModelPoint, MyPoint, PIXEL_LIMIT, div_trunc, trunc_div};
use crate::numeric::{floor_div, floor_div_wide, isqrt, floor_sqrt};

verus! {

/// Template fiducials and the matching photograph fiducials, each in
/// (top-left, top-right, bottom-left, bottom-right) order.
#[derive(Debug, Clone, Copy)]
pub struct ReferenceModelPoints {
    pub model_points: [ModelPoint; 4],
    pub real_model_points: [Coordinate; 4],
}

impl ReferenceModelPoints {
    /// Every rectangle is in range and the template's top pair and left pair
    /// are apart, so that both scale ratios exist.
    pub open spec fn wf(self) -> bool {
        &&& forall|i: int| 0 <= i < 4 ==> (#[trigger] self.model_points[i]).coordinate.in_range()
        &&& forall|i: int| 0 <= i < 4 ==> (#[trigger] self.real_model_points[i]).in_range()
        &&& self.model_points[0].coordinate.x != self.model_points[1].coordinate.x
        &&& self.model_points[0].coordinate.y != self.model_points[2].coordinate.y
    }
}

/// `|den|`.
pub open spec fn abs_den(den: int) -> int {
    if den > 0 {
        den
    } else {
        -den
    }
}

/// The numerator of `v * num / den + base` over the denominator `|den|`.
pub open spec fn affine_num(num: int, den: int, v: int, base: int) -> int {
    if den > 0 {
        num * v + base * den
    } else {
        -num * v + base * (-den)
    }
}

/// `v` scaled by `num / den`, plus `base`, the whole rounded toward zero.
pub open spec fn scaled(num: int, den: int, v: int, base: int) -> int {
    div_trunc(affine_num(num, den, v, base), abs_den(den))
}

/// `v` held within `PIXEL_LIMIT` of zero.
pub open spec fn clamp_px(v: int) -> int {
    if v < -PIXEL_LIMIT {
        -PIXEL_LIMIT as int
    } else if v > PIXEL_LIMIT {
        PIXEL_LIMIT as int
    } else {
        v
    }
}

/// Whether the bottom fiducial pair anchors a rectangle at template height
/// `y`: `y` lies at or below the configured fraction of the way from the
/// top-left to the bottom-left fiducial.
pub open spec fn use_bottom(refs: ReferenceModelPoints, y: int, loc: Location) -> bool {
    let m0 = refs.model_points[0].coordinate;
    let m2 = refs.model_points[2].coordinate;
    1000 * y >= 1000 * m0.y + (m2.y - m0.y) * loc.select_model_point_cal_real_coor_y_boundary_permille
}

/// Index of the anchoring fiducial.
pub open spec fn anchor_index(
    refs: ReferenceModelPoints,
    c: Coordinate,
    use_first: bool,
    flag_y: Option<i32>,
    loc: Location,
) -> int {
    let y = match flag_y {
        Some(v) => v as int,
        None => c.y as int,
    };
    if !use_first && use_bottom(refs, y, loc) {
        2
    } else {
        0
    }
}

/// The photograph rectangle of template rectangle `c`, before clamping.
pub open spec fn mapped_raw(refs: ReferenceModelPoints, c: Coordinate, a: int) -> (int, int, int, int) {
    let m = refs.model_points;
    let r = refs.real_model_points;
    let xn = r[0].x - r[1].x;
    let xd = m[0].coordinate.x - m[1].coordinate.x;
    let yn = r[0].y - r[2].y;
    let yd = m[0].coordinate.y - m[2].coordinate.y;
    (
        scaled(xn, xd, c.x - m[a].coordinate.x, r[a].x as int),
        scaled(yn, yd, c.y - m[a].coordinate.y, r[a].y as int),
        scaled(xn, xd, c.w as int, 0),
        scaled(yn, yd, c.h as int, 0),
    )
}

/// The photograph rectangle of template rectangle `c`.
pub open spec fn mapped(
    refs: ReferenceModelPoints,
    c: Coordinate,
    use_first: bool,
    flag_y: Option<i32>,
    loc: Location,
) -> Coordinate {
    let raw = mapped_raw(refs, c, anchor_index(refs, c, use_first, flag_y, loc));
    Coordinate {
        x: clamp_px(raw.0) as i32,
        y: clamp_px(raw.1) as i32,
        w: clamp_px(raw.2) as i32,
        h: clamp_px(raw.3) as i32,
    }
}

fn clamp_exec(v: i64) -> (r: i32)
    ensures
        r == clamp_px(v as int),
{
    if v < -(PIXEL_LIMIT as i64) {
        -PIXEL_LIMIT
    } else if v > PIXEL_LIMIT as i64 {
        PIXEL_LIMIT
    } else {
        v as i32
    }
}

fn clamp_wide(v: i128) -> (r: i32)
    ensures
        r == clamp_px(v as int),
{
    if v < -(PIXEL_LIMIT as i128) {
        -PIXEL_LIMIT
    } else if v > PIXEL_LIMIT as i128 {
        PIXEL_LIMIT
    } else {
        v as i32
    }
}

fn scaled_exec(num: i64, den: i64, v: i64, base: i64) -> (r: i64)
    requires
        den != 0,
        -4 * PIXEL_LIMIT <= num <= 4 * PIXEL_LIMIT,
        -4 * PIXEL_LIMIT <= den <= 4 * PIXEL_LIMIT,
        -4 * PIXEL_LIMIT <= v <= 4 * PIXEL_LIMIT,
        -PIXEL_LIMIT <= base <= PIXEL_LIMIT,
    ensures
        r == scaled(num as int, den as int, v as int, base as int),
{
    assert(-17592186044416 <= num * v <= 17592186044416) by (nonlinear_arith)
        requires
            -4194304 <= num <= 4194304,
            -4194304 <= v <= 4194304,
    ;
    let d = if den > 0 {
        den
    } else {
        -den
    };
    assert(-4398046511104 <= base * d <= 4398046511104) by (nonlinear_arith)
        requires
            -1048576 <= base <= 1048576,
            1 <= d <= 4194304,
    ;
    let p = if den > 0 {
        num * v + base * d
    } else {
        -(num * v) + base * d
    };
    assert(-num * v == -(num * v)) by (nonlinear_arith);
    trunc_div(p, d)
}

/// Converts a template rectangle to photograph space. The scale ratios come
/// from the top pair (x) and the left pair (y); the anchor is the top-left
/// fiducial, or the bottom-left one when `use_first_model_point` is off and
/// the rectangle (or the row height `flag_y`) lies low enough on the page.
pub fn generate_real_coordinate_with_model_points(
    reference_model_points: &ReferenceModelPoints,
    coordinate: &Coordinate,
    use_first_model_point: bool,
    flag_y: Option<i32>,
    location: &Location,
) -> (r: Coordinate)
    requires
        reference_model_points.wf(),
        coordinate.in_range(),
        flag_y.is_some() ==> -PIXEL_LIMIT <= flag_y.unwrap() <= PIXEL_LIMIT,
        -1000 <= location.select_model_point_cal_real_coor_y_boundary_permille <= 1000,
    ensures
        r == mapped(*reference_model_points, *coordinate, use_first_model_point, flag_y, *location),
        r.in_range(),
{
    let refs = reference_model_points;
    let m0 = refs.model_points[0].coordinate;
    let m1 = refs.model_points[1].coordinate;
    let m2 = refs.model_points[2].coordinate;
    let r0 = refs.real_model_points[0];
    let r1 = refs.real_model_points[1];
    let r2 = refs.real_model_points[2];
    assert(m0.in_range() && m1.in_range() && m2.in_range()) by {
        assert(refs.model_points[0].coordinate.in_range());
        assert(refs.model_points[1].coordinate.in_range());
        assert(refs.model_points[2].coordinate.in_range());
    }
    assert(r0.in_range() && r1.in_range() && r2.in_range()) by {
        assert(refs.real_model_points[0].in_range());
        assert(refs.real_model_points[1].in_range());
        assert(refs.real_model_points[2].in_range());
    }
    let y: i64 = match flag_y {
        Some(v) => v as i64,
        None => coordinate.y as i64,
    };
    let b = location.select_model_point_cal_real_coor_y_boundary_permille as i64;
    assert(-2097152000 <= (m2.y - m0.y) * b <= 2097152000) by (nonlinear_arith)
        requires
            -2097152 <= m2.y - m0.y <= 2097152,
            -1000 <= b <= 1000,
    ;
    let bottom = !use_first_model_point && 1000 * y >= 1000 * (m0.y as i64) + (m2.y as i64 - m0.y as i64) * b;
    let (t, rt) = if bottom {
        (m2, r2)
    } else {
        (m0, r0)
    };
    let xn = r0.x as i64 - r1.x as i64;
    let xd = m0.x as i64 - m1.x as i64;
    let yn = r0.y as i64 - r2.y as i64;
    let yd = m0.y as i64 - m2.y as i64;
    let x = scaled_exec(xn, xd, coordinate.x as i64 - t.x as i64, rt.x as i64);
    let yy = scaled_exec(yn, yd, coordinate.y as i64 - t.y as i64, rt.y as i64);
    let w = scaled_exec(xn, xd, coordinate.w as i64, 0);
    let h = scaled_exec(yn, yd, coordinate.h as i64, 0);
    Coordinate { x: clamp_exec(x), y: clamp_exec(yy), w: clamp_exec(w), h: clamp_exec(h) }
}

proof fn lemma_floor_midpoint(k: int, d: int, a: int, b: int)
    requires
        d > 0,
        (a + b) % 2 == 0,
    ensures
        -1 <= 2 * ((k * ((a + b) / 2)) / d) - (k * a) / d - (k * b) / d <= 1,
{
    let m = (a + b) / 2;
    assert(a + b == 2 * m) by {
        vstd::arithmetic::div_mod::lemma_fundamental_div_mod(a + b, 2);
    }
    vstd::arithmetic::div_mod::lemma_fundamental_div_mod(k * a, d);
    vstd::arithmetic::div_mod::lemma_fundamental_div_mod(k * b, d);
    vstd::arithmetic::div_mod::lemma_fundamental_div_mod(k * m, d);
    let qa = (k * a) / d;
    let qb = (k * b) / d;
    let qm = (k * m) / d;
    let ra = (k * a) % d;
    let rb = (k * b) % d;
    let rm = (k * m) % d;
    assert(k * a + k * b == 2 * (k * m)) by (nonlinear_arith)
        requires
            a + b == 2 * m,
    ;
    assert((2 * qm - qa - qb) * d == ra + rb - 2 * rm) by (nonlinear_arith)
        requires
            k * a == d * qa + ra,
            k * b == d * qb + rb,
            k * m == d * qm + rm,
            k * a + k * b == 2 * (k * m),
    ;
    let e = 2 * qm - qa - qb;
    assert(-1 <= e <= 1) by (nonlinear_arith)
        requires
            e * d == ra + rb - 2 * rm,
            0 <= ra < d,
            0 <= rb < d,
            0 <= rm < d,
            d > 0,
    ;
}

proof fn lemma_scaled_midpoint(num: int, den: int, a: int, b: int, base: int)
    requires
        den != 0,
        (a + b) % 2 == 0,
        affine_num(num, den, a, base) >= 0,
        affine_num(num, den, b, base) >= 0,
    ensures
        -1 <= 2 * scaled(num, den, (a + b) / 2, base) - scaled(num, den, a, base) - scaled(
            num,
            den,
            b,
            base,
        ) <= 1,
{
    let d = abs_den(den);
    let na = affine_num(num, den, a, base);
    let nb = affine_num(num, den, b, base);
    let m = (a + b) / 2;
    vstd::arithmetic::div_mod::lemma_fundamental_div_mod(a + b, 2);
    let nm = affine_num(num, den, m, base);
    assert(na + nb == 2 * nm) by (nonlinear_arith)
        requires
            a + b == 2 * m,
            den > 0 ==> na == num * a + base * den && nb == num * b + base * den && nm == num * m
                + base * den,
            den <= 0 ==> na == -num * a + base * (-den) && nb == -num * b + base * (-den) && nm
                == -num * m + base * (-den),
    ;
    assert(nm >= 0);
    assert((na + nb) % 2 == 0) by {
        vstd::arithmetic::div_mod::lemma_mod_multiples_basic(nm, 2);
        assert(2 * nm == nm * 2);
    }
    assert((na + nb) / 2 == nm) by {
        vstd::arithmetic::div_mod::lemma_div_multiples_vanish(nm, 2);
    }
    lemma_floor_midpoint(1, d, na, nb);
    assert(1 * nm == nm && 1 * na == na && 1 * nb == nb);
}

proof fn lemma_scaled_identity(d: int, v: int, base: int)
    requires
        d != 0,
    ensures
        scaled(d, d, v, base) == v + base,
{
    let t = v + base;
    let ad = abs_den(d);
    assert(affine_num(d, d, v, base) == ad * t) by (nonlinear_arith)
        requires
            ad == (if d > 0 { d } else { -d }),
            affine_num(d, d, v, base) == (if d > 0 {
                d * v + base * d
            } else {
                -d * v + base * (-d)
            }),
            t == v + base,
    ;
    if t >= 0 {
        vstd::arithmetic::div_mod::lemma_div_multiples_vanish(t, ad);
        assert(ad * t == t * ad) by (nonlinear_arith);
    } else {
        assert(-(ad * t) == ad * (-t)) by (nonlinear_arith);
        vstd::arithmetic::div_mod::lemma_div_multiples_vanish(-t, ad);
        assert(ad * (-t) == (-t) * ad) by (nonlinear_arith);
        assert(ad * t < 0) by (nonlinear_arith)
            requires
                ad > 0,
                t < 0,
        ;
    }
}

/// Where the photograph fiducials are the template fiducials, mapping
/// returns every rectangle unchanged, whatever the anchor.
pub proof fn lemma_mapping_identity(
    refs: ReferenceModelPoints,
    c: Coordinate,
    use_first: bool,
    flag_y: Option<i32>,
    loc: Location,
)
    requires
        refs.wf(),
        c.in_range(),
        forall|i: int| 0 <= i < 4 ==> #[trigger] refs.real_model_points[i] == refs.model_points[i].coordinate,
    ensures
        mapped(refs, c, use_first, flag_y, loc) == c,
{
    let m = refs.model_points;
    let r = refs.real_model_points;
    assert(r[0] == m[0].coordinate && r[1] == m[1].coordinate && r[2] == m[2].coordinate);
    let a = anchor_index(refs, c, use_first, flag_y, loc);
    assert(r[a] == m[a].coordinate);
    lemma_scaled_identity(m[0].coordinate.x - m[1].coordinate.x, c.x - m[a].coordinate.x, r[a].x as int);
    lemma_scaled_identity(m[0].coordinate.y - m[2].coordinate.y, c.y - m[a].coordinate.y, r[a].y as int);
    lemma_scaled_identity(m[0].coordinate.x - m[1].coordinate.x, c.w as int, 0);
    lemma_scaled_identity(m[0].coordinate.y - m[2].coordinate.y, c.h as int, 0);
}

/// The rectangle halfway between `a` and `b`.
pub open spec fn midpoint(a: Coordinate, b: Coordinate) -> Coordinate {
    Coordinate {
        x: ((a.x + b.x) / 2) as i32,
        y: ((a.y + b.y) / 2) as i32,
        w: ((a.w + b.w) / 2) as i32,
        h: ((a.h + b.h) / 2) as i32,
    }
}

pub open spec fn raw_in_range(v: (int, int, int, int)) -> bool {
    &&& -PIXEL_LIMIT <= v.0 <= PIXEL_LIMIT
    &&& -PIXEL_LIMIT <= v.1 <= PIXEL_LIMIT
    &&& -PIXEL_LIMIT <= v.2 <= PIXEL_LIMIT
    &&& -PIXEL_LIMIT <= v.3 <= PIXEL_LIMIT
}

/// The numerators of the four mapped fields of `c` with anchor `a`, over
/// the positive denominators: the values before rounding toward zero.
pub open spec fn mapped_numerators(refs: ReferenceModelPoints, c: Coordinate, a: int) -> (int, int, int, int) {
    let m = refs.model_points;
    let r = refs.real_model_points;
    let xn = r[0].x - r[1].x;
    let xd = m[0].coordinate.x - m[1].coordinate.x;
    let yn = r[0].y - r[2].y;
    let yd = m[0].coordinate.y - m[2].coordinate.y;
    (
        affine_num(xn, xd, c.x - m[a].coordinate.x, r[a].x as int),
        affine_num(yn, yd, c.y - m[a].coordinate.y, r[a].y as int),
        affine_num(xn, xd, c.w as int, 0),
        affine_num(yn, yd, c.h as int, 0),
    )
}

pub open spec fn nonneg(v: (int, int, int, int)) -> bool {
    v.0 >= 0 && v.1 >= 0 && v.2 >= 0 && v.3 >= 0
}

/// Mapping is affine: with one anchor (the top-left fiducial), the image of
/// the midpoint of two rectangles is the midpoint of their images, to within
/// one pixel of rounding on twice each field. The midpoint is taken where it
/// has integer fields; the images are those within the pixel range and at
/// non-negative photograph coordinates before rounding (across zero,
/// rounding toward zero can put twice the midpoint two pixels off).
pub proof fn lemma_mapping_midpoint(
    refs: ReferenceModelPoints,
    a: Coordinate,
    b: Coordinate,
    loc: Location,
)
    requires
        refs.wf(),
        (a.x + b.x) % 2 == 0,
        (a.y + b.y) % 2 == 0,
        (a.w + b.w) % 2 == 0,
        (a.h + b.h) % 2 == 0,
        raw_in_range(mapped_raw(refs, a, 0)),
        raw_in_range(mapped_raw(refs, b, 0)),
        raw_in_range(mapped_raw(refs, midpoint(a, b), 0)),
        nonneg(mapped_numerators(refs, a, 0)),
        nonneg(mapped_numerators(refs, b, 0)),
    ensures
        ({
            let ma = mapped(refs, a, true, None, loc);
            let mb = mapped(refs, b, true, None, loc);
            let mm = mapped(refs, midpoint(a, b), true, None, loc);
            &&& -1 <= 2 * mm.x - ma.x - mb.x <= 1
            &&& -1 <= 2 * mm.y - ma.y - mb.y <= 1
            &&& -1 <= 2 * mm.w - ma.w - mb.w <= 1
            &&& -1 <= 2 * mm.h - ma.h - mb.h <= 1
        }),
{
    let m = refs.model_points;
    let r = refs.real_model_points;
    let xn = r[0].x - r[1].x;
    let xd = m[0].coordinate.x - m[1].coordinate.x;
    let yn = r[0].y - r[2].y;
    let yd = m[0].coordinate.y - m[2].coordinate.y;
    let tx = m[0].coordinate.x as int;
    let ty = m[0].coordinate.y as int;
    let mid = midpoint(a, b);
    vstd::arithmetic::div_mod::lemma_fundamental_div_mod(a.x + b.x, 2);
    vstd::arithmetic::div_mod::lemma_fundamental_div_mod(a.y + b.y, 2);
    vstd::arithmetic::div_mod::lemma_fundamental_div_mod(a.w + b.w, 2);
    vstd::arithmetic::div_mod::lemma_fundamental_div_mod(a.h + b.h, 2);
    assert(mid.x - tx == ((a.x - tx) + (b.x - tx)) / 2);
    assert(mid.y - ty == ((a.y - ty) + (b.y - ty)) / 2);
    assert(((a.x - tx) + (b.x - tx)) % 2 == 0);
    assert(((a.y - ty) + (b.y - ty)) % 2 == 0);
    lemma_scaled_midpoint(xn, xd, a.x - tx, b.x - tx, r[0].x as int);
    lemma_scaled_midpoint(yn, yd, a.y - ty, b.y - ty, r[0].y as int);
    lemma_scaled_midpoint(xn, xd, a.w as int, b.w as int, 0);
    lemma_scaled_midpoint(yn, yd, a.h as int, b.h as int, 0);
}

/// A cached translation and rotation of one row: translate by
/// (`move_x`, `move_y`), then rotate about `center` by the angle whose cosine
/// and sine are `cos_num / den` and `sin_num / den`.
#[derive(Debug, Clone, Copy, PartialEq, Eq, Structural)]
pub struct MoveOperation {
    pub move_x: i32,
    pub move_y: i32,
    pub center: MyPoint,
    pub cos_num: i64,
    pub sin_num: i64,
    pub den: i64,
}

impl MoveOperation {
    pub open spec fn wf(self) -> bool {
        &&& 0 < self.den <= 0x1000_0000_0000
        &&& -0x1000_0000_0000 <= self.cos_num <= 0x1000_0000_0000
        &&& -0x1000_0000_0000 <= self.sin_num <= 0x1000_0000_0000
        &&& -2 * PIXEL_LIMIT <= self.move_x <= 2 * PIXEL_LIMIT
        &&& -2 * PIXEL_LIMIT <= self.move_y <= 2 * PIXEL_LIMIT
        &&& -PIXEL_LIMIT <= self.center.x <= PIXEL_LIMIT
        &&& -PIXEL_LIMIT <= self.center.y <= PIXEL_LIMIT
    }
}

/// The move operation that carries the segment `old[0] -> old[1]` (top-left
/// corners) onto `new[0] -> new[1]`: translation by `new[0] - old[0]`, then
/// rotation about `new[0]` by the signed angle between the two segments. Its
/// rotation is the product of the second direction with the conjugate of the
/// first over the product of their lengths; a null segment gives none.
pub open spec fn move_op_of(old: Seq<Coordinate>, new: Seq<Coordinate>) -> MoveOperation {
    let v0 = old[1].x - old[0].x;
    let v1 = old[1].y - old[0].y;
    let u0 = new[1].x - new[0].x;
    let u1 = new[1].y - new[0].y;
    let n = (v0 * v0 + v1 * v1) * (u0 * u0 + u1 * u1);
    let den = floor_sqrt(n);
    MoveOperation {
        move_x: (new[0].x - old[0].x) as i32,
        move_y: (new[0].y - old[0].y) as i32,
        center: MyPoint { x: new[0].x, y: new[0].y },
        cos_num: if den == 0 { 1 } else { (v0 * u0 + v1 * u1) as i64 },
        sin_num: if den == 0 { 0 } else { (v0 * u1 - v1 * u0) as i64 },
        den: if den == 0 { 1 } else { den as i64 },
    }
}

pub fn generate_move_op(old_points: [Coordinate; 2], new_points: [Coordinate; 2]) -> (r: MoveOperation)
    requires
        old_points[0].in_range(),
        old_points[1].in_range(),
        new_points[0].in_range(),
        new_points[1].in_range(),
    ensures
        r == move_op_of(old_points@, new_points@),
        r.wf(),
{
    let o0 = old_points[0];
    let o1 = old_points[1];
    let n0 = new_points[0];
    let n1 = new_points[1];
    let v0 = o1.x as i64 - o0.x as i64;
    let v1 = o1.y as i64 - o0.y as i64;
    let u0 = n1.x as i64 - n0.x as i64;
    let u1 = n1.y as i64 - n0.y as i64;
    proof {
        assert(-4398046511104 <= v0 * u0 <= 4398046511104) by (nonlinear_arith)
            requires
                -2097152 <= v0 <= 2097152,
                -2097152 <= u0 <= 2097152,
        ;
        assert(-4398046511104 <= v1 * u1 <= 4398046511104) by (nonlinear_arith)
            requires
                -2097152 <= v1 <= 2097152,
                -2097152 <= u1 <= 2097152,
        ;
        assert(-4398046511104 <= v0 * u1 <= 4398046511104) by (nonlinear_arith)
            requires
                -2097152 <= v0 <= 2097152,
                -2097152 <= u1 <= 2097152,
        ;
        assert(-4398046511104 <= v1 * u0 <= 4398046511104) by (nonlinear_arith)
            requires
                -2097152 <= v1 <= 2097152,
                -2097152 <= u0 <= 2097152,
        ;
        assert(0 <= v0 * v0 <= 4398046511104) by (nonlinear_arith)
            requires
                -2097152 <= v0 <= 2097152,
        ;
        assert(0 <= v1 * v1 <= 4398046511104) by (nonlinear_arith)
            requires
                -2097152 <= v1 <= 2097152,
        ;
        assert(0 <= u0 * u0 <= 4398046511104) by (nonlinear_arith)
            requires
                -2097152 <= u0 <= 2097152,
        ;
        assert(0 <= u1 * u1 <= 4398046511104) by (nonlinear_arith)
            requires
                -2097152 <= u1 <= 2097152,
        ;
    }
    let nv: u128 = (v0 * v0 + v1 * v1) as u128;
    let nu: u128 = (u0 * u0 + u1 * u1) as u128;
    assert(nv * nu <= 77371252455336267181195264) by (nonlinear_arith)
        requires
            0 <= nv <= 8796093022208,
            0 <= nu <= 8796093022208,
    ;
    let den = isqrt(nv * nu);
    proof {
        if den > 8796093022208 {
            assert(den * den > 77371252455336267181195264) by (nonlinear_arith)
                requires
                    den > 8796093022208,
            ;
        }
    }
    let (c, s, d) = if den == 0 {
        (1i64, 0i64, 1i64)
    } else {
        (v0 * u0 + v1 * u1, v0 * u1 - v1 * u0, den as i64)
    };
    MoveOperation {
        move_x: (n0.x as i64 - o0.x as i64) as i32,
        move_y: (n0.y as i64 - o0.y as i64) as i32,
        center: MyPoint { x: n0.x, y: n0.y },
        cos_num: c,
        sin_num: s,
        den: d,
    }
}

/// A point rotated about `center` by the rotation of `op`, rounded down and
/// held within the pixel range.
pub open spec fn rotated(op: MoveOperation, x: int, y: int) -> (int, int) {
    let dx = x - op.center.x;
    let dy = y - op.center.y;
    (
        clamp_px((dx * op.cos_num - dy * op.sin_num) / (op.den as int) + op.center.x),
        clamp_px((dx * op.sin_num + dy * op.cos_num) / (op.den as int) + op.center.y),
    )
}

/// A rectangle moved by `op`: its corner translated, then rotated.
pub open spec fn moved(c: Coordinate, op: MoveOperation) -> Coordinate {
    let p = rotated(op, clamp_px(c.x + op.move_x), clamp_px(c.y + op.move_y));
    Coordinate { x: p.0 as i32, y: p.1 as i32, ..c }
}

/// Applies a row's move operation, if there is one, to a mapped rectangle.
pub fn fix_coordinate_use_assist_points(coordinate: &mut Coordinate, move_op: Option<&MoveOperation>)
    requires
        old(coordinate).in_range(),
        move_op.is_some() ==> move_op.unwrap().wf(),
    ensures
        move_op.is_none() ==> *final(coordinate) == *old(coordinate),
        move_op.is_some() ==> *final(coordinate) == moved(*old(coordinate), *move_op.unwrap()),
        final(coordinate).in_range(),
{
    match move_op {
        None => {},
        Some(op) => {
            let x = clamp_exec(coordinate.x as i64 + op.move_x as i64) as i128;
            let y = clamp_exec(coordinate.y as i64 + op.move_y as i64) as i128;
            let dx = x - op.center.x as i128;
            let dy = y - op.center.y as i128;
            proof {
                assert(-73786976294838206464 <= dx * op.cos_num <= 73786976294838206464) by (nonlinear_arith)
                    requires
                        -4194304 <= dx <= 4194304,
                        -0x1000_0000_0000 <= op.cos_num <= 0x1000_0000_0000,
                ;
                assert(-73786976294838206464 <= dy * op.sin_num <= 73786976294838206464) by (nonlinear_arith)
                    requires
                        -4194304 <= dy <= 4194304,
                        -0x1000_0000_0000 <= op.sin_num <= 0x1000_0000_0000,
                ;
                assert(-73786976294838206464 <= dx * op.sin_num <= 73786976294838206464) by (nonlinear_arith)
                    requires
                        -4194304 <= dx <= 4194304,
                        -0x1000_0000_0000 <= op.sin_num <= 0x1000_0000_0000,
                ;
                assert(-73786976294838206464 <= dy * op.cos_num <= 73786976294838206464) by (nonlinear_arith)
                    requires
                        -4194304 <= dy <= 4194304,
                        -0x1000_0000_0000 <= op.cos_num <= 0x1000_0000_0000,
                ;
            }
            let px = floor_div_wide(dx * op.cos_num as i128 - dy * op.sin_num as i128, op.den as i128);
            let py = floor_div_wide(dx * op.sin_num as i128 + dy * op.cos_num as i128, op.den as i128);
            proof {
                let ax = (dx * op.cos_num as i128 - dy * op.sin_num as i128) as int;
                let ay = (dx * op.sin_num as i128 + dy * op.cos_num as i128) as int;
                lemma_div_small_range(ax, op.den as int);
                lemma_div_small_range(ay, op.den as int);
            }
            coordinate.x = clamp_wide(px + op.center.x as i128);
            coordinate.y = clamp_wide(py + op.center.y as i128);
        },
    }
}

proof fn lemma_div_small_range(a: int, d: int)
    requires
        d >= 1,
        -147573952589676412928 <= a <= 147573952589676412928,
    ensures
        -147573952589676412928 <= a / d <= 147573952589676412928,
{
    vstd::arithmetic::div_mod::lemma_fundamental_div_mod(a, d);
    let q = a / d;
    let r = a % d;
    assert(-147573952589676412928 <= q <= 147573952589676412928) by (nonlinear_arith)
        requires
            a == d * q + r,
            0 <= r < d,
            d >= 1,
            -147573952589676412928 <= a <= 147573952589676412928,
    ;
}

/// The move operation of row `y`, if one was recorded: the last one
/// recorded for that row.
pub open spec fn move_op_for(ops: Seq<(i32, MoveOperation)>, y: i32) -> Option<MoveOperation>
    decreases ops.len(),
{
    if ops.len() == 0 {
        None
    } else if ops.last().0 == y {
        Some(ops.last().1)
    } else {
        move_op_for(ops.drop_last(), y)
    }
}

/// Looks up the move operation last recorded for row `y`.
pub fn find_move_op(ops: &Vec<(i32, MoveOperation)>, y: i32) -> (r: Option<MoveOperation>)
    ensures
        r == move_op_for(ops@, y),
{
    let mut i: usize = ops.len();
    assert(ops@.take(i as int) =~= ops@);
    while i > 0
        invariant
            i <= ops@.len(),
            move_op_for(ops@, y) == move_op_for(ops@.take(i as int), y),
        decreases i,
    {
        assert(ops@.take(i as int).drop_last() =~= ops@.take(i as int - 1));
        if ops[i - 1].0 == y {
            return Some(ops[i - 1].1);
        }
        i = i - 1;
    }
    None
}

} // verus!
