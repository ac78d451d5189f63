//! Points and rectangles in pixels, the extremes of a point set, the order
//! of a fiducial set and its half-turn.
use vstd::prelude::*;

verus! {

/// Largest absolute value of a coordinate, a width or a height that the
/// geometry works with; it keeps every product of the validator exact.
pub const PIXEL_LIMIT: i32 = 1048576;

/// A point, in pixels.
#[derive(Debug, Clone, Copy, PartialEq, Eq, Structural)]
pub struct MyPoint {
    pub x: i32,
    pub y: i32,
}

impl MyPoint {
    pub fn new(x: i32, y: i32) -> (r: Self)
        ensures
            r.x == x,
            r.y == y,
    {
        MyPoint { x, y }
    }
}

/// A rectangle: top-left corner, width and height, in pixels.
#[derive(Debug, Clone, Copy, PartialEq, Eq, Structural, Hash)]
pub struct Coordinate {
    pub x: i32,
    pub y: i32,
    pub w: i32,
    pub h: i32,
}

impl Coordinate {
    pub fn new(x: i32, y: i32, w: i32, h: i32) -> (r: Self)
        ensures
            r == (Coordinate { x, y, w, h }),
    {
        Self { x, y, w, h }
    }

    /// Every field lies within `PIXEL_LIMIT` of zero.
    pub open spec fn in_range(self) -> bool {
        &&& -PIXEL_LIMIT <= self.x <= PIXEL_LIMIT
        &&& -PIXEL_LIMIT <= self.y <= PIXEL_LIMIT
        &&& -PIXEL_LIMIT <= self.w <= PIXEL_LIMIT
        &&& -PIXEL_LIMIT <= self.h <= PIXEL_LIMIT
    }
}

/// Size of a template page.
#[derive(Debug, Clone, Copy, PartialEq, Eq, Structural)]
pub struct ModelSize {
    pub w: i32,
    pub h: i32,
}

/// A fiducial marker of a template page.
#[derive(Debug, Clone, Copy, PartialEq, Eq, Structural)]
pub struct ModelPoint {
    pub point_type: u8,
    pub coordinate: Coordinate,
}

/// A pair of assist markers sharing one row.
#[derive(Debug, Clone, Copy, PartialEq, Eq, Structural)]
pub struct AssistPoint {
    pub right: Coordinate,
    pub left: Coordinate,
}

/// Size of a rectified page, in pixels.
#[derive(Debug, Clone, Copy, PartialEq, Eq, Structural)]
pub struct PageSize {
    pub w: i32,
    pub h: i32,
}

/// A value with a position.
pub trait HasCoordinates {
    spec fn spec_x(&self) -> i32;

    spec fn spec_y(&self) -> i32;

    fn get_coordinates(&self) -> (r: (i32, i32))
        ensures
            r.0 == self.spec_x(),
            r.1 == self.spec_y(),
    ;
}

impl HasCoordinates for MyPoint {
    open spec fn spec_x(&self) -> i32 {
        self.x
    }

    open spec fn spec_y(&self) -> i32 {
        self.y
    }

    fn get_coordinates(&self) -> (r: (i32, i32)) {
        (self.x, self.y)
    }
}

/// Integer division that rounds toward zero, as Rust's `/` does.
pub open spec fn div_trunc(a: int, b: int) -> int {
    if a >= 0 {
        a / b
    } else {
        -((-a) / b)
    }
}

pub fn trunc_div(a: i64, b: i64) -> (q: i64)
    requires
        b > 0,
        a > i64::MIN,
    ensures
        q as int == div_trunc(a as int, b as int),
{
    if a >= 0 {
        let r = (a as u64) / (b as u64);
        r as i64
    } else {
        let r = ((-a) as u64) / (b as u64);
        -(r as i64)
    }
}

pub open spec fn xs<T: HasCoordinates>(points: Seq<T>) -> Seq<int> {
    points.map_values(|p: T| p.spec_x() as int)
}

pub open spec fn ys<T: HasCoordinates>(points: Seq<T>) -> Seq<int> {
    points.map_values(|p: T| p.spec_y() as int)
}

/// The center of a set of points: the mean of each axis, rounded toward zero.
pub fn calculate_points_center<T: HasCoordinates>(points: &[T]) -> (r: Option<(i32, i32)>)
    ensures
        points@.len() == 0 <==> r.is_none(),
        points@.len() > 0 ==> r == Some((
            div_trunc(crate::numeric::seq_sum(xs(points@)), points@.len() as int) as i32,
            div_trunc(crate::numeric::seq_sum(ys(points@)), points@.len() as int) as i32,
        )),
{
    if points.len() == 0 {
        return None;
    }
    let mut sx: i128 = 0;
    let mut sy: i128 = 0;
    let mut i: usize = 0;
    while i < points.len()
        invariant
            i <= points@.len(),
            sx as int == crate::numeric::seq_sum(xs(points@).take(i as int)),
            sy as int == crate::numeric::seq_sum(ys(points@).take(i as int)),
            -0x8000_0000 * i <= sx <= 0x7fff_ffff * i,
            -0x8000_0000 * i <= sy <= 0x7fff_ffff * i,
            i <= usize::MAX,
        decreases points@.len() - i,
    {
        let (x, y) = points[i].get_coordinates();
        proof {
            assert(xs(points@).take(i as int + 1).drop_last() =~= xs(points@).take(i as int));
            assert(ys(points@).take(i as int + 1).drop_last() =~= ys(points@).take(i as int));
        }
        sx = sx + x as i128;
        sy = sy + y as i128;
        i = i + 1;
    }
    proof {
        assert(xs(points@).take(points@.len() as int) =~= xs(points@));
        assert(ys(points@).take(points@.len() as int) =~= ys(points@));
    }
    let n = points.len() as i128;
    let cx = if sx >= 0 { sx / n } else { -((-sx) / n) };
    let cy = if sy >= 0 { sy / n } else { -((-sy) / n) };
    proof {
        let ni = n as int;
        assert(ni >= 1);
        lemma_mean_bounds(sx as int, ni);
        lemma_mean_bounds(sy as int, ni);
    }
    Some((cx as i32, cy as i32))
}

proof fn lemma_mean_bounds(s: int, n: int)
    requires
        n >= 1,
        -0x8000_0000 * n <= s <= 0x7fff_ffff * n,
    ensures
        -0x8000_0000 <= div_trunc(s, n) <= 0x7fff_ffff,
{
    if s >= 0 {
        vstd::arithmetic::div_mod::lemma_div_is_ordered(s, 0x7fff_ffff * n, n);
        vstd::arithmetic::div_mod::lemma_div_multiples_vanish(0x7fff_ffff, n);
        vstd::arithmetic::div_mod::lemma_div_pos_is_pos(s, n);
    } else {
        vstd::arithmetic::div_mod::lemma_div_is_ordered(-s, 0x8000_0000 * n, n);
        vstd::arithmetic::div_mod::lemma_div_multiples_vanish(0x8000_0000, n);
        vstd::arithmetic::div_mod::lemma_div_pos_is_pos(-s, n);
    }
}

/// The bounds of the first `k` points (`k` at least one): (least x,
/// largest x, least y, largest y).
pub open spec fn bounds_scan<T: HasCoordinates>(points: Seq<T>, k: int) -> (int, int, int, int)
    decreases k,
{
    let x = points[k - 1].spec_x() as int;
    let y = points[k - 1].spec_y() as int;
    if k <= 1 {
        (x, x, y, y)
    } else {
        let p = bounds_scan(points, k - 1);
        (
            if x < p.0 { x } else { p.0 },
            if x > p.1 { x } else { p.1 },
            if y < p.2 { y } else { p.2 },
            if y > p.3 { y } else { p.3 },
        )
    }
}

/// The width and height of the box around a set of edge points (see
/// `bounds_scan`); none for an empty set.
pub fn calculate_points_wh<T: HasCoordinates>(points: &[T]) -> (r: Option<(i32, i32)>)
    ensures
        r.is_none() == (points@.len() == 0),
        r.is_some() ==> ({
            let b = bounds_scan(points@, points@.len() as int);
            r.unwrap() == ((b.1 - b.0) as i32, (b.3 - b.2) as i32)
        }),
{
    if points.len() == 0 {
        return None;
    }
    let (x0, y0) = points[0].get_coordinates();
    let mut minx: i32 = x0;
    let mut maxx: i32 = x0;
    let mut miny: i32 = y0;
    let mut maxy: i32 = y0;
    let mut i: usize = 1;
    while i < points.len()
        invariant
            1 <= i <= points@.len(),
            (minx as int, maxx as int, miny as int, maxy as int) == bounds_scan(points@, i as int),
        decreases points@.len() - i,
    {
        let (x, y) = points[i].get_coordinates();
        if x < minx {
            minx = x;
        }
        if x > maxx {
            maxx = x;
        }
        if y < miny {
            miny = y;
        }
        if y > maxy {
            maxy = y;
        }
        i = i + 1;
    }
    Some(((maxx as i64 - minx as i64) as i32, (maxy as i64 - miny as i64) as i32))
}

/// A rectangle after a half turn of the photograph about `center`: its
/// bottom-right corner, turned, becomes its top-left.
pub open spec fn half_turned(r: Coordinate, center: MyPoint) -> Coordinate {
    Coordinate {
        x: (2 * center.x - (r.x + r.w)) as i32,
        y: (2 * center.y - (r.y + r.h)) as i32,
        w: r.w,
        h: r.h,
    }
}

/// A fiducial set after a half turn: the corners trade places (top-left
/// with bottom-right, top-right with bottom-left) and each is turned.
pub open spec fn fiducials_half_turned(c: Seq<Coordinate>, center: MyPoint) -> Seq<Coordinate> {
    seq![
        half_turned(c[3], center),
        half_turned(c[2], center),
        half_turned(c[1], center),
        half_turned(c[0], center),
    ]
}

pub open spec fn center_in_range(center: MyPoint) -> bool {
    &&& 0 <= center.x <= PIXEL_LIMIT
    &&& 0 <= center.y <= PIXEL_LIMIT
}

/// Turns a fiducial set half a turn about `center`, keeping the corner
/// order.
pub fn rotate_model_points_180(points: &mut [Coordinate; 4], center: MyPoint)
    requires
        center_in_range(center),
        forall|i: int| 0 <= i < 4 ==> (#[trigger] old(points)@[i]).in_range(),
    ensures
        final(points)@ == fiducials_half_turned(old(points)@, center),
{
    let c0 = points[0];
    let c1 = points[1];
    let c2 = points[2];
    let c3 = points[3];
    assert(c0.in_range() && c1.in_range() && c2.in_range() && c3.in_range()) by {
        assert(old(points)@[0].in_range());
        assert(old(points)@[1].in_range());
        assert(old(points)@[2].in_range());
        assert(old(points)@[3].in_range());
    }
    let ghost before = points@;
    points[0] = turn(c3, center);
    points[1] = turn(c2, center);
    points[2] = turn(c1, center);
    points[3] = turn(c0, center);
    assert(points@ =~= fiducials_half_turned(before, center));
}

fn turn(r: Coordinate, center: MyPoint) -> (t: Coordinate)
    requires
        r.in_range(),
        center_in_range(center),
    ensures
        t == half_turned(r, center),
{
    Coordinate {
        x: (2 * center.x as i64 - (r.x as i64 + r.w as i64)) as i32,
        y: (2 * center.y as i64 - (r.y as i64 + r.h as i64)) as i32,
        w: r.w,
        h: r.h,
    }
}

/// Turning a fiducial set half a turn twice about one center gives the set
/// back.
pub proof fn lemma_half_turn_twice(c: Seq<Coordinate>, center: MyPoint)
    requires
        c.len() == 4,
        center_in_range(center),
        forall|i: int| 0 <= i < 4 ==> (#[trigger] c[i]).in_range(),
    ensures
        fiducials_half_turned(fiducials_half_turned(c, center), center) == c,
{
    assert(c[0].in_range() && c[1].in_range() && c[2].in_range() && c[3].in_range());
    assert(fiducials_half_turned(fiducials_half_turned(c, center), center) =~= c);
}

} // verus!
