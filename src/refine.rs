//! Sub-pixel refinement of markers on the summed-area table of the
//! binarized raster: edge search, and translation to the least inked
//! position nearby, for one marker or a group of them.
use vstd::prelude::*;
use crate::config::ImageBaizheng;
use crate::geometry::{Coordinate, PIXEL_LIMIT};
use crate::numeric::floor_div_wide;
use crate::raster::IntegralImage;

verus! {

/// Sum of line `i` between `a` and `b` inclusive: a row when `rows`, else a
/// column.
pub open spec fn line_sum(ii: IntegralImage, rows: bool, i: int, a: int, b: int) -> int {
    if rows {
        ii.box_sum(a, i, b, i)
    } else {
        ii.box_sum(i, a, i, b)
    }
}

/// The change of ink from line `i - 1` to line `i`.
pub open spec fn line_diff(ii: IntegralImage, rows: bool, i: int, a: int, b: int) -> int {
    line_sum(ii, rows, i, a, b) - line_sum(ii, rows, i - 1, a, b)
}

/// The edge search over lines `lo + 1 .. k`: the strongest drop in the first
/// two thirds of `[lo, hi]` gives the new start, the strongest rise in the
/// last two thirds gives the new end (the line before the rise); each
/// keeps the first line that reaches it, and a side with no drop or rise
/// keeps `start` or `end`. The state is (drop, start, rise, end).
pub open spec fn edge_scan(
    ii: IntegralImage,
    rows: bool,
    a: int,
    b: int,
    lo: int,
    hi: int,
    start: int,
    end: int,
    k: int,
) -> (int, int, int, int)
    decreases k - lo,
{
    if k <= lo + 1 {
        (0, start, 0, end)
    } else {
        let p = edge_scan(ii, rows, a, b, lo, hi, start, end, k - 1);
        let i = k - 1;
        let d = line_diff(ii, rows, i, a, b);
        let (md, s) = if d < p.0 && i <= (lo + hi) * 2 / 3 {
            (d, i)
        } else {
            (p.0, p.1)
        };
        let (mi, e) = if d > p.2 && i >= (lo + hi) / 3 {
            (d, i - 1)
        } else {
            (p.2, p.3)
        };
        (md, s, mi, e)
    }
}

/// The rectangle after the edge search across its rows (`rows`: top and
/// bottom edges) or its columns (left and right edges), scanning
/// `scan_range` beyond each edge. The new edges are kept only when the new
/// size lies strictly between `min_dis` and `max_dis`; a rectangle whose
/// lines leave the raster is kept as it is.
pub open spec fn edges_refined(
    ii: IntegralImage,
    c: Coordinate,
    rows: bool,
    scan_range: int,
    min_dis: int,
    max_dis: int,
) -> Coordinate {
    let (pos, len, a, b, limit) = if rows {
        (c.y as int, c.h as int, c.x as int, c.x + c.w, ii.height as int)
    } else {
        (c.x as int, c.w as int, c.y as int, c.y + c.h, ii.width as int)
    };
    let other_limit = if rows {
        ii.width as int
    } else {
        ii.height as int
    };
    let lo = if pos - scan_range > 0 {
        pos - scan_range
    } else {
        0
    };
    let hi = if pos + len + scan_range < limit {
        pos + len + scan_range
    } else {
        limit
    };
    if !(0 <= a && a <= b && b < other_limit) {
        c
    } else {
        let st = edge_scan(ii, rows, a, b, lo, hi, pos, pos + len, if hi > lo + 1 {
            hi
        } else {
            lo + 1
        });
        let size = st.3 - st.1;
        if size > min_dis && size < max_dis {
            if rows {
                Coordinate { y: st.1 as i32, h: size as i32, ..c }
            } else {
                Coordinate { x: st.1 as i32, w: size as i32, ..c }
            }
        } else {
            c
        }
    }
}

fn line_sum_exec(ii: &IntegralImage, rows: bool, i: u32, a: u32, b: u32) -> (s: i128)
    requires
        ii.wf(),
        a <= b,
        rows ==> b < ii.width && i < ii.height,
        !rows ==> b < ii.height && i < ii.width,
    ensures
        s == line_sum(*ii, rows, i as int, a as int, b as int),
        -0x8000_0000_0000_0000 * 4 <= s <= 0x8000_0000_0000_0000 * 4,
{
    if rows {
        ii.sum_pixels(a, i, b, i)
    } else {
        ii.sum_pixels(i, a, i, b)
    }
}

/// Runs the edge search across rows or columns (see `edges_refined`).
pub fn refine_edges(
    ii: &IntegralImage,
    c: Coordinate,
    rows: bool,
    scan_range: i32,
    min_dis: i32,
    max_dis: i32,
) -> (r: Coordinate)
    requires
        ii.wf(),
        c.in_range(),
        0 <= scan_range <= PIXEL_LIMIT,
        -PIXEL_LIMIT <= min_dis,
        max_dis <= PIXEL_LIMIT,
    ensures
        r == edges_refined(*ii, c, rows, scan_range as int, min_dis as int, max_dis as int),
        r.in_range(),
{
    let (pos, len, a, b, limit) = if rows {
        (c.y as i64, c.h as i64, c.x as i64, c.x as i64 + c.w as i64, ii.height as i64)
    } else {
        (c.x as i64, c.w as i64, c.y as i64, c.y as i64 + c.h as i64, ii.width as i64)
    };
    let other_limit: i64 = if rows {
        ii.width as i64
    } else {
        ii.height as i64
    };
    let lo: i64 = if pos - scan_range as i64 > 0 {
        pos - scan_range as i64
    } else {
        0
    };
    let hi: i64 = if pos + len + (scan_range as i64) < limit {
        pos + len + scan_range as i64
    } else {
        limit
    };
    if !(0 <= a && a <= b && b < other_limit) {
        return c;
    }
    let end_k: i64 = if hi > lo + 1 {
        hi
    } else {
        lo + 1
    };
    let mut md: i128 = 0;
    let mut s: i64 = pos;
    let mut mi: i128 = 0;
    let mut e: i64 = pos + len;
    let mut k: i64 = lo + 1;
    while k < end_k
        invariant
            ii.wf(),
            0 <= lo,
            lo + 1 <= k <= end_k,
            end_k as int == (if hi > lo + 1 {
                hi as int
            } else {
                lo + 1
            }),
            hi <= limit,
            limit == (if rows {
                ii.height as int
            } else {
                ii.width as int
            }),
            0 <= a <= b < other_limit,
            other_limit == (if rows {
                ii.width as int
            } else {
                ii.height as int
            }),
            -PIXEL_LIMIT <= s <= PIXEL_LIMIT,
            -PIXEL_LIMIT * 4 <= e <= PIXEL_LIMIT * 4,
            -0x8000_0000_0000_0000 * 8 <= md <= 0x8000_0000_0000_0000 * 8,
            -0x8000_0000_0000_0000 * 8 <= mi <= 0x8000_0000_0000_0000 * 8,
            (md as int, s as int, mi as int, e as int) == edge_scan(
                *ii,
                rows,
                a as int,
                b as int,
                lo as int,
                hi as int,
                pos as int,
                pos + len,
                k as int,
            ),
        decreases end_k - k,
    {
        let cur = line_sum_exec(ii, rows, k as u32, a as u32, b as u32);
        let before = line_sum_exec(ii, rows, (k - 1) as u32, a as u32, b as u32);
        let d = cur - before;
        if d < md && k <= (lo + hi) * 2 / 3 {
            md = d;
            s = k;
        }
        if d > mi && k >= (lo + hi) / 3 {
            mi = d;
            e = k - 1;
        }
        k = k + 1;
    }
    let size = e - s;
    if size > min_dis as i64 && size < max_dis as i64 {
        if rows {
            Coordinate { y: s as i32, h: size as i32, ..c }
        } else {
            Coordinate { x: s as i32, w: size as i32, ..c }
        }
    } else {
        c
    }
}

/// Tightens the top and bottom edges of a marker.
pub fn fix_boundary_top_down(
    img: &IntegralImage,
    coordinate: &mut Coordinate,
    scan_range: i32,
    min_dis: i32,
    max_dis: i32,
)
    requires
        img.wf(),
        old(coordinate).in_range(),
        0 <= scan_range <= PIXEL_LIMIT,
        -PIXEL_LIMIT <= min_dis,
        max_dis <= PIXEL_LIMIT,
    ensures
        final(coordinate).in_range(),
        *final(coordinate) == edges_refined(
            *img,
            *old(coordinate),
            true,
            scan_range as int,
            min_dis as int,
            max_dis as int,
        ),
{
    *coordinate = refine_edges(img, *coordinate, true, scan_range, min_dis, max_dis);
}

/// Tightens the left and right edges of a marker.
pub fn fix_boundary_left_right(
    img: &IntegralImage,
    coordinate: &mut Coordinate,
    scan_range: i32,
    min_dis: i32,
    max_dis: i32,
)
    requires
        img.wf(),
        old(coordinate).in_range(),
        0 <= scan_range <= PIXEL_LIMIT,
        -PIXEL_LIMIT <= min_dis,
        max_dis <= PIXEL_LIMIT,
    ensures
        final(coordinate).in_range(),
        *final(coordinate) == edges_refined(
            *img,
            *old(coordinate),
            false,
            scan_range as int,
            min_dis as int,
            max_dis as int,
        ),
{
    *coordinate = refine_edges(img, *coordinate, false, scan_range, min_dis, max_dis);
}

/// A marker after the edge search across rows, then across columns.
pub open spec fn coordinate_refined(
    ii: IntegralImage,
    c: Coordinate,
    scan_range: int,
    min_dis: int,
    max_dis: int,
) -> Coordinate {
    edges_refined(ii, edges_refined(ii, c, true, scan_range, min_dis, max_dis), false, scan_range, min_dis, max_dis)
}

/// Tightens the four edges of a marker.
pub fn fix_coordinate(
    img: &IntegralImage,
    coordinate: &mut Coordinate,
    scan_range: i32,
    min_dis: i32,
    max_dis: i32,
)
    requires
        img.wf(),
        old(coordinate).in_range(),
        0 <= scan_range <= PIXEL_LIMIT,
        -PIXEL_LIMIT <= min_dis,
        max_dis <= PIXEL_LIMIT,
    ensures
        final(coordinate).in_range(),
        *final(coordinate) == coordinate_refined(
            *img,
            *old(coordinate),
            scan_range as int,
            min_dis as int,
            max_dis as int,
        ),
{
    fix_boundary_top_down(img, coordinate, scan_range, min_dis, max_dis);
    fix_boundary_left_right(img, coordinate, scan_range, min_dis, max_dis);
}

/// Tightens the edges of each of the four fiducials.
pub fn fix_model_points_coordinate(
    img: &IntegralImage,
    coordinates: &mut [Coordinate; 4],
    scan_range: i32,
    min_dis: i32,
    max_dis: i32,
)
    requires
        img.wf(),
        forall|i: int| 0 <= i < 4 ==> (#[trigger] old(coordinates)@[i]).in_range(),
        0 <= scan_range <= PIXEL_LIMIT,
        -PIXEL_LIMIT <= min_dis,
        max_dis <= PIXEL_LIMIT,
    ensures
        forall|i: int|
            0 <= i < 4 ==> (#[trigger] final(coordinates)@[i]) == coordinate_refined(
                *img,
                old(coordinates)@[i],
                scan_range as int,
                min_dis as int,
                max_dis as int,
            ),
        forall|i: int| 0 <= i < 4 ==> (#[trigger] final(coordinates)@[i]).in_range(),
{
    let ghost before = coordinates@;
    let mut i: usize = 0;
    while i < 4
        invariant
            i <= 4,
            img.wf(),
            0 <= scan_range <= PIXEL_LIMIT,
            -PIXEL_LIMIT <= min_dis,
            max_dis <= PIXEL_LIMIT,
            forall|j: int| 0 <= j < 4 ==> (#[trigger] before[j]).in_range(),
            forall|j: int|
                0 <= j < i ==> (#[trigger] coordinates@[j]) == coordinate_refined(
                    *img,
                    before[j],
                    scan_range as int,
                    min_dis as int,
                    max_dis as int,
                ),
            forall|j: int| i <= j < 4 ==> (#[trigger] coordinates@[j]) == before[j],
            forall|j: int| 0 <= j < 4 ==> (#[trigger] coordinates@[j]).in_range(),
        decreases 4 - i,
    {
        let mut c = coordinates[i];
        assert(before[i as int].in_range());
        fix_coordinate(img, &mut c, scan_range, min_dis, max_dis);
        coordinates[i] = c;
        i = i + 1;
    }
}

/// Mean grey level, rounded down, of `c` moved by (`dx`, `dy`); none where the
/// moved rectangle leaves the raster or is empty.
pub open spec fn moved_mean(ii: IntegralImage, c: Coordinate, dx: int, dy: int) -> Option<int> {
    let m = Coordinate { x: (c.x + dx) as i32, y: (c.y + dy) as i32, ..c };
    if ii.inside(m) {
        Some(ii.box_sum(m.x as int, m.y as int, m.x + m.w - 1, m.y + m.h - 1) / (m.w * m.h))
    } else {
        None
    }
}

fn moved_mean_exec(ii: &IntegralImage, c: &Coordinate, dx: i32, dy: i32) -> (r: Option<i128>)
    requires
        ii.wf(),
        c.in_range(),
        -2 * PIXEL_LIMIT <= dx <= 2 * PIXEL_LIMIT,
        -2 * PIXEL_LIMIT <= dy <= 2 * PIXEL_LIMIT,
    ensures
        r.is_some() == moved_mean(*ii, *c, dx as int, dy as int).is_some(),
        r.is_some() ==> r.unwrap() == moved_mean(*ii, *c, dx as int, dy as int).unwrap(),
        r.is_some() ==> -0x8000_0000_0000_0000 * 4 <= r.unwrap() <= 0x8000_0000_0000_0000 * 4,
{
    let x = c.x as i64 + dx as i64;
    let y = c.y as i64 + dy as i64;
    if x < 0 || y < 0 || c.w < 1 || c.h < 1 || x + c.w as i64 > ii.width as i64 || y + c.h as i64
        > ii.height as i64 {
        return None;
    }
    let s = ii.sum_pixels(x as u32, y as u32, (x + c.w as i64 - 1) as u32, (y + c.h as i64 - 1) as u32);
    proof {
        assert(1 <= c.w * c.h <= 0x100_0000_0000) by (nonlinear_arith)
            requires
                1 <= c.w <= 0x10_0000,
                1 <= c.h <= 0x10_0000,
        ;
    }
    let area = (c.w as i128) * (c.h as i128);
    let m = floor_div_wide(s, area);
    proof {
        vstd::arithmetic::div_mod::lemma_fundamental_div_mod(s as int, area as int);
        let q = (s as int) / (area as int);
        assert(-0x8000_0000_0000_0000 * 4 <= q <= 0x8000_0000_0000_0000 * 4) by (nonlinear_arith)
            requires
                s == area * q + (s as int) % (area as int),
                0 <= (s as int) % (area as int) < area,
                area >= 1,
                -0x8000_0000_0000_0000 * 4 <= s <= 0x8000_0000_0000_0000 * 4,
        ;
    }
    Some(m)
}

/// The eight neighbouring directions and the centre, in search order.
pub open spec fn directions() -> Seq<(int, int)> {
    seq![(0, 0), (0, 1), (1, 1), (1, 0), (1, -1), (0, -1), (-1, -1), (-1, 0), (-1, 1)]
}

/// The least inked of the first `k` directions, stepping `step` pixels: the
/// first whose mean grey level is above all before it and above black (0).
/// The state is (mean, dx, dy).
pub open spec fn best_direction(ii: IntegralImage, c: Coordinate, step: int, k: int) -> (int, int, int)
    decreases k,
{
    if k <= 0 {
        (0, 0, 0)
    } else {
        let p = best_direction(ii, c, step, k - 1);
        let d = directions()[k - 1];
        match moved_mean(ii, c, d.0 * step, d.1 * step) {
            Some(m) => if m > p.0 {
                (m, d.0, d.1)
            } else {
                p
            },
            None => p,
        }
    }
}

/// Moves a marker by `nearby_length` pixels toward the least inked of the
/// eight neighbouring positions, or leaves it where it is.
pub fn fix_coordinate_by_search_nearby(img: &IntegralImage, coordinate: &mut Coordinate, nearby_length: i32)
    requires
        img.wf(),
        old(coordinate).in_range(),
        0 <= nearby_length <= PIXEL_LIMIT,
    ensures
        final(coordinate).in_range(),
        ({
            let b = best_direction(*img, *old(coordinate), nearby_length as int, 9);
            *final(coordinate) == Coordinate {
                x: (old(coordinate).x + b.1 * nearby_length) as i32,
                y: (old(coordinate).y + b.2 * nearby_length) as i32,
                ..*old(coordinate)
            }
        }),
{
    let dirs: [(i32, i32); 9] = [(0, 0), (0, 1), (1, 1), (1, 0), (1, -1), (0, -1), (-1, -1), (-1, 0), (-1, 1)];
    assert(forall|k: int| 0 <= k < 9 ==> (dirs@[k].0 as int, dirs@[k].1 as int) == #[trigger] directions()[k]);
    let c = *coordinate;
    let mut best: i128 = 0;
    let mut bx: i32 = 0;
    let mut by: i32 = 0;
    let mut k: usize = 0;
    while k < 9
        invariant
            k <= 9,
            img.wf(),
            c.in_range(),
            0 <= nearby_length <= PIXEL_LIMIT,
            forall|j: int| 0 <= j < 9 ==> (dirs@[j].0 as int, dirs@[j].1 as int) == #[trigger] directions()[j],
            (best as int, bx as int, by as int) == best_direction(*img, c, nearby_length as int, k as int),
            -1 <= bx <= 1,
            -1 <= by <= 1,
            (bx != 0 || by != 0) ==> moved_mean(*img, c, bx * nearby_length, by * nearby_length).is_some(),
        decreases 9 - k,
    {
        let (dx, dy) = dirs[k];
        assert((dx as int, dy as int) == directions()[k as int]);
        assert(-1 <= dx <= 1 && -1 <= dy <= 1);
        assert(-PIXEL_LIMIT <= dx * nearby_length <= PIXEL_LIMIT) by (nonlinear_arith)
            requires
                -1 <= dx <= 1,
                0 <= nearby_length <= PIXEL_LIMIT,
        ;
        assert(-PIXEL_LIMIT <= dy * nearby_length <= PIXEL_LIMIT) by (nonlinear_arith)
            requires
                -1 <= dy <= 1,
                0 <= nearby_length <= PIXEL_LIMIT,
        ;
        match moved_mean_exec(img, &c, dx * nearby_length, dy * nearby_length) {
            Some(m) => {
                if m > best {
                    best = m;
                    bx = dx;
                    by = dy;
                }
            },
            None => {},
        }
        k = k + 1;
    }
    assert(-PIXEL_LIMIT <= bx * nearby_length <= PIXEL_LIMIT) by (nonlinear_arith)
        requires
            -1 <= bx <= 1,
            0 <= nearby_length <= PIXEL_LIMIT,
    ;
    assert(-PIXEL_LIMIT <= by * nearby_length <= PIXEL_LIMIT) by (nonlinear_arith)
        requires
            -1 <= by <= 1,
            0 <= nearby_length <= PIXEL_LIMIT,
    ;
    coordinate.x = c.x + bx * nearby_length;
    coordinate.y = c.y + by * nearby_length;
    proof {
        if bx != 0 || by != 0 {
            assert(moved_mean(*img, c, bx * nearby_length, by * nearby_length).is_some());
        }
    }
}

/// Sum of the mean grey levels of the first `k` markers moved by (`dx`,
/// `dy`); none where one of them leaves the raster.
pub open spec fn group_sum(ii: IntegralImage, cs: Seq<Coordinate>, dx: int, dy: int, k: int) -> Option<int>
    decreases k,
{
    if k <= 0 {
        Some(0)
    } else {
        match (group_sum(ii, cs, dx, dy, k - 1), moved_mean(ii, cs[k - 1], dx, dy)) {
            (Some(a), Some(m)) => Some(a + m),
            _ => None,
        }
    }
}

/// The offset tried `q`-th: offsets run over `[-len, len)` in both axes,
/// row by row.
pub open spec fn grid_offset(len: int, q: int) -> (int, int) {
    (-len + q / (2 * len), -len + q % (2 * len))
}

/// The least inked of the first `k` offsets whose both components are
/// multiples of `step`, for the whole group: the first whose mean of the
/// markers' mean grey levels is above all before it and above black. The
/// state is (mean, dx, dy).
pub open spec fn group_best(ii: IntegralImage, cs: Seq<Coordinate>, len: int, step: int, k: int) -> (
    int,
    int,
    int,
)
    decreases k,
{
    if k <= 0 {
        (0, 0, 0)
    } else {
        let p = group_best(ii, cs, len, step, k - 1);
        let o = grid_offset(len, k - 1);
        if crate::validate::abs(o.0) % step != 0 || crate::validate::abs(o.1) % step != 0 {
            p
        } else {
            match group_sum(ii, cs, o.0, o.1, cs.len() as int) {
                Some(total) => if total / (cs.len() as int) > p.0 {
                    (total / (cs.len() as int), o.0, o.1)
                } else {
                    p
                },
                None => p,
            }
        }
    }
}

pub open spec fn moved_all(cs: Seq<Coordinate>, dx: int, dy: int) -> Seq<Coordinate> {
    Seq::new(cs.len(), |i: int| Coordinate { x: (cs[i].x + dx) as i32, y: (cs[i].y + dy) as i32, ..cs[i] })
}

/// The group after one joint search: moved together to the best offset (see
/// `group_best`), or unchanged when there is none or the group is empty.
pub open spec fn group_searched(ii: IntegralImage, cs: Seq<Coordinate>, len: int, step: int) -> Seq<
    Coordinate,
> {
    if cs.len() == 0 {
        cs
    } else {
        let b = group_best(ii, cs, len, step, (2 * len) * (2 * len));
        moved_all(cs, b.1, b.2)
    }
}

pub open spec fn all_in_range(cs: Seq<Coordinate>) -> bool {
    forall|i: int| 0 <= i < cs.len() ==> (#[trigger] cs[i]).in_range()
}

proof fn lemma_group_sum_inside(ii: IntegralImage, cs: Seq<Coordinate>, dx: int, dy: int, k: int, i: int)
    requires
        0 <= i < k <= cs.len(),
        group_sum(ii, cs, dx, dy, k).is_some(),
    ensures
        moved_mean(ii, cs[i], dx, dy).is_some(),
    decreases k,
{
    if i < k - 1 {
        lemma_group_sum_inside(ii, cs, dx, dy, k - 1, i);
    }
}

/// Moves a group of markers together to the least inked position nearby
/// (see `group_searched`).
pub fn fix_coordinates_by_search_nearby(
    img: &IntegralImage,
    coordinates: &mut Vec<Coordinate>,
    nearby_length: i32,
    step: i32,
)
    requires
        img.wf(),
        all_in_range(old(coordinates)@),
        old(coordinates)@.len() <= 0x1_0000,
        1 <= nearby_length <= PIXEL_LIMIT,
        step >= 1,
    ensures
        final(coordinates)@ == group_searched(*img, old(coordinates)@, nearby_length as int, step as int),
        final(coordinates)@.len() == old(coordinates)@.len(),
        all_in_range(final(coordinates)@),
{
    let n = coordinates.len();
    if n == 0 {
        return;
    }
    let ghost cs = coordinates@;
    let side: i64 = 2 * nearby_length as i64;
    assert(side * side <= 0x400_0000_0000) by (nonlinear_arith)
        requires
            1 <= side <= 2 * PIXEL_LIMIT,
    ;
    let total_q: i64 = side * side;
    let mut best: i128 = 0;
    let mut bi: i64 = 0;
    let mut bj: i64 = 0;
    let mut q: i64 = 0;
    while q < total_q
        invariant
            img.wf(),
            cs == coordinates@,
            all_in_range(cs),
            1 <= n == cs.len() <= 0x1_0000,
            1 <= nearby_length <= PIXEL_LIMIT,
            step >= 1,
            side == 2 * nearby_length,
            total_q == side * side,
            0 <= q <= total_q,
            (best as int, bi as int, bj as int) == group_best(*img, cs, nearby_length as int, step as int, q as int),
            -nearby_length <= bi <= nearby_length,
            -nearby_length <= bj <= nearby_length,
            (bi != 0 || bj != 0) ==> forall|k: int| 0 <= k < cs.len() ==> moved_mean(*img, #[trigger] cs[k], bi as int, bj as int).is_some(),
        decreases total_q - q,
    {
        let i = -(nearby_length as i64) + q / side;
        let j = -(nearby_length as i64) + q % side;
        proof {
            vstd::arithmetic::div_mod::lemma_fundamental_div_mod(q as int, side as int);
            assert(q / side < side) by (nonlinear_arith)
                requires
                    0 <= q < side * side,
                    side >= 1,
                    q == side * (q / side) + q % side,
                    0 <= q % side < side,
            ;
            assert(q / side >= 0) by (nonlinear_arith)
                requires
                    0 <= q,
                    side >= 1,
                    q == side * (q / side) + q % side,
                    0 <= q % side < side,
            ;
        }
        let ai: i64 = if i < 0 {
            -i
        } else {
            i
        };
        let aj: i64 = if j < 0 {
            -j
        } else {
            j
        };
        assert(grid_offset(nearby_length as int, q as int) == (i as int, j as int));
        if ai % (step as i64) == 0 && aj % (step as i64) == 0 {
            let mut total: i128 = 0;
            let mut ok = true;
            let mut k: usize = 0;
            while k < n && ok
                invariant
                    img.wf(),
                    cs == coordinates@,
                    all_in_range(cs),
                    n == cs.len(),
                    n <= 0x1_0000,
                    k <= n,
                    -nearby_length <= i <= nearby_length,
                    -nearby_length <= j <= nearby_length,
                    nearby_length <= PIXEL_LIMIT,
                    ok ==> group_sum(*img, cs, i as int, j as int, k as int) == Some(total as int),
                    !ok ==> group_sum(*img, cs, i as int, j as int, n as int).is_none(),
                    ok ==> -36893488147419103232 * (k as int) <= total <= 36893488147419103232 * (k as int),
                decreases n - k + (if ok {
                    1int
                } else {
                    0int
                }),
            {
                assert(cs[k as int].in_range());
                match moved_mean_exec(img, &coordinates[k], i as i32, j as i32) {
                    Some(m) => {
                        proof {
                            assert(group_sum(*img, cs, i as int, j as int, k as int + 1) == Some(total as int + m as int));
                        }
                        total = total + m;
                        k = k + 1;
                    },
                    None => {
                        proof {
                            lemma_group_sum_none(*img, cs, i as int, j as int, k as int + 1, n as int);
                        }
                        ok = false;
                    },
                }
            }
            if ok {
                let mean = floor_div_wide(total, n as i128);
                if mean > best {
                    proof {
                        assert forall|k: int| 0 <= k < cs.len() implies moved_mean(*img, #[trigger] cs[k], i as int, j as int).is_some() by {
                            lemma_group_sum_inside(*img, cs, i as int, j as int, n as int, k);
                        }
                    }
                    best = mean;
                    bi = i;
                    bj = j;
                }
            }
        }
        q = q + 1;
    }
    let ghost moved = moved_all(cs, bi as int, bj as int);
    let mut k: usize = 0;
    while k < n
        invariant
            img.wf(),
            n == cs.len(),
            all_in_range(cs),
            k <= n,
            coordinates@.len() == n,
            -nearby_length <= bi <= nearby_length,
            -nearby_length <= bj <= nearby_length,
            nearby_length <= PIXEL_LIMIT,
            (bi != 0 || bj != 0) ==> forall|t: int| 0 <= t < cs.len() ==> moved_mean(*img, #[trigger] cs[t], bi as int, bj as int).is_some(),
            moved == moved_all(cs, bi as int, bj as int),
            forall|t: int| 0 <= t < k ==> coordinates@[t] == #[trigger] moved[t],
            forall|t: int| k <= t < n ==> coordinates@[t] == #[trigger] cs[t],
            forall|t: int| 0 <= t < n ==> (#[trigger] coordinates@[t]).in_range(),
        decreases n - k,
    {
        let c = coordinates[k];
        assert(cs[k as int].in_range());
        let moved_c = Coordinate { x: (c.x as i64 + bi) as i32, y: (c.y as i64 + bj) as i32, ..c };
        proof {
            if bi != 0 || bj != 0 {
                assert(moved_mean(*img, cs[k as int], bi as int, bj as int).is_some());
            }
        }
        coordinates.set(k, moved_c);
        k = k + 1;
    }
    assert(coordinates@ =~= group_searched(*img, cs, nearby_length as int, step as int));
}

proof fn lemma_group_sum_none(ii: IntegralImage, cs: Seq<Coordinate>, dx: int, dy: int, k: int, n: int)
    requires
        1 <= k <= n <= cs.len(),
        group_sum(ii, cs, dx, dy, k).is_none(),
    ensures
        group_sum(ii, cs, dx, dy, n).is_none(),
    decreases n - k,
{
    if k < n {
        lemma_group_sum_none(ii, cs, dx, dy, k, n - 1);
    }
}

/// The group after `n` joint searches.
pub open spec fn group_searched_times(ii: IntegralImage, cs: Seq<Coordinate>, len: int, step: int, n: int) -> Seq<
    Coordinate,
>
    decreases n,
{
    if n <= 0 {
        cs
    } else {
        group_searched(ii, group_searched_times(ii, cs, len, step, n - 1), len, step)
    }
}

/// Repeats the joint search `retry` times.
pub fn fix_coordinates_by_search_nearby_retry(
    img: &IntegralImage,
    coordinates: &mut Vec<Coordinate>,
    nearby_length: i32,
    step: i32,
    retry: u8,
)
    requires
        img.wf(),
        all_in_range(old(coordinates)@),
        old(coordinates)@.len() <= 0x1_0000,
        1 <= nearby_length <= PIXEL_LIMIT,
        step >= 1,
    ensures
        final(coordinates)@ == group_searched_times(
            *img,
            old(coordinates)@,
            nearby_length as int,
            step as int,
            retry as int,
        ),
        final(coordinates)@.len() == old(coordinates)@.len(),
        all_in_range(final(coordinates)@),
{
    let ghost start = coordinates@;
    let mut t: u8 = 0;
    while t < retry
        invariant
            img.wf(),
            t <= retry,
            all_in_range(coordinates@),
            coordinates@.len() == start.len(),
            start.len() <= 0x1_0000,
            1 <= nearby_length <= PIXEL_LIMIT,
            step >= 1,
            coordinates@ == group_searched_times(*img, start, nearby_length as int, step as int, t as int),
        decreases retry - t,
    {
        fix_coordinates_by_search_nearby(img, coordinates, nearby_length, step);
        t = t + 1;
    }
}

/// A marker moved toward the least inked neighbouring position (see
/// `best_direction`).
pub open spec fn nearby_moved(ii: IntegralImage, c: Coordinate, len: int) -> Coordinate {
    let b = best_direction(ii, c, len, 9);
    Coordinate { x: (c.x + b.1 * len) as i32, y: (c.y + b.2 * len) as i32, ..c }
}

/// An assist marker after its own refinement, done twice: a nearby move,
/// then the edge search.
pub open spec fn marker_refined(ii: IntegralImage, c: Coordinate, cfg: ImageBaizheng) -> Coordinate {
    let r = cfg.assist_point_scan_range as int;
    let lo = cfg.assist_point_min_distance as int;
    let hi = cfg.assist_point_max_distance as int;
    let n = cfg.assist_point_nearby_length as int;
    let a = coordinate_refined(ii, nearby_moved(ii, c, n), r, lo, hi);
    coordinate_refined(ii, nearby_moved(ii, a, n), r, lo, hi)
}

impl ImageBaizheng {
    /// The bounds the refinement steps need.
    pub open spec fn refine_ok(self) -> bool {
        &&& 0 <= self.assist_point_scan_range <= PIXEL_LIMIT
        &&& -PIXEL_LIMIT <= self.assist_point_min_distance
        &&& self.assist_point_max_distance <= PIXEL_LIMIT
        &&& 0 <= self.assist_point_nearby_length <= PIXEL_LIMIT
        &&& 1 <= self.area_assist_point_nearby_length <= PIXEL_LIMIT
        &&& 1 <= self.area_assist_point_nearby_step
        &&& 0 <= self.model_point_scan_range <= PIXEL_LIMIT
        &&& -PIXEL_LIMIT <= self.model_point_min_distance
        &&& self.model_point_max_distance <= PIXEL_LIMIT
    }
}

/// Refines one assist marker (see `marker_refined`).
pub fn refine_assist_marker(img: &IntegralImage, c: &mut Coordinate, cfg: &ImageBaizheng)
    requires
        img.wf(),
        old(c).in_range(),
        cfg.refine_ok(),
    ensures
        *final(c) == marker_refined(*img, *old(c), *cfg),
        final(c).in_range(),
{
    fix_coordinate_by_search_nearby(img, c, cfg.assist_point_nearby_length);
    fix_coordinate(img, c, cfg.assist_point_scan_range, cfg.assist_point_min_distance, cfg.assist_point_max_distance);
    fix_coordinate_by_search_nearby(img, c, cfg.assist_point_nearby_length);
    fix_coordinate(img, c, cfg.assist_point_scan_range, cfg.assist_point_min_distance, cfg.assist_point_max_distance);
}

} // verus!
