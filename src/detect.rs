//! Fiducial detection: the extremes of each contour of the morphological
//! raster, the geometric filters, and the choice of the four corners.
use vstd::prelude::*;
use crate::config::{ImageBaizheng, ProcessedImagesArgs};
use crate::geometry::{Coordinate, MyPoint, PIXEL_LIMIT, div_trunc, trunc_div};
use crate::numeric::{floor_sqrt, isqrt};
use crate::raster::{GrayRaster, generate_mophology_from_blur, morphology_of};
use crate::validate::{
    LocationInfo,
    completed_corner,
    coordinates4_is_valid,
    cos_scaled,
    cosine_similarity,
    fiducials_valid,
    find_3_valid_coordinates,
    predict_model_points_with_3_coordinate,
    repair_triple,
    sorted_corners,
};

verus! {

/// The borders of the foreground regions of a raster (pixels above zero),
/// each as its sequence of points.
pub uninterp spec fn contours_of(px: Seq<u8>, w: int, h: int) -> Seq<Seq<(i32, i32)>>;

/// Relies on imageproc::contours::find_contours: the borders of the
/// raster's foreground regions, each as the sequence of its points.
#[verifier::external_body]
fn find_contours(r: &GrayRaster) -> (c: Vec<Vec<(i32, i32)>>)
    requires
        r.wf(),
    ensures
        c@.len() == contours_of(r.pixels@, r.width as int, r.height as int).len(),
        forall|i: int|
            0 <= i < c@.len() ==> (#[trigger] c@[i])@ == contours_of(
                r.pixels@,
                r.width as int,
                r.height as int,
            )[i],
{
    let img = image::GrayImage::from_raw(r.width, r.height, r.pixels.clone()).unwrap();
    let contours: Vec<imageproc::contours::Contour<i32>> = imageproc::contours::find_contours(&img);
    contours.into_iter().map(|c| c.points.into_iter().map(|p| (p.x, p.y)).collect()).collect()
}

/// The extremes of the first `k` points (`k` at least one): the first of
/// least x + y (top-left), the first of largest x - y (top-right) and the
/// first of least x - y (bottom-left).
pub open spec fn extremes_scan(pts: Seq<(i32, i32)>, k: int) -> (MyPoint, MyPoint, MyPoint)
    decreases k,
{
    let q = MyPoint { x: pts[k - 1].0, y: pts[k - 1].1 };
    if k <= 1 {
        (q, q, q)
    } else {
        let p = extremes_scan(pts, k - 1);
        (
            if q.x + q.y < p.0.x + p.0.y { q } else { p.0 },
            if q.x - q.y > p.1.x - p.1.y { q } else { p.1 },
            if q.x - q.y < p.2.x - p.2.y { q } else { p.2 },
        )
    }
}

pub open spec fn points_in_range(pts: Seq<(i32, i32)>) -> bool {
    forall|i: int|
        0 <= i < pts.len() ==> -PIXEL_LIMIT <= (#[trigger] pts[i]).0 <= PIXEL_LIMIT && -PIXEL_LIMIT
            <= pts[i].1 <= PIXEL_LIMIT
}

/// The top-left, top-right and bottom-left extremes of a set of points (see
/// `extremes_scan`); none for an empty set.
pub fn calculate_points_lt_rt_ld(points: &Vec<(i32, i32)>) -> (r: Option<[MyPoint; 3]>)
    requires
        points_in_range(points@),
    ensures
        r.is_none() == (points@.len() == 0),
        r.is_some() ==> ({
            let s = extremes_scan(points@, points@.len() as int);
            r.unwrap()@ == seq![s.0, s.1, s.2]
        }),
        r.is_some() ==> ({
            let e = r.unwrap();
            &&& exists|i: int| 0 <= i < points@.len() && points@[i] == (e[0].x, e[0].y)
            &&& forall|i: int| 0 <= i < points@.len() ==> e[0].x + e[0].y <= #[trigger] points@[i].0 + points@[i].1
        }),
{
    if points.len() == 0 {
        return None;
    }
    let (x0, y0) = points[0];
    let mut lt = MyPoint { x: x0, y: y0 };
    let mut rt = lt;
    let mut ld = lt;
    let mut i: usize = 1;
    while i < points.len()
        invariant
            1 <= i <= points@.len(),
            points_in_range(points@),
            (lt, rt, ld) == extremes_scan(points@, i as int),
            -PIXEL_LIMIT <= lt.x <= PIXEL_LIMIT && -PIXEL_LIMIT <= lt.y <= PIXEL_LIMIT,
            -PIXEL_LIMIT <= rt.x <= PIXEL_LIMIT && -PIXEL_LIMIT <= rt.y <= PIXEL_LIMIT,
            -PIXEL_LIMIT <= ld.x <= PIXEL_LIMIT && -PIXEL_LIMIT <= ld.y <= PIXEL_LIMIT,
        decreases points@.len() - i,
    {
        let (x, y) = points[i];
        assert(-PIXEL_LIMIT <= points@[i as int].0 <= PIXEL_LIMIT);
        let q = MyPoint { x, y };
        if x + y < lt.x + lt.y {
            lt = q;
        }
        if x - y > rt.x - rt.y {
            rt = q;
        }
        if x - y < ld.x - ld.y {
            ld = q;
        }
        i = i + 1;
    }
    let r = [lt, rt, ld];
    assert(r@ =~= seq![lt, rt, ld]);
    proof {
        lemma_top_left_extreme(points@, points@.len() as int);
    }
    Some(r)
}

/// Distance between two points, rounded down.
pub open spec fn distance(a: MyPoint, b: MyPoint) -> int {
    floor_sqrt((b.x - a.x) * (b.x - a.x) + (b.y - a.y) * (b.y - a.y))
}

fn distance_exec(a: MyPoint, b: MyPoint) -> (r: i32)
    requires
        -PIXEL_LIMIT <= a.x <= PIXEL_LIMIT,
        -PIXEL_LIMIT <= a.y <= PIXEL_LIMIT,
        -PIXEL_LIMIT <= b.x <= PIXEL_LIMIT,
        -PIXEL_LIMIT <= b.y <= PIXEL_LIMIT,
    ensures
        r == distance(a, b),
        0 <= r <= 4 * PIXEL_LIMIT,
{
    let dx = b.x as i64 - a.x as i64;
    let dy = b.y as i64 - a.y as i64;
    assert(0 <= dx * dx <= 0x100_0000_0000 * 4) by (nonlinear_arith)
        requires
            -0x20_0000 <= dx <= 0x20_0000,
    ;
    assert(0 <= dy * dy <= 0x100_0000_0000 * 4) by (nonlinear_arith)
        requires
            -0x20_0000 <= dy <= 0x20_0000,
    ;
    let n = (dx * dx + dy * dy) as u128;
    let r = isqrt(n);
    if r > 0x40_0000 {
        assert(r * r > 0x100_0000_0000 * 8) by (nonlinear_arith)
            requires
                r > 0x40_0000,
        ;
    }
    r as i32
}

/// A contour's candidate marker: its top-left extreme with the distances to
/// the top-right and bottom-left extremes as width and height, if it passes
/// the size, corner-band and shape filters (a marker wider or taller than
/// the pixel range is none).
pub open spec fn candidate(
    pts: Seq<(i32, i32)>,
    width: int,
    height: int,
    info: LocationInfo,
    cfg: ImageBaizheng,
) -> Option<Coordinate> {
    if pts.len() == 0 || !points_in_range(pts) {
        None
    } else {
        let s = extremes_scan(pts, pts.len() as int);
        let w = distance(s.0, s.1);
        let h = distance(s.0, s.2);
        let x = s.0.x as int;
        let y = s.0.y as int;
        if w > PIXEL_LIMIT || h > PIXEL_LIMIT {
            None
        } else if w < cfg.model_point_min_wh || h < cfg.model_point_min_wh {
            None
        } else if w > cfg.model_point_max_wh || h > cfg.model_point_max_wh {
            None
        } else if width / 4 < x && x < width * 3 / 4 {
            None
        } else if height / 4 < y && y < height * 3 / 4 {
            None
        } else if cfg.model_point_wh_cosine_similarity > cos_scaled(w, h, info.wh.0 as int, info.wh.1 as int) {
            None
        } else {
            Some(Coordinate { x: x as i32, y: y as i32, w: w as i32, h: h as i32 })
        }
    }
}

/// Whether candidate `c` takes the top-left corner from `cur`: normally the
/// least x + y; in seal mode the topmost candidate left of a fifth of the
/// width.
pub open spec fn takes_top_left(c: Coordinate, cur: Option<Coordinate>, seal: bool, width: int) -> bool {
    match cur {
        None => !seal || c.x < width / 5,
        Some(l) => if seal {
            c.y < l.y && c.x < width / 5
        } else {
            c.x + c.y < l.x + l.y
        },
    }
}

/// Whether `c` takes the top-right corner: the largest x - y.
pub open spec fn takes_top_right(c: Coordinate, cur: Option<Coordinate>) -> bool {
    match cur {
        None => true,
        Some(r) => c.x - c.y > r.x - r.y,
    }
}

/// Whether `c` takes the bottom-left corner: the least x - y.
pub open spec fn takes_bottom_left(c: Coordinate, cur: Option<Coordinate>) -> bool {
    match cur {
        None => true,
        Some(l) => c.x - c.y < l.x - l.y,
    }
}

/// Whether `c` takes the bottom-right corner: normally the largest x + y;
/// in seal mode the lowest candidate right of four fifths of the width.
pub open spec fn takes_bottom_right(c: Coordinate, cur: Option<Coordinate>, seal: bool, width: int) -> bool {
    match cur {
        None => !seal || c.x > width * 4 / 5,
        Some(r) => if seal {
            c.y > r.y && c.x > width * 4 / 5
        } else {
            c.x + c.y > r.x + r.y
        },
    }
}

pub open spec fn pick(take: bool, c: Coordinate, cur: Option<Coordinate>) -> Option<Coordinate> {
    if take {
        Some(c)
    } else {
        cur
    }
}

/// The corners (top-left, top-right, bottom-left, bottom-right) chosen
/// among the candidates of the first `k` contours, each the first candidate
/// that is extreme for its corner; none for a corner no candidate qualifies
/// for.
pub open spec fn corners_scan(
    contours: Seq<Seq<(i32, i32)>>,
    width: int,
    height: int,
    info: LocationInfo,
    cfg: ImageBaizheng,
    k: int,
) -> Seq<Option<Coordinate>>
    decreases k,
{
    if k <= 0 {
        seq![None, None, None, None]
    } else {
        let p = corners_scan(contours, width, height, info, cfg, k - 1);
        match candidate(contours[k - 1], width, height, info, cfg) {
            None => p,
            Some(c) => seq![
                pick(takes_top_left(c, p[0], info.is_in_seal, width), c, p[0]),
                pick(takes_top_right(c, p[1]), c, p[1]),
                pick(takes_bottom_left(c, p[2]), c, p[2]),
                pick(takes_bottom_right(c, p[3], info.is_in_seal, width), c, p[3]),
            ],
        }
    }
}

/// The four corners, when every corner has a candidate.
pub open spec fn corners_found(s: Seq<Option<Coordinate>>) -> Option<Seq<Coordinate>> {
    if s[0].is_some() && s[1].is_some() && s[2].is_some() && s[3].is_some() {
        Some(seq![s[0].unwrap(), s[1].unwrap(), s[2].unwrap(), s[3].unwrap()])
    } else {
        None
    }
}

pub open spec fn has_candidate(
    contours: Seq<Seq<(i32, i32)>>,
    width: int,
    height: int,
    info: LocationInfo,
    cfg: ImageBaizheng,
    k: int,
) -> bool {
    exists|j: int| 0 <= j < k && (#[trigger] candidate(contours[j], width, height, info, cfg)).is_some()
}

/// Corner `q` is the candidate of some contour among the first `k`.
pub open spec fn corner_from_candidate(
    contours: Seq<Seq<(i32, i32)>>,
    width: int,
    height: int,
    info: LocationInfo,
    cfg: ImageBaizheng,
    k: int,
    q: int,
) -> bool {
    let s = corners_scan(contours, width, height, info, cfg, k);
    s[q].is_some() ==> exists|j: int| 0 <= j < k && candidate(contours[j], width, height, info, cfg) == s[q]
}

/// The corners are at least as extreme as candidate `c`.
pub open spec fn corners_extreme_for(s: Seq<Option<Coordinate>>, c: Coordinate) -> bool {
    &&& s[0].unwrap().x + s[0].unwrap().y <= c.x + c.y
    &&& s[1].unwrap().x - s[1].unwrap().y >= c.x - c.y
    &&& s[2].unwrap().x - s[2].unwrap().y <= c.x - c.y
    &&& s[3].unwrap().x + s[3].unwrap().y >= c.x + c.y
}

/// Outside seal mode, once a candidate is found every corner is a
/// candidate, each with the extreme key among all candidates: least x + y,
/// largest x - y, least x - y, largest x + y.
pub proof fn lemma_corners_are_extreme_candidates(
    contours: Seq<Seq<(i32, i32)>>,
    width: int,
    height: int,
    info: LocationInfo,
    cfg: ImageBaizheng,
    k: int,
)
    requires
        0 <= k <= contours.len(),
        !info.is_in_seal,
    ensures
        has_candidate(contours, width, height, info, cfg, k) ==> corners_found(
            corners_scan(contours, width, height, info, cfg, k),
        ).is_some(),
        corner_from_candidate(contours, width, height, info, cfg, k, 0),
        corner_from_candidate(contours, width, height, info, cfg, k, 1),
        corner_from_candidate(contours, width, height, info, cfg, k, 2),
        corner_from_candidate(contours, width, height, info, cfg, k, 3),
        forall|j: int|
            0 <= j < k && (#[trigger] candidate(contours[j], width, height, info, cfg)).is_some()
                ==> corners_extreme_for(
                corners_scan(contours, width, height, info, cfg, k),
                candidate(contours[j], width, height, info, cfg).unwrap(),
            ),
    decreases k,
{
    if k > 0 {
        lemma_corners_are_extreme_candidates(contours, width, height, info, cfg, k - 1);
        let p = corners_scan(contours, width, height, info, cfg, k - 1);
        let s = corners_scan(contours, width, height, info, cfg, k);
        let cand = candidate(contours[k - 1], width, height, info, cfg);
        if cand.is_some() {
            let c = cand.unwrap();
            assert forall|q: int| 0 <= q < 4 implies corner_from_candidate(contours, width, height, info, cfg, k, q) by {
                if s[q] == p[q] && p[q].is_some() {
                    assert(corner_from_candidate(contours, width, height, info, cfg, k - 1, q));
                    let j = choose|j: int| 0 <= j < k - 1 && candidate(contours[j], width, height, info, cfg) == p[q];
                    assert(0 <= j < k && candidate(contours[j], width, height, info, cfg) == s[q]);
                } else {
                    assert(candidate(contours[k - 1], width, height, info, cfg) == s[q]);
                }
            }
            assert(corner_from_candidate(contours, width, height, info, cfg, k, 0));
            assert(corner_from_candidate(contours, width, height, info, cfg, k, 1));
            assert(corner_from_candidate(contours, width, height, info, cfg, k, 2));
            assert(corner_from_candidate(contours, width, height, info, cfg, k, 3));
            assert forall|j: int|
                0 <= j < k && (#[trigger] candidate(contours[j], width, height, info, cfg)).is_some() implies corners_extreme_for(
                s,
                candidate(contours[j], width, height, info, cfg).unwrap(),
            ) by {
                if j < k - 1 {
                    assert(corners_extreme_for(p, candidate(contours[j], width, height, info, cfg).unwrap()));
                }
            }
            assert(has_candidate(contours, width, height, info, cfg, k) ==> corners_found(s).is_some());
        } else {
            assert(s == p);
            if has_candidate(contours, width, height, info, cfg, k) {
                let j = choose|j: int| 0 <= j < k && (#[trigger] candidate(contours[j], width, height, info, cfg)).is_some();
                assert(j < k - 1);
                assert(has_candidate(contours, width, height, info, cfg, k - 1));
            }
            assert forall|q: int| 0 <= q < 4 implies corner_from_candidate(contours, width, height, info, cfg, k, q) by {
                assert(corner_from_candidate(contours, width, height, info, cfg, k - 1, q));
                if s[q].is_some() {
                    let j = choose|j: int| 0 <= j < k - 1 && candidate(contours[j], width, height, info, cfg) == p[q];
                    assert(0 <= j < k && candidate(contours[j], width, height, info, cfg) == s[q]);
                }
            }
            assert(corner_from_candidate(contours, width, height, info, cfg, k, 0));
            assert(corner_from_candidate(contours, width, height, info, cfg, k, 1));
            assert(corner_from_candidate(contours, width, height, info, cfg, k, 2));
            assert(corner_from_candidate(contours, width, height, info, cfg, k, 3));
        }
    }
}

fn check_points(pts: &Vec<(i32, i32)>) -> (r: bool)
    ensures
        r == points_in_range(pts@),
{
    let mut i: usize = 0;
    while i < pts.len()
        invariant
            i <= pts@.len(),
            forall|k: int|
                0 <= k < i ==> -PIXEL_LIMIT <= (#[trigger] pts@[k]).0 <= PIXEL_LIMIT && -PIXEL_LIMIT
                    <= pts@[k].1 <= PIXEL_LIMIT,
        decreases pts@.len() - i,
    {
        let (x, y) = pts[i];
        if !(-PIXEL_LIMIT <= x && x <= PIXEL_LIMIT && -PIXEL_LIMIT <= y && y <= PIXEL_LIMIT) {
            return false;
        }
        i = i + 1;
    }
    true
}

fn candidate_exec(
    pts: &Vec<(i32, i32)>,
    width: u32,
    height: u32,
    info: &LocationInfo,
    cfg: &ImageBaizheng,
) -> (r: Option<Coordinate>)
    requires
        width <= PIXEL_LIMIT,
        height <= PIXEL_LIMIT,
        info.in_range(),
    ensures
        r == candidate(pts@, width as int, height as int, *info, *cfg),
        r.is_some() ==> r.unwrap().in_range(),
{
    if pts.len() == 0 || !check_points(pts) {
        return None;
    }
    let ex = calculate_points_lt_rt_ld(pts);
    let e = match ex {
        Some(e) => e,
        None => {
            return None;
        },
    };
    let lt = e[0];
    let rt = e[1];
    let ld = e[2];
    proof {
        lemma_extremes_in(pts@, pts@.len() as int);
    }
    let w = distance_exec(lt, rt);
    let h = distance_exec(lt, ld);
    if w > PIXEL_LIMIT || h > PIXEL_LIMIT {
        return None;
    }
    if w < cfg.model_point_min_wh || h < cfg.model_point_min_wh {
        return None;
    }
    if w > cfg.model_point_max_wh || h > cfg.model_point_max_wh {
        return None;
    }
    let x = lt.x as i64;
    let y = lt.y as i64;
    let wd = width as i64;
    let ht = height as i64;
    if wd / 4 < x && x < wd * 3 / 4 {
        return None;
    }
    if ht / 4 < y && y < ht * 3 / 4 {
        return None;
    }
    let cos = cosine_similarity(w as i64, h as i64, info.wh.0 as i64, info.wh.1 as i64);
    if cfg.model_point_wh_cosine_similarity > cos {
        return None;
    }
    Some(Coordinate { x: lt.x, y: lt.y, w, h })
}

pub open spec fn point_in_range(p: MyPoint) -> bool {
    -PIXEL_LIMIT <= p.x <= PIXEL_LIMIT && -PIXEL_LIMIT <= p.y <= PIXEL_LIMIT
}

proof fn lemma_extremes_in(pts: Seq<(i32, i32)>, k: int)
    requires
        1 <= k <= pts.len(),
        points_in_range(pts),
    ensures
        point_in_range(extremes_scan(pts, k).0),
        point_in_range(extremes_scan(pts, k).1),
        point_in_range(extremes_scan(pts, k).2),
    decreases k,
{
    assert(-PIXEL_LIMIT <= pts[k - 1].0 <= PIXEL_LIMIT);
    if k > 1 {
        lemma_extremes_in(pts, k - 1);
    }
}

/// The top-left extreme is one of the points, of least x + y.
proof fn lemma_top_left_extreme(pts: Seq<(i32, i32)>, k: int)
    requires
        1 <= k <= pts.len(),
    ensures
        exists|i: int| 0 <= i < k && pts[i] == (extremes_scan(pts, k).0.x, extremes_scan(pts, k).0.y),
        forall|i: int|
            0 <= i < k ==> extremes_scan(pts, k).0.x + extremes_scan(pts, k).0.y <= #[trigger] pts[i].0
                + pts[i].1,
    decreases k,
{
    if k > 1 {
        lemma_top_left_extreme(pts, k - 1);
    }
    let e = extremes_scan(pts, k).0;
    if k == 1 || e == (MyPoint { x: pts[k - 1].0, y: pts[k - 1].1 }) {
        assert(pts[k - 1] == (e.x, e.y));
    }
}

/// Finds the four fiducials of a morphological raster (see `corners_scan`),
/// in (top-left, top-right, bottom-left, bottom-right) order; none when a
/// corner has no candidate.
pub fn generate_location(img: &GrayRaster, location_info: &LocationInfo, cfg: &ImageBaizheng) -> (r: Option<[Coordinate; 4]>)
    requires
        img.wf(),
        location_info.in_range(),
    ensures
        ({
            let cs = contours_of(img.pixels@, img.width as int, img.height as int);
            let f = corners_found(corners_scan(cs, img.width as int, img.height as int, *location_info, *cfg, cs.len() as int));
            &&& r.is_some() == f.is_some()
            &&& r.is_some() ==> r.unwrap()@ == f.unwrap()
        }),
        r.is_some() ==> crate::validate::all_in_range(r.unwrap()@),
{
    let contours = find_contours(img);
    let ghost cs = contours_of(img.pixels@, img.width as int, img.height as int);
    let width = img.width as i64;
    let mut lt: Option<Coordinate> = None;
    let mut rt: Option<Coordinate> = None;
    let mut ld: Option<Coordinate> = None;
    let mut rd: Option<Coordinate> = None;
    let mut k: usize = 0;
    while k < contours.len()
        invariant
            k <= contours@.len(),
            contours@.len() == cs.len(),
            forall|i: int| 0 <= i < contours@.len() ==> (#[trigger] contours@[i])@ == cs[i],
            img.wf(),
            location_info.in_range(),
            width == img.width,
            seq![lt, rt, ld, rd] == corners_scan(cs, img.width as int, img.height as int, *location_info, *cfg, k as int),
            lt.is_some() ==> lt.unwrap().in_range(),
            rt.is_some() ==> rt.unwrap().in_range(),
            ld.is_some() ==> ld.unwrap().in_range(),
            rd.is_some() ==> rd.unwrap().in_range(),
        decreases contours@.len() - k,
    {
        let cand = candidate_exec(&contours[k], img.width, img.height, location_info, cfg);
        match cand {
            None => {},
            Some(c) => {
                let (cx, cy) = (c.x as i64, c.y as i64);
                let seal = location_info.is_in_seal;
                let take_lt = match lt {
                    None => !seal || cx < width / 5,
                    Some(l) => if seal {
                        cy < l.y as i64 && cx < width / 5
                    } else {
                        cx + cy < l.x as i64 + l.y as i64
                    },
                };
                let take_rt = match rt {
                    None => true,
                    Some(r) => cx - cy > r.x as i64 - r.y as i64,
                };
                let take_ld = match ld {
                    None => true,
                    Some(l) => cx - cy < l.x as i64 - l.y as i64,
                };
                let take_rd = match rd {
                    None => !seal || cx > width * 4 / 5,
                    Some(r) => if seal {
                        cy > r.y as i64 && cx > width * 4 / 5
                    } else {
                        cx + cy > r.x as i64 + r.y as i64
                    },
                };
                if take_lt {
                    lt = Some(c);
                }
                if take_rt {
                    rt = Some(c);
                }
                if take_ld {
                    ld = Some(c);
                }
                if take_rd {
                    rd = Some(c);
                }
            },
        }
        k = k + 1;
    }
    match (lt, rt, ld, rd) {
        (Some(a), Some(b), Some(c), Some(d)) => {
            let r = [a, b, c, d];
            assert(r@ =~= seq![a, b, c, d]);
            Some(r)
        },
        _ => None,
    }
}

/// The four candidates found with kernel parameters `a`.
pub open spec fn four_at(blur: GrayRaster, a: ProcessedImagesArgs, info: LocationInfo, cfg: ImageBaizheng) -> Option<Seq<
    Coordinate,
>> {
    let w = blur.width as int;
    let h = blur.height as int;
    let cs = contours_of(morphology_of(blur.pixels@, w, h, a), w, h);
    corners_found(corners_scan(cs, w, h, info, cfg, cs.len() as int))
}

/// The index of the first parameter set from `k` on whose four candidates
/// pass validation.
pub open spec fn first_valid(
    blur: GrayRaster,
    args: Seq<ProcessedImagesArgs>,
    info: LocationInfo,
    cfg: ImageBaizheng,
    k: int,
) -> Option<int>
    decreases args.len() - k,
{
    if k < 0 || k >= args.len() {
        None
    } else if four_at(blur, args[k], info, cfg).is_some() && fiducials_valid(
        four_at(blur, args[k], info, cfg).unwrap(),
        info.wh,
        cfg,
    ) {
        Some(k)
    } else {
        first_valid(blur, args, info, cfg, k + 1)
    }
}

/// The set completed from a repair triple, when its fourth corner is in
/// range.
pub open spec fn repaired(c: Seq<Coordinate>, info: LocationInfo, cfg: ImageBaizheng) -> Option<
    Seq<Coordinate>,
> {
    match repair_triple(c, info.wh, cfg) {
        None => None,
        Some(t) => if completed_corner(t).in_range() {
            Some(sorted_corners(seq![t[0], t[1], t[2], completed_corner(t)]))
        } else {
            None
        },
    }
}

/// The index of the first parameter set from `k` on whose candidates can be
/// repaired from three of them.
pub open spec fn first_repairable(
    blur: GrayRaster,
    args: Seq<ProcessedImagesArgs>,
    info: LocationInfo,
    cfg: ImageBaizheng,
    k: int,
) -> Option<int>
    decreases args.len() - k,
{
    if k < 0 || k >= args.len() {
        None
    } else if four_at(blur, args[k], info, cfg).is_some() && repaired(
        four_at(blur, args[k], info, cfg).unwrap(),
        info,
        cfg,
    ).is_some() {
        Some(k)
    } else {
        first_repairable(blur, args, info, cfg, k + 1)
    }
}

/// The fiducial set of a photograph: the candidates of the first parameter
/// set that pass validation; failing that, the set completed from three
/// candidates of the first parameter set that allows it (with the three);
/// none when no parameter set gives either.
pub open spec fn located(
    blur: GrayRaster,
    args: Seq<ProcessedImagesArgs>,
    info: LocationInfo,
    cfg: ImageBaizheng,
) -> Option<(Seq<Coordinate>, Option<Seq<Coordinate>>)> {
    match first_valid(blur, args, info, cfg, 0) {
        Some(i) => Some((four_at(blur, args[i], info, cfg).unwrap(), None)),
        None => match first_repairable(blur, args, info, cfg, 0) {
            Some(i) => {
                let four = four_at(blur, args[i], info, cfg).unwrap();
                Some((repaired(four, info, cfg).unwrap(), repair_triple(four, info.wh, cfg)))
            },
            None => None,
        },
    }
}

/// Tries the kernel parameter sets in order to find the photograph's four
/// fiducials (see `located`); with the three corners used when the set was
/// completed from them.
pub fn locate_fiducials(
    blur: &GrayRaster,
    retry_args: &Vec<ProcessedImagesArgs>,
    location_info: &LocationInfo,
    cfg: &ImageBaizheng,
) -> (r: Option<([Coordinate; 4], Option<[Coordinate; 3]>)>)
    requires
        blur.wf(),
        location_info.in_range(),
        cfg.wf(),
    ensures
        r.is_some() == located(*blur, retry_args@, *location_info, *cfg).is_some(),
        r.is_some() ==> ({
            let l = located(*blur, retry_args@, *location_info, *cfg).unwrap();
            &&& r.unwrap().0@ == l.0
            &&& r.unwrap().1.is_some() == l.1.is_some()
            &&& r.unwrap().1.is_some() ==> r.unwrap().1.unwrap()@ == l.1.unwrap()
        }),
{
    let mut i: usize = 0;
    while i < retry_args.len()
        invariant
            i <= retry_args@.len(),
            blur.wf(),
            location_info.in_range(),
            cfg.wf(),
            first_valid(*blur, retry_args@, *location_info, *cfg, 0) == first_valid(
                *blur,
                retry_args@,
                *location_info,
                *cfg,
                i as int,
            ),
        decreases retry_args@.len() - i,
    {
        let mor = generate_mophology_from_blur(blur, &retry_args[i]);
        match generate_location(&mor, location_info, cfg) {
            Some(four) => {
                assert(four@ == four_at(*blur, retry_args@[i as int], *location_info, *cfg).unwrap());
                if coordinates4_is_valid(&four, location_info, cfg) {
                    return Some((four, None));
                }
            },
            None => {},
        }
        i = i + 1;
    }
    let mut i: usize = 0;
    while i < retry_args.len()
        invariant
            i <= retry_args@.len(),
            blur.wf(),
            location_info.in_range(),
            cfg.wf(),
            first_valid(*blur, retry_args@, *location_info, *cfg, 0).is_none(),
            first_repairable(*blur, retry_args@, *location_info, *cfg, 0) == first_repairable(
                *blur,
                retry_args@,
                *location_info,
                *cfg,
                i as int,
            ),
        decreases retry_args@.len() - i,
    {
        let mor = generate_mophology_from_blur(blur, &retry_args[i]);
        let found = generate_location(&mor, location_info, cfg);
        if found.is_none() {
            i = i + 1;
            continue;
        }
        let four = found.unwrap();
        assert(four@ == four_at(*blur, retry_args@[i as int], *location_info, *cfg).unwrap());
        match find_3_valid_coordinates(&four, location_info, cfg) {
            Some(three) => {
                let c0 = three[0];
                let c1 = three[1];
                let c2 = three[2];
                assert(c0.in_range() && c1.in_range() && c2.in_range()) by {
                    assert(three@[0].in_range());
                    assert(three@[1].in_range());
                    assert(three@[2].in_range());
                }
                let x = c0.x as i64 - c1.x as i64 + c2.x as i64;
                let y = c0.y as i64 - c1.y as i64 + c2.y as i64;
                let w = trunc_div(c0.w as i64 + c1.w as i64 + c2.w as i64, 3);
                let h = trunc_div(c0.h as i64 + c1.h as i64 + c2.h as i64, 3);
                let px = PIXEL_LIMIT as i64;
                proof {
                    lemma_mean3_range(c0.w as int, c1.w as int, c2.w as int);
                    lemma_mean3_range(c0.h as int, c1.h as int, c2.h as int);
                }
                if -px <= x && x <= px && -px <= y && y <= px {
                    assert(completed_corner(three@).in_range());
                    let four2 = predict_model_points_with_3_coordinate(&three);
                    return Some((four2, Some(three)));
                }
            },
            None => {},
        }
        i = i + 1;
    }
    None
}

proof fn lemma_mean3_range(a: int, b: int, c: int)
    requires
        -PIXEL_LIMIT <= a <= PIXEL_LIMIT,
        -PIXEL_LIMIT <= b <= PIXEL_LIMIT,
        -PIXEL_LIMIT <= c <= PIXEL_LIMIT,
    ensures
        -PIXEL_LIMIT <= div_trunc(a + b + c, 3) <= PIXEL_LIMIT,
{
    let s = a + b + c;
    if s >= 0 {
        vstd::arithmetic::div_mod::lemma_div_is_ordered(s, 3 * PIXEL_LIMIT, 3);
        vstd::arithmetic::div_mod::lemma_div_pos_is_pos(s, 3);
    } else {
        vstd::arithmetic::div_mod::lemma_div_is_ordered(-s, 3 * PIXEL_LIMIT, 3);
        vstd::arithmetic::div_mod::lemma_div_pos_is_pos(-s, 3);
    }
}

/// The two corners whose segment sets the levelling angle when the set was
/// completed from three (`three[1]` being the vertex): the vertex with its
/// horizontal neighbour, leftmost first. The neighbour is `three[2]` when
/// `three[0]` lies more than 500 pixels above or below the vertex, else
/// `three[0]`.
pub open spec fn level_pair(three: Seq<Coordinate>) -> (Coordinate, Coordinate) {
    let v = three[1];
    let n = if crate::validate::abs(three[0].y - v.y) > 500 {
        three[2]
    } else {
        three[0]
    };
    if v.x < n.x {
        (v, n)
    } else {
        (n, v)
    }
}

/// Picks the corners that set the levelling angle (see `level_pair`).
pub fn calculate_rotate_pair_with_3_coordinates(coors: &[Coordinate; 3]) -> (r: (Coordinate, Coordinate))
    requires
        coors@[0].in_range(),
        coors@[1].in_range(),
    ensures
        r == level_pair(coors@),
{
    let v = coors[1];
    let d = coors[0].y as i64 - v.y as i64;
    let far = d > 500 || d < -500;
    let n = if far {
        coors[2]
    } else {
        coors[0]
    };
    if v.x < n.x {
        (v, n)
    } else {
        (n, v)
    }
}

} // verus!
