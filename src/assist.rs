//! Local warp correction from assist markers: each row's pair of markers is
//! mapped, moved with its group to the least inked position, refined, and
//! compared with its plain mapping to give the row's move operation.
use vstd::prelude::*;
use crate::config::{ImageBaizheng, Location};
use crate::geometry::{AssistPoint, Coordinate, PIXEL_LIMIT};
use crate::mapping::{
    MoveOperation,
    ReferenceModelPoints,
    generate_move_op,
    generate_real_coordinate_with_model_points,
    mapped,
    move_op_of,
};
use crate::raster::IntegralImage;
use crate::refine::{
    fix_coordinates_by_search_nearby_retry,
    group_searched_times,
    marker_refined,
    refine_assist_marker,
};

verus! {

/// The pairs whose two markers share a row.
pub open spec fn kept_pairs(area: Seq<AssistPoint>) -> Seq<AssistPoint> {
    area.filter(|p: AssistPoint| p.left.y == p.right.y)
}

/// The row height that anchors a whole area: that of its first left marker.
pub open spec fn row_flag(area: Seq<AssistPoint>) -> Option<i32> {
    if area.len() == 0 {
        None
    } else {
        Some(area[0].left.y)
    }
}

/// The markers of one side, mapped with the anchor of the area's row.
pub open spec fn side_mapped(
    refs: ReferenceModelPoints,
    kept: Seq<AssistPoint>,
    left: bool,
    flag: Option<i32>,
    loc: Location,
) -> Seq<Coordinate> {
    Seq::new(
        kept.len(),
        |k: int| mapped(refs, if left { kept[k].left } else { kept[k].right }, false, flag, loc),
    )
}

/// The markers of one side after the group search and their own refinement.
pub open spec fn side_fixed(
    ii: IntegralImage,
    refs: ReferenceModelPoints,
    area: Seq<AssistPoint>,
    left: bool,
    cfg: ImageBaizheng,
    loc: Location,
) -> Seq<Coordinate> {
    let kept = kept_pairs(area);
    let g = group_searched_times(
        ii,
        side_mapped(refs, kept, left, row_flag(area), loc),
        cfg.area_assist_point_nearby_length as int,
        cfg.area_assist_point_nearby_step as int,
        cfg.area_assist_point_nearby_retry as int,
    );
    Seq::new(g.len(), |k: int| marker_refined(ii, g[k], cfg))
}

/// The move operation of each kept pair, keyed by its template row: from the
/// pair mapped with the top-left anchor to the pair as refined.
pub open spec fn area_move_ops(
    ii: IntegralImage,
    refs: ReferenceModelPoints,
    area: Seq<AssistPoint>,
    cfg: ImageBaizheng,
    loc: Location,
) -> Seq<(i32, MoveOperation)> {
    ops_from(
        refs,
        kept_pairs(area),
        side_fixed(ii, refs, area, true, cfg, loc),
        side_fixed(ii, refs, area, false, cfg, loc),
        loc,
    )
}

/// The move operation of each pair, from its plain mapping to the refined
/// markers `fl` and `fr`.
pub open spec fn ops_from(
    refs: ReferenceModelPoints,
    kept: Seq<AssistPoint>,
    fl: Seq<Coordinate>,
    fr: Seq<Coordinate>,
    loc: Location,
) -> Seq<(i32, MoveOperation)> {
    Seq::new(
        kept.len(),
        |k: int|
            (
                kept[k].left.y,
                move_op_of(
                    seq![mapped(refs, kept[k].left, true, None, loc), mapped(refs, kept[k].right, true, None, loc)],
                    seq![fl[k], fr[k]],
                ),
            ),
    )
}

proof fn lemma_filter_step<A>(s: Seq<A>, p: spec_fn(A) -> bool, i: int)
    requires
        0 <= i < s.len(),
    ensures
        s.take(i + 1).filter(p) == (if p(s[i]) {
            s.take(i).filter(p).push(s[i])
        } else {
            s.take(i).filter(p)
        }),
{
    reveal(Seq::filter);
    assert(s.take(i + 1).drop_last() =~= s.take(i));
}

pub open spec fn pairs_in_range(area: Seq<AssistPoint>) -> bool {
    forall|i: int| 0 <= i < area.len() ==> (#[trigger] area[i]).left.in_range() && area[i].right.in_range()
}

fn map_side(
    refs: &ReferenceModelPoints,
    kept: &Vec<AssistPoint>,
    left: bool,
    flag: Option<i32>,
    loc: &Location,
) -> (r: Vec<Coordinate>)
    requires
        refs.wf(),
        pairs_in_range(kept@),
        flag.is_some() ==> -PIXEL_LIMIT <= flag.unwrap() <= PIXEL_LIMIT,
        -1000 <= loc.select_model_point_cal_real_coor_y_boundary_permille <= 1000,
    ensures
        r@ == side_mapped(*refs, kept@, left, flag, *loc),
        forall|i: int| 0 <= i < r@.len() ==> (#[trigger] r@[i]).in_range(),
{
    let mut r: Vec<Coordinate> = Vec::new();
    let mut k: usize = 0;
    while k < kept.len()
        invariant
            k <= kept@.len(),
            refs.wf(),
            pairs_in_range(kept@),
            flag.is_some() ==> -PIXEL_LIMIT <= flag.unwrap() <= PIXEL_LIMIT,
            -1000 <= loc.select_model_point_cal_real_coor_y_boundary_permille <= 1000,
            r@.len() == k,
            forall|i: int| 0 <= i < k ==> r@[i] == #[trigger] side_mapped(*refs, kept@, left, flag, *loc)[i],
            forall|i: int| 0 <= i < k ==> (#[trigger] r@[i]).in_range(),
        decreases kept@.len() - k,
    {
        let p = kept[k];
        assert(kept@[k as int].left.in_range() && kept@[k as int].right.in_range());
        let c = if left {
            p.left
        } else {
            p.right
        };
        let m = generate_real_coordinate_with_model_points(refs, &c, false, flag, loc);
        r.push(m);
        k = k + 1;
    }
    assert(r@ =~= side_mapped(*refs, kept@, left, flag, *loc));
    r
}

fn refine_side(img: &IntegralImage, cs: &mut Vec<Coordinate>, cfg: &ImageBaizheng)
    requires
        img.wf(),
        cfg.refine_ok(),
        forall|i: int| 0 <= i < old(cs)@.len() ==> (#[trigger] old(cs)@[i]).in_range(),
    ensures
        final(cs)@ == Seq::new(old(cs)@.len(), |k: int| marker_refined(*img, old(cs)@[k], *cfg)),
        forall|i: int| 0 <= i < final(cs)@.len() ==> (#[trigger] final(cs)@[i]).in_range(),
{
    let ghost before = cs@;
    let mut k: usize = 0;
    while k < cs.len()
        invariant
            img.wf(),
            cfg.refine_ok(),
            cs@.len() == before.len(),
            k <= cs@.len(),
            forall|i: int| 0 <= i < before.len() ==> (#[trigger] before[i]).in_range(),
            forall|i: int| 0 <= i < k ==> cs@[i] == marker_refined(*img, #[trigger] before[i], *cfg),
            forall|i: int| k <= i < cs@.len() ==> #[trigger] cs@[i] == before[i],
            forall|i: int| 0 <= i < cs@.len() ==> (#[trigger] cs@[i]).in_range(),
        decreases cs@.len() - k,
    {
        let mut c = cs[k];
        refine_assist_marker(img, &mut c, cfg);
        cs.set(k, c);
        k = k + 1;
    }
    assert(cs@ =~= Seq::new(before.len(), |k: int| marker_refined(*img, before[k], *cfg)));
}

/// The move operations of one area of assist markers (see
/// `area_move_ops`).
pub fn assist_move_ops(
    img: &IntegralImage,
    reference_model_points: &ReferenceModelPoints,
    area: &Vec<AssistPoint>,
    cfg: &ImageBaizheng,
    location: &Location,
) -> (r: Vec<(i32, MoveOperation)>)
    requires
        img.wf(),
        reference_model_points.wf(),
        pairs_in_range(area@),
        area@.len() <= 0x1_0000,
        cfg.refine_ok(),
        -1000 <= location.select_model_point_cal_real_coor_y_boundary_permille <= 1000,
    ensures
        r@ == area_move_ops(*img, *reference_model_points, area@, *cfg, *location),
{
    let ghost p = |q: AssistPoint| q.left.y == q.right.y;
    let mut kept: Vec<AssistPoint> = Vec::new();
    let mut i: usize = 0;
    while i < area.len()
        invariant
            i <= area@.len(),
            pairs_in_range(area@),
            p == (|q: AssistPoint| q.left.y == q.right.y),
            kept@ == area@.take(i as int).filter(p),
            kept@.len() <= i,
            pairs_in_range(kept@),
        decreases area@.len() - i,
    {
        proof {
            lemma_filter_step(area@, p, i as int);
        }
        let q = area[i];
        if q.left.y == q.right.y {
            kept.push(q);
        }
        i = i + 1;
    }
    assert(area@.take(area@.len() as int) =~= area@);
    let flag: Option<i32> = if area.len() == 0 {
        None
    } else {
        Some(area[0].left.y)
    };
    proof {
        if area@.len() > 0 {
            assert(area@[0].left.in_range());
        }
    }
    let mut lefts = map_side(reference_model_points, &kept, true, flag, location);
    let mut rights = map_side(reference_model_points, &kept, false, flag, location);
    fix_coordinates_by_search_nearby_retry(
        img,
        &mut lefts,
        cfg.area_assist_point_nearby_length,
        cfg.area_assist_point_nearby_step,
        cfg.area_assist_point_nearby_retry,
    );
    fix_coordinates_by_search_nearby_retry(
        img,
        &mut rights,
        cfg.area_assist_point_nearby_length,
        cfg.area_assist_point_nearby_step,
        cfg.area_assist_point_nearby_retry,
    );
    refine_side(img, &mut lefts, cfg);
    refine_side(img, &mut rights, cfg);
    let ghost fl = side_fixed(*img, *reference_model_points, area@, true, *cfg, *location);
    let ghost fr = side_fixed(*img, *reference_model_points, area@, false, *cfg, *location);
    assert(lefts@ =~= fl);
    assert(rights@ =~= fr);
    let mut ops: Vec<(i32, MoveOperation)> = Vec::new();
    let mut k: usize = 0;
    while k < kept.len()
        invariant
            k <= kept@.len(),
            kept@ == kept_pairs(area@),
            lefts@ == fl,
            rights@ == fr,
            lefts@.len() == kept@.len(),
            rights@.len() == kept@.len(),
            forall|i: int| 0 <= i < lefts@.len() ==> (#[trigger] lefts@[i]).in_range(),
            forall|i: int| 0 <= i < rights@.len() ==> (#[trigger] rights@[i]).in_range(),
            reference_model_points.wf(),
            pairs_in_range(kept@),
            -1000 <= location.select_model_point_cal_real_coor_y_boundary_permille <= 1000,
            ops@.len() == k,
            forall|i: int| 0 <= i < k ==> ops@[i] == #[trigger] ops_from(*reference_model_points, kept@, fl, fr, *location)[i],
        decreases kept@.len() - k,
    {
        let q = kept[k];
        assert(kept@[k as int].left.in_range() && kept@[k as int].right.in_range());
        assert(lefts@[k as int].in_range() && rights@[k as int].in_range());
        let ol = generate_real_coordinate_with_model_points(reference_model_points, &q.left, true, None, location);
        let or = generate_real_coordinate_with_model_points(reference_model_points, &q.right, true, None, location);
        let oa = [ol, or];
        let na = [lefts[k], rights[k]];
        assert(oa@ =~= seq![ol, or]);
        assert(na@ =~= seq![fl[k as int], fr[k as int]]);
        let op = generate_move_op(oa, na);
        proof {
            let ks = kept_pairs(area@);
            let want = ops_from(*reference_model_points, ks, fl, fr, *location);
            let ml = mapped(*reference_model_points, ks[k as int].left, true, None, *location);
            let mr = mapped(*reference_model_points, ks[k as int].right, true, None, *location);
            assert(ks[k as int] == q);
            assert(ol == ml && or == mr);
            assert(oa@ == seq![ml, mr]);
            assert(op == move_op_of(seq![ml, mr], seq![fl[k as int], fr[k as int]]));
            assert(want.len() == ks.len());
            assert(want[k as int] == (ks[k as int].left.y, move_op_of(seq![ml, mr], seq![fl[k as int], fr[k as int]])));
        }
        ops.push((q.left.y, op));
        k = k + 1;
    }
    assert(ops@ =~= area_move_ops(*img, *reference_model_points, area@, *cfg, *location));
    ops
}

} // verus!
