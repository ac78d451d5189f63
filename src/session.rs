//! The decisions of a recognition call between the raster operations:
//! which photographs are blank or turned, how each photograph is reported,
//! whether refined fiducials are kept, and how an answer group is read.
use vstd::prelude::*;
use crate::config::{FillArgs, RecognitionType};
use crate::fill::{
    MAX_OPTIONS,
    all_inside,
    binarized,
    choose_group_fills,
    clamp_rate,
    fills_at,
    fills_at_threshold,
    finetuned,
    get_array_values_for_otsu,
    group_choice,
    inside,
    neighborhood_max,
    offset_outcomes,
    rec_black_fill,
    search_group_fill,
    search_state,
    set_filled_use_threshold,
};
use crate::raster::GrayRaster;
use crate::geometry::Coordinate;
use crate::raster::{IntegralImage, region_fill};

verus! {

/// A photograph is blank when the mean grey level of its binarized raster
/// exceeds `threshold`.
pub open spec fn blank(total: int, area: int, threshold: int) -> bool {
    total > threshold * area
}

/// Whether a photograph is blank (see `blank`); an empty raster is blank.
pub fn is_blank_image(ii: &IntegralImage, threshold: i64) -> (r: bool)
    requires
        ii.wf(),
    ensures
        ii.width == 0 || ii.height == 0 ==> r,
        ii.width > 0 && ii.height > 0 ==> r == blank(
            ii.box_sum(0, 0, ii.width - 1, ii.height - 1),
            ii.width * ii.height,
            threshold as int,
        ),
{
    if ii.width == 0 || ii.height == 0 {
        return true;
    }
    let total = ii.sum_pixels(0, 0, ii.width - 1, ii.height - 1);
    proof {
        assert(0 <= ii.width * ii.height <= 0x100_0000_0000) by (nonlinear_arith)
            requires
                ii.width <= 0x10_0000,
                ii.height <= 0x10_0000,
        ;
        assert(-0x8000_0000_0000_0000 * 0x100_0000_0000 <= threshold * (ii.width * ii.height)
            <= 0x8000_0000_0000_0000 * 0x100_0000_0000) by (nonlinear_arith)
            requires
                0 <= ii.width * ii.height <= 0x100_0000_0000,
                -0x8000_0000_0000_0000 <= threshold < 0x8000_0000_0000_0000,
        ;
    }
    let area = (ii.width as i128) * (ii.height as i128);
    total > (threshold as i128) * area
}

/// A photograph is turned a quarter turn before anything else when it is
/// portrait and the template landscape, or the other way round.
pub fn needs_quarter_turn(model_w: i32, model_h: i32, image_w: u32, image_h: u32) -> (r: bool)
    ensures
        r == ((model_h > model_w) != (image_h > image_w)),
{
    (model_h > model_w) != (image_h > image_w)
}

/// Refined fiducials are kept only when they strictly lower the page's
/// difference score.
pub fn keep_refined(old_score: i128, new_score: i128) -> (r: bool)
    ensures
        r == (new_score < old_score),
{
    new_score < old_score
}

/// The status of each registered photograph, in order: 0 when it matched a
/// page as it came; otherwise it is the next of the turned photographs, 0
/// when that one matched and 1 when not.
pub open spec fn statuses(taken_first: Seq<bool>, taken_second: Seq<bool>, k: int) -> Seq<u8>
    decreases k,
{
    if k <= 0 {
        Seq::empty()
    } else {
        let prev = statuses(taken_first, taken_second, k - 1);
        let turned_before = turned_count(taken_first, k - 1);
        let s: u8 = if taken_first[k - 1] {
            0
        } else if turned_before < taken_second.len() && taken_second[turned_before] {
            0
        } else {
            1
        };
        prev.push(s)
    }
}

/// How many of the first `k` photographs were turned (not matched as they
/// came).
pub open spec fn turned_count(taken_first: Seq<bool>, k: int) -> int
    decreases k,
{
    if k <= 0 {
        0
    } else {
        turned_count(taken_first, k - 1) + if taken_first[k - 1] {
            0int
        } else {
            1int
        }
    }
}

/// Reports each registered photograph (see `statuses`).
pub fn match_statuses(taken_first: &Vec<bool>, taken_second: &Vec<bool>) -> (r: Vec<u8>)
    ensures
        r@ == statuses(taken_first@, taken_second@, taken_first@.len() as int),
{
    let mut r: Vec<u8> = Vec::new();
    let mut turned: usize = 0;
    let mut i: usize = 0;
    while i < taken_first.len()
        invariant
            i <= taken_first@.len(),
            turned as int == turned_count(taken_first@, i as int),
            turned <= i,
            r@ == statuses(taken_first@, taken_second@, i as int),
        decreases taken_first@.len() - i,
    {
        let s: u8 = if taken_first[i] {
            0
        } else if turned < taken_second.len() && taken_second[turned] {
            0
        } else {
            1
        };
        if !taken_first[i] {
            turned = turned + 1;
        }
        r.push(s);
        i = i + 1;
    }
    r
}

/// How an answer group is read.
#[derive(Debug, Clone, Copy, PartialEq, Eq, Structural)]
pub enum GroupKind {
    /// Single choice, multiple choice or plain fill marks.
    Fill,
    /// The digits of an exam number, read as fill marks with their own
    /// neighbourhood.
    ExamNumber,
    /// A barcode or a QR code, read by the decoder.
    Code,
    /// The mapped rectangle is the answer.
    Coordinate,
    /// Handwritten digits or ticks, which nothing reads yet.
    Unread,
}

pub open spec fn kind_of(rec_type: u8, t: RecognitionType) -> GroupKind {
    if rec_type == t.single_select || rec_type == t.multi_select || rec_type == t.black_fill {
        GroupKind::Fill
    } else if rec_type == t.exam_number {
        GroupKind::ExamNumber
    } else if rec_type == t.barcode || rec_type == t.qrcode {
        GroupKind::Code
    } else if rec_type == t.coordinate {
        GroupKind::Coordinate
    } else {
        GroupKind::Unread
    }
}

/// The kind of a group type tag (see `kind_of`).
pub fn group_kind(rec_type: u8, t: &RecognitionType) -> (r: GroupKind)
    ensures
        r == kind_of(rec_type, *t),
{
    if rec_type == t.single_select || rec_type == t.multi_select || rec_type == t.black_fill {
        GroupKind::Fill
    } else if rec_type == t.exam_number {
        GroupKind::ExamNumber
    } else if rec_type == t.barcode || rec_type == t.qrcode {
        GroupKind::Code
    } else if rec_type == t.coordinate {
        GroupKind::Coordinate
    } else {
        GroupKind::Unread
    }
}

/// The fill rate of one option, in per mille (see `rec_black_fill`).
pub open spec fn option_rate(ii: IntegralImage, c: Coordinate, label: Option<char>, args: FillArgs, size: u8) -> int {
    let space = (size / 2) as int;
    clamp_rate(
        finetuned(
            neighborhood_max(ii, c, space, region_fill(ii, c), (2 * space + 1) * (2 * space + 1)),
            label,
            args,
        ),
    )
}

/// The fill rates of a group's options, in per mille.
pub fn group_rates(
    ii: &IntegralImage,
    rects: &Vec<Coordinate>,
    labels: &Vec<Option<char>>,
    args: &FillArgs,
    neighborhood_size: u8,
) -> (r: Vec<i64>)
    requires
        ii.wf(),
        rects@.len() == labels@.len(),
        forall|i: int| 0 <= i < rects@.len() ==> (#[trigger] rects@[i]).in_range(),
    ensures
        r@.len() == rects@.len(),
        forall|i: int|
            0 <= i < r@.len() ==> #[trigger] r@[i] == option_rate(*ii, rects@[i], labels@[i], *args, neighborhood_size),
        forall|i: int| 0 <= i < r@.len() ==> 0 <= #[trigger] r@[i] <= 1000,
{
    let mut r: Vec<i64> = Vec::new();
    let mut i: usize = 0;
    while i < rects.len()
        invariant
            i <= rects@.len(),
            ii.wf(),
            rects@.len() == labels@.len(),
            forall|k: int| 0 <= k < rects@.len() ==> (#[trigger] rects@[k]).in_range(),
            r@.len() == i,
            forall|k: int|
                0 <= k < i ==> #[trigger] r@[k] == option_rate(*ii, rects@[k], labels@[k], *args, neighborhood_size),
            forall|k: int| 0 <= k < i ==> 0 <= #[trigger] r@[k] <= 1000,
        decreases rects@.len() - i,
    {
        assert(rects@[i as int].in_range());
        let v = rec_black_fill(ii, &rects[i], labels[i], args, neighborhood_size);
        r.push(v);
        i = i + 1;
    }
    r
}

/// The status of each input photograph, in input order: a photograph that
/// was registered as the `k`-th takes the status of that registration
/// (see `statuses`); one that could not be decoded, was blank or showed no
/// fiducials is 1.
pub open spec fn input_status(registered: Seq<Option<usize>>, reg_status: Seq<u8>, i: int) -> u8 {
    match registered[i] {
        Some(k) => if k < reg_status.len() {
            reg_status[k as int]
        } else {
            1u8
        },
        None => 1u8,
    }
}

/// Reports every input photograph (see `input_status`).
pub fn input_statuses(registered: &Vec<Option<usize>>, reg_status: &Vec<u8>) -> (r: Vec<u8>)
    ensures
        r@.len() == registered@.len(),
        forall|i: int| 0 <= i < r@.len() ==> #[trigger] r@[i] == input_status(registered@, reg_status@, i),
{
    let mut r: Vec<u8> = Vec::new();
    let mut i: usize = 0;
    while i < registered.len()
        invariant
            i <= registered@.len(),
            r@.len() == i,
            forall|j: int| 0 <= j < i ==> #[trigger] r@[j] == input_status(registered@, reg_status@, j),
        decreases registered@.len() - i,
    {
        let s: u8 = match registered[i] {
            Some(k) => if k < reg_status.len() {
                reg_status[k]
            } else {
                1
            },
            None => 1,
        };
        r.push(s);
        i = i + 1;
    }
    r
}

/// The offsets of the square `[-space, space]` in both axes, row by row.
pub open spec fn square_offsets(space: int) -> Seq<(i32, i32)> {
    Seq::new(
        ((2 * space + 1) * (2 * space + 1)) as nat,
        |q: int| ((-space + q / (2 * space + 1)) as i32, (-space + q % (2 * space + 1)) as i32),
    )
}

/// Lists the offsets of the square `[-space, space]` (see `square_offsets`).
pub fn neighborhood_offsets(space: u8) -> (r: Vec<(i32, i32)>)
    ensures
        r@ == square_offsets(space as int),
        forall|k: int| 0 <= k < r@.len() ==> -255 <= (#[trigger] r@[k]).0 <= 255 && -255 <= r@[k].1 <= 255,
{
    let s = space as i64;
    let side: i64 = 2 * s + 1;
    assert(side * side <= 511 * 511) by (nonlinear_arith)
        requires
            1 <= side <= 511,
    ;
    let total: i64 = side * side;
    let mut r: Vec<(i32, i32)> = Vec::new();
    let mut q: i64 = 0;
    while q < total
        invariant
            0 <= s <= 255,
            side == 2 * s + 1,
            total == side * side,
            0 <= q <= total,
            r@.len() == q,
            forall|k: int| 0 <= k < q ==> #[trigger] r@[k] == square_offsets(s as int)[k],
            forall|k: int| 0 <= k < q ==> -255 <= (#[trigger] r@[k]).0 <= 255 && -255 <= r@[k].1 <= 255,
        decreases total - q,
    {
        proof {
            vstd::arithmetic::div_mod::lemma_fundamental_div_mod(q as int, side as int);
            assert(0 <= q / side < side) by (nonlinear_arith)
                requires
                    0 <= q < side * side,
                    side >= 1,
                    q == side * (q / side) + q % side,
                    0 <= q % side < side,
            ;
        }
        let dx = -s + q / side;
        let dy = -s + q % side;
        r.push((dx as i32, dy as i32));
        q = q + 1;
    }
    assert(r@ =~= square_offsets(space as int));
    r
}

/// The group's fill rates in percent before the final decision: from the
/// neighbourhood search with its special cases (see `group_choice`), the
/// page-wide threshold `global` giving the uniform-group rates; the plain
/// per-option rates when an option leaves the raster or no offset of the
/// search keeps the group inside it.
pub open spec fn group_values(
    blur: GrayRaster,
    ii: IntegralImage,
    rects: Seq<Coordinate>,
    labels: Seq<Option<char>>,
    args: FillArgs,
    size: u8,
    global: Option<u8>,
) -> Seq<u8> {
    let plain = Seq::new(rects.len(), |i: int| (option_rate(ii, rects[i], labels[i], args, size) / 10) as u8);
    let outs = offset_outcomes(
        blur,
        rects,
        square_offsets((size / 2) as int),
        args.otsu_black_fill_sep_weight_permille as int,
    );
    let st = search_state(outs, outs.len() as int);
    if all_inside(blur, rects) && st.is_some() {
        let s = st.unwrap();
        let global_fills = match global {
            Some(t) => fills_at(blur, rects, t as int),
            None => s.0,
        };
        group_choice(s.0, s.2, s.3, global_fills, args)
    } else {
        plain
    }
}

/// Reads a fill group: each option filled or not (see `group_values` and
/// `binarized`).
pub fn classify_group(
    blur: &GrayRaster,
    ii: &IntegralImage,
    rects: &Vec<Coordinate>,
    labels: &Vec<Option<char>>,
    args: &FillArgs,
    neighborhood_size: u8,
    same_var: i64,
    global: Option<u8>,
) -> (r: Vec<bool>)
    requires
        blur.wf(),
        ii.wf(),
        rects@.len() == labels@.len(),
        rects@.len() <= MAX_OPTIONS,
        forall|i: int| 0 <= i < rects@.len() ==> (#[trigger] rects@[i]).in_range(),
        0 <= args.otsu_black_fill_sep_weight_permille <= 1000,
    ensures
        r@ == binarized(
            group_values(*blur, *ii, rects@, labels@, *args, neighborhood_size, global),
            *args,
            same_var as int,
        ),
{
    let rates = group_rates(ii, rects, labels, args, neighborhood_size);
    let plain = get_array_values_for_otsu(&rates);
    let ghost want = group_values(*blur, *ii, rects@, labels@, *args, neighborhood_size, global);
    let offsets = neighborhood_offsets(neighborhood_size / 2);
    let inside = rects_inside(blur, rects);
    let values = if inside {
        match search_group_fill(blur, rects, &offsets, args.otsu_black_fill_sep_weight_permille) {
            Some(search) => {
                let global_fills = match global {
                    Some(t) => fills_at_threshold(blur, rects, t),
                    None => search.primary.clone(),
                };
                choose_group_fills(&search, &global_fills, args)
            },
            None => plain,
        }
    } else {
        plain
    };
    proof {
        let p = Seq::new(
            rects@.len(),
            |i: int| (option_rate(*ii, rects@[i], labels@[i], *args, neighborhood_size) / 10) as u8,
        );
        assert(plain@ =~= p);
    }
    assert(values@ =~= want);
    assert(values@.len() <= MAX_OPTIONS) by {
        lemma_group_values_len(*blur, *ii, rects@, labels@, *args, neighborhood_size, global);
    }
    set_filled_use_threshold(&values, args, same_var)
}

proof fn lemma_group_values_len(
    blur: GrayRaster,
    ii: IntegralImage,
    rects: Seq<Coordinate>,
    labels: Seq<Option<char>>,
    args: FillArgs,
    size: u8,
    global: Option<u8>,
)
    requires
        rects.len() <= MAX_OPTIONS,
    ensures
        group_values(blur, ii, rects, labels, args, size, global).len() == rects.len(),
{
    let outs = offset_outcomes(blur, rects, square_offsets((size / 2) as int), args.otsu_black_fill_sep_weight_permille as int);
    lemma_search_primary_len(outs, outs.len() as int, rects.len() as int);
}

proof fn lemma_search_primary_len(outs: Seq<Option<(Seq<u8>, int, int)>>, k: int, n: int)
    requires
        0 <= k <= outs.len(),
        forall|j: int| 0 <= j < outs.len() && (#[trigger] outs[j]).is_some() ==> outs[j].unwrap().0.len() == n,
    ensures
        search_state(outs, k).is_some() ==> search_state(outs, k).unwrap().0.len() == n,
    decreases k,
{
    if k > 0 {
        lemma_search_primary_len(outs, k - 1, n);
    }
}

/// Whether every rectangle lies inside the raster (see `all_inside`).
pub fn rects_inside(g: &GrayRaster, rects: &Vec<Coordinate>) -> (r: bool)
    ensures
        r == all_inside(*g, rects@),
{
    let mut i: usize = 0;
    while i < rects.len()
        invariant
            i <= rects@.len(),
            forall|k: int| 0 <= k < i ==> inside(*g, #[trigger] rects@[k]),
        decreases rects@.len() - i,
    {
        let c = rects[i];
        if c.x < 0 || c.y < 0 || c.w < 1 || c.h < 1 || c.x as i64 + c.w as i64 > g.width as i64
            || c.y as i64 + c.h as i64 > g.height as i64 {
            assert(!inside(*g, rects@[i as int]));
            return false;
        }
        i = i + 1;
    }
    true
}

} // verus!
