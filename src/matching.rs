//! Matching photographs to template pages by their page-number marks:
//! the difference of expected and measured fill rates, and the greedy
//! first-match assignment.
use vstd::prelude::*;
use crate::config::Location;
use crate::geometry::Coordinate;
use crate::mapping::{ReferenceModelPoints, generate_real_coordinate_with_model_points, mapped};
use crate::raster::{IntegralImage, calculate_fill_ratio, region_fill};

verus! {

/// A page-number mark of a template page and its expected fill rate, in per
/// mille.
#[derive(Debug, Clone, Copy, PartialEq, Eq, Structural)]
pub struct PageNumberPoint {
    pub fill_rate_permille: i64,
    pub coordinate: Coordinate,
}

pub open spec fn abs_int(x: int) -> int {
    if x < 0 {
        -x
    } else {
        x
    }
}

/// Sum over the first `k` rectangles of the absolute difference between the
/// expected and the measured fill rate.
pub open spec fn fill_difference(
    ii: IntegralImage,
    coors: Seq<Coordinate>,
    rates: Seq<i64>,
    k: int,
) -> int
    decreases k,
{
    if k <= 0 {
        0
    } else {
        fill_difference(ii, coors, rates, k - 1) + abs_int(rates[k - 1] - region_fill(ii, coors[k - 1]))
    }
}

/// Total absolute difference between expected fill rates and those measured
/// on `integral_img` over `coordinates` (the mean difference times their
/// number).
pub fn calculate_page_number_difference(
    integral_img: &IntegralImage,
    coordinates: &Vec<Coordinate>,
    fill_rates: &Vec<i64>,
) -> (r: i128)
    requires
        integral_img.wf(),
        coordinates@.len() == fill_rates@.len(),
        coordinates@.len() <= 0x10000,
    ensures
        r == fill_difference(*integral_img, coordinates@, fill_rates@, coordinates@.len() as int),
{
    let mut total: i128 = 0;
    let mut i: usize = 0;
    while i < coordinates.len()
        invariant
            i <= coordinates@.len() <= 0x10000,
            coordinates@.len() == fill_rates@.len(),
            integral_img.wf(),
            total == fill_difference(*integral_img, coordinates@, fill_rates@, i as int),
            0 <= total <= i * 0x8000_0000_0000_0000 * 5001,
        decreases coordinates@.len() - i,
    {
        let f = calculate_fill_ratio(integral_img, &coordinates[i]);
        let e = fill_rates[i] as i128;
        let d = if e >= f {
            e - f
        } else {
            f - e
        };
        total = total + d;
        i = i + 1;
    }
    total
}

/// The marks of `points` mapped with the top-left anchor.
pub open spec fn mapped_marks(
    points: Seq<PageNumberPoint>,
    refs: ReferenceModelPoints,
    loc: Location,
) -> Seq<Coordinate> {
    points.map_values(|p: PageNumberPoint| mapped(refs, p.coordinate, true, None, loc))
}

pub open spec fn mark_rates(points: Seq<PageNumberPoint>) -> Seq<i64> {
    points.map_values(|p: PageNumberPoint| p.fill_rate_permille)
}

/// The difference score of a photograph against a template page: the total
/// fill-rate difference of the page's marks, mapped through `refs`.
pub open spec fn page_score(
    points: Seq<PageNumberPoint>,
    refs: ReferenceModelPoints,
    ii: IntegralImage,
    loc: Location,
) -> int {
    fill_difference(ii, mapped_marks(points, refs, loc), mark_rates(points), points.len() as int)
}

/// Scores a photograph against a template page (see `page_score`).
pub fn calculate_page_img_diff(
    page_number_points: &Vec<PageNumberPoint>,
    reference_model_points: &ReferenceModelPoints,
    img: &IntegralImage,
    location: &Location,
) -> (r: i128)
    requires
        img.wf(),
        reference_model_points.wf(),
        page_number_points@.len() <= 0x10000,
        forall|i: int|
            0 <= i < page_number_points@.len() ==> (#[trigger] page_number_points@[i]).coordinate.in_range(),
        -1000 <= location.select_model_point_cal_real_coor_y_boundary_permille <= 1000,
    ensures
        r == page_score(page_number_points@, *reference_model_points, *img, *location),
{
    let mut coors: Vec<Coordinate> = Vec::new();
    let mut rates: Vec<i64> = Vec::new();
    let mut i: usize = 0;
    while i < page_number_points.len()
        invariant
            i <= page_number_points@.len() <= 0x10000,
            reference_model_points.wf(),
            forall|k: int|
                0 <= k < page_number_points@.len() ==> (#[trigger] page_number_points@[k]).coordinate.in_range(),
            -1000 <= location.select_model_point_cal_real_coor_y_boundary_permille <= 1000,
            coors@ == mapped_marks(page_number_points@, *reference_model_points, *location).take(i as int),
            rates@ == mark_rates(page_number_points@).take(i as int),
        decreases page_number_points@.len() - i,
    {
        let p = page_number_points[i];
        assert(page_number_points@[i as int].coordinate.in_range());
        let c = generate_real_coordinate_with_model_points(
            reference_model_points,
            &p.coordinate,
            true,
            None,
            location,
        );
        coors.push(c);
        rates.push(p.fill_rate_permille);
        proof {
            assert(coors@ =~= mapped_marks(page_number_points@, *reference_model_points, *location).take(i as int + 1));
            assert(rates@ =~= mark_rates(page_number_points@).take(i as int + 1));
        }
        i = i + 1;
    }
    assert(coors@ =~= mapped_marks(page_number_points@, *reference_model_points, *location));
    assert(rates@ =~= mark_rates(page_number_points@));
    calculate_page_number_difference(img, &coors, &rates)
}

/// A photograph matches a page when the mean difference of its `n` marks is
/// at most `threshold`; a page without marks matches nothing.
pub open spec fn score_matches(total: int, n: int, threshold: int) -> bool {
    n > 0 && total <= threshold * n
}

pub fn page_matches(total: i128, n: usize, threshold_permille: i64) -> (r: bool)
    requires
        n <= 0x10000,
    ensures
        r == score_matches(total as int, n as int, threshold_permille as int),
{
    if n == 0 {
        return false;
    }
    proof {
        assert(-0x8000_0000_0000_0000 * 0x10000 <= threshold_permille * n <= 0x8000_0000_0000_0000
            * 0x10000) by (nonlinear_arith)
            requires
                0 <= n <= 0x10000,
                -0x8000_0000_0000_0000 <= threshold_permille < 0x8000_0000_0000_0000,
        ;
    }
    total <= (threshold_permille as i128) * (n as i128)
}

/// The first image from index `k` on that is eligible and not taken.
pub open spec fn first_free(elig: Seq<bool>, taken: Seq<bool>, k: int) -> Option<int>
    decreases elig.len() - k,
{
    if k < 0 || k >= elig.len() {
        None
    } else if elig[k] && !taken[k] {
        Some(k)
    } else {
        first_free(elig, taken, k + 1)
    }
}

/// Page `p`'s turn of the greedy assignment: an unassigned page takes the
/// first eligible image that no page has taken.
pub open spec fn greedy_step(
    elig: Seq<Seq<bool>>,
    state: (Seq<Option<usize>>, Seq<bool>),
    p: int,
) -> (Seq<Option<usize>>, Seq<bool>) {
    if state.0[p].is_some() {
        state
    } else {
        match first_free(elig[p], state.1, 0) {
            None => state,
            Some(i) => (state.0.update(p, Some(i as usize)), state.1.update(i, true)),
        }
    }
}

/// The assignment after pages `0..p` have had their turn, in page order.
pub open spec fn greedy(
    elig: Seq<Seq<bool>>,
    assigned: Seq<Option<usize>>,
    taken: Seq<bool>,
    p: int,
) -> (Seq<Option<usize>>, Seq<bool>)
    decreases p,
{
    if p <= 0 {
        (assigned, taken)
    } else {
        greedy_step(elig, greedy(elig, assigned, taken, p - 1), p - 1)
    }
}

proof fn lemma_greedy_lengths(elig: Seq<Seq<bool>>, assigned: Seq<Option<usize>>, taken: Seq<bool>, p: int)
    requires
        0 <= p <= elig.len(),
        assigned.len() == elig.len(),
        forall|q: int| 0 <= q < elig.len() ==> (#[trigger] elig[q]).len() == taken.len(),
    ensures
        greedy(elig, assigned, taken, p).0.len() == assigned.len(),
        greedy(elig, assigned, taken, p).1.len() == taken.len(),
    decreases p,
{
    if p > 0 {
        lemma_greedy_lengths(elig, assigned, taken, p - 1);
        let st = greedy(elig, assigned, taken, p - 1);
        if st.0[p - 1].is_none() {
            lemma_first_free_in(elig[p - 1], st.1, 0);
        }
    }
}

proof fn lemma_first_free_in(elig: Seq<bool>, taken: Seq<bool>, k: int)
    requires
        elig.len() == taken.len(),
    ensures
        first_free(elig, taken, k).is_some() ==> k <= first_free(elig, taken, k).unwrap() < elig.len()
            && elig[first_free(elig, taken, k).unwrap()] && !taken[first_free(elig, taken, k).unwrap()],
    decreases elig.len() - k,
{
    if 0 <= k < elig.len() && !(elig[k] && !taken[k]) {
        lemma_first_free_in(elig, taken, k + 1);
    }
}

/// Gives each page that has no image yet, in page order, the first image
/// that is eligible for it (`eligible[page][image]`) and not yet taken, and
/// marks that image taken. No image is given to two pages.
pub fn assign_pages(
    eligible: &Vec<Vec<bool>>,
    assigned: &mut Vec<Option<usize>>,
    taken: &mut Vec<bool>,
)
    requires
        old(assigned)@.len() == eligible@.len(),
        forall|q: int| 0 <= q < eligible@.len() ==> (#[trigger] eligible@[q])@.len() == old(taken)@.len(),
    ensures
        (final(assigned)@, final(taken)@) == greedy(
            eligible@.map_values(|v: Vec<bool>| v@),
            old(assigned)@,
            old(taken)@,
            eligible@.len() as int,
        ),
{
    let ghost elig = eligible@.map_values(|v: Vec<bool>| v@);
    let ghost a0 = assigned@;
    let ghost t0 = taken@;
    let mut p: usize = 0;
    while p < eligible.len()
        invariant
            p <= eligible@.len(),
            elig == eligible@.map_values(|v: Vec<bool>| v@),
            a0.len() == eligible@.len(),
            forall|q: int| 0 <= q < eligible@.len() ==> (#[trigger] eligible@[q])@.len() == t0.len(),
            (assigned@, taken@) == greedy(elig, a0, t0, p as int),
        decreases eligible@.len() - p,
    {
        proof {
            lemma_greedy_lengths(elig, a0, t0, p as int);
            assert(forall|q: int| 0 <= q < elig.len() ==> (#[trigger] elig[q]).len() == t0.len());
        }
        if assigned[p].is_none() {
            let row = &eligible[p];
            let mut i: usize = 0;
            let mut found: Option<usize> = None;
            while i < row.len() && found.is_none()
                invariant
                    i <= row@.len(),
                    row@.len() == taken@.len(),
                    row@ == elig[p as int],
                    found.is_none() ==> first_free(row@, taken@, 0) == first_free(row@, taken@, i as int),
                    found.is_some() ==> first_free(row@, taken@, 0) == Some(found.unwrap() as int),
                    found.is_some() ==> found.unwrap() < row@.len(),
                decreases row@.len() - i + (if found.is_none() {
                    1int
                } else {
                    0int
                }),
            {
                if row[i] && !taken[i] {
                    found = Some(i);
                } else {
                    i = i + 1;
                }
            }
            proof {
                if found.is_none() {
                    assert(first_free(row@, taken@, i as int).is_none());
                }
            }
            match found {
                None => {},
                Some(i) => {
                    assigned.set(p, Some(i));
                    taken.set(i, true);
                },
            }
        }
        p = p + 1;
    }
}

} // verus!
