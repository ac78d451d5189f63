use scan_recognition::config::{
    FillArgs, ImageBaizheng, Location, ProcessedImagesArgs, TextBaseRate,
};
use scan_recognition::detect::{
    calculate_points_lt_rt_ld, calculate_rotate_pair_with_3_coordinates, generate_location, locate_fiducials,
};
use scan_recognition::fill::{
    add_histograms, choose_group_fills, crop_histogram, fills_at_threshold, get_otsu,
    offset_fill, otsu_level_and_var_from_hist, otsu_level_and_variance, search_group_fill, set_filled_use_threshold,
    value_histogram, GroupSearch,
};
use scan_recognition::geometry::{calculate_points_wh, Coordinate, ModelPoint, ModelSize, MyPoint};
use scan_recognition::mapping::ReferenceModelPoints;
use scan_recognition::matching::{
    assign_pages, calculate_page_img_diff, calculate_page_number_difference, page_matches,
    PageNumberPoint,
};
use scan_recognition::models::{crop_image, Page, RgbRaster};
use scan_recognition::raster::{
    calculate_fill_ratio, generate_mophology_from_blur, GrayRaster, IntegralImage,
};
use scan_recognition::refine::{
    fix_coordinate, fix_coordinate_by_search_nearby, fix_coordinates_by_search_nearby,
};
use scan_recognition::validate::LocationInfo;

fn c(x: i32, y: i32, w: i32, h: i32) -> Coordinate {
    Coordinate::new(x, y, w, h)
}

fn fill_args() -> FillArgs {
    let t = TextBaseRate { text: 'A', rate_permille: 0 };
    FillArgs {
        all_fill_or_empty_min_var: 50_000,
        all_fill_var: 10_000,
        all_fill_otsu: 100,
        fill_same_max: 60,
        empty_same_max: 30,
        same_var: 100_000,
        same_var_exam_number: 100_000,
        otsu_black_fill_sep_weight_permille: 200,
        text_a: t,
        text_b: t,
        text_c: t,
        text_d: t,
    }
}

fn baizheng() -> ImageBaizheng {
    ImageBaizheng {
        page_number_diff_permille: 200,
        model_point_wh_cosine_similarity: 900_000,
        model_points_right_angle_max_cos: 50_000,
        model_point_min_wh: 10,
        model_point_max_wh: 40,
        model_point_diff: 5,
        model_point_min_area: 5000,
        model_point_scan_range: 3,
        assist_point_scan_range: 3,
        assist_point_min_distance: 2,
        assist_point_max_distance: 40,
        model_point_min_distance: 5,
        model_point_max_distance: 60,
        assist_point_nearby_length: 1,
        area_assist_point_nearby_length: 2,
        area_assist_point_nearby_step: 1,
        area_assist_point_nearby_retry: 1,
        valid_coordinates4_cosine_similarity: 999_000,
        valid_coordinates_wh_sum_mean_dis: 5,
    }
}

/// A white raster with black rectangles.
fn raster(w: u32, h: u32, black: &[Coordinate]) -> GrayRaster {
    let mut pixels = vec![255u8; (w * h) as usize];
    for r in black {
        for y in r.y..r.y + r.h {
            for x in r.x..r.x + r.w {
                pixels[(y as u32 * w + x as u32) as usize] = 0;
            }
        }
    }
    GrayRaster { width: w, height: h, pixels }
}

#[test]
fn otsu_separates_two_clusters() {
    let values = vec![10u8, 10, 10, 90, 90, 90];
    let (t, var) = get_otsu(&values, 200);
    assert!(10 < t && t < 90);
    assert_eq!(t, 89);
    assert_eq!(var, 1_564_800);
    let filled = set_filled_use_threshold(&values, &fill_args(), 100_000);
    assert_eq!(filled, vec![false, false, false, true, true, true]);
    // with no weight every threshold from 10 to 89 ties; the last is kept
    let (t0, var0) = get_otsu(&values, 0);
    assert_eq!((t0, var0), (89, 1_600_000));
    assert_eq!(set_filled_use_threshold(&values, &FillArgs { otsu_black_fill_sep_weight_permille: 0, ..fill_args() }, 100_000),
        vec![false, false, false, true, true, true]);
}

#[test]
fn uniform_groups_follow_ceilings() {
    let args = fill_args();
    assert_eq!(set_filled_use_threshold(&vec![80u8, 82, 81], &args, 100_000), vec![true, true, true]);
    assert_eq!(set_filled_use_threshold(&vec![5u8, 7, 6], &args, 100_000), vec![false, false, false]);
    let empty: Vec<u8> = Vec::new();
    assert_eq!(set_filled_use_threshold(&empty, &args, 100_000), Vec::<bool>::new());
}

#[test]
fn all_filled_special_case() {
    let args = fill_args();
    let search = GroupSearch { primary: vec![10, 20, 30], max_variance: 500_000, min_variance: 5_000, min_threshold: 40 };
    let global = vec![1u8, 2, 3];
    assert_eq!(choose_group_fills(&search, &global, &args), vec![100, 100, 100]);
    let uniform = GroupSearch { primary: vec![10, 20, 30], max_variance: 500_000, min_variance: 20_000, min_threshold: 40 };
    assert_eq!(choose_group_fills(&uniform, &global, &args), vec![1, 2, 3]);
    let plain = GroupSearch { primary: vec![10, 20, 30], max_variance: 500_000, min_variance: 60_000, min_threshold: 40 };
    assert_eq!(choose_group_fills(&plain, &global, &args), vec![10, 20, 30]);
}

#[test]
fn histograms_and_otsu_from_histogram() {
    let g = raster(10, 10, &[c(0, 0, 5, 10)]);
    let h = crop_histogram(&g, &c(0, 0, 10, 10));
    assert_eq!(h[0], 50);
    assert_eq!(h[255], 50);
    let hv = value_histogram(&vec![3u8, 3, 7]);
    assert_eq!((hv[3], hv[7], hv[0]), (2, 1, 0));
    let sum = add_histograms(&h, &hv);
    assert_eq!((sum[0], sum[3], sum[255]), (50, 2, 50));
    let (t, score) = otsu_level_and_var_from_hist(&h);
    assert_eq!(t, 0);
    // wB wF (muB - muF)^2 = 0.25 * 255^2, in thousandths
    assert_eq!(score, 16_256_250);
    let mut two = vec![0u64; 256];
    two[10] = 3;
    two[90] = 3;
    assert_eq!(otsu_level_and_var_from_hist(&two), (10, 1_600_000));
}

#[test]
fn group_fill_search() {
    let g = raster(40, 20, &[c(2, 2, 6, 6)]);
    let rects = vec![c(2, 2, 6, 6), c(12, 2, 6, 6)];
    let at = fills_at_threshold(&g, &rects, 128);
    assert_eq!(at, vec![100, 0]);
    let o = offset_fill(&g, &rects, 200).expect("inside");
    assert_eq!(o.fills, vec![100, 0]);
    assert_eq!(o.threshold, 0);
    let offsets = vec![(0, 0), (1, 0), (-50, 0)];
    let s = search_group_fill(&g, &rects, &offsets, 200).expect("some offset");
    assert_eq!(s.primary, vec![100, 0]);
    assert!(s.min_variance <= s.max_variance);
    assert!(search_group_fill(&g, &rects, &vec![(-50, 0)], 200).is_none());
}

#[test]
fn integral_sums_and_fill_ratio() {
    let g = raster(10, 10, &[c(0, 0, 5, 10)]);
    let ii = IntegralImage::of(&g);
    assert_eq!(ii.table.len(), 121);
    assert_eq!(ii.sum_pixels(0, 0, 9, 9), 50 * 255);
    assert_eq!(ii.sum_pixels(5, 0, 9, 0), 5 * 255);
    assert_eq!(calculate_fill_ratio(&ii, &c(0, 0, 5, 5)), 1000);
    assert_eq!(calculate_fill_ratio(&ii, &c(5, 0, 5, 5)), 0);
    assert_eq!(calculate_fill_ratio(&ii, &c(0, 0, 10, 10)), 501);
    assert_eq!(calculate_fill_ratio(&ii, &c(8, 8, 5, 5)), 0);
}

#[test]
fn page_number_difference_and_threshold() {
    let g = raster(10, 10, &[c(0, 0, 5, 10)]);
    let ii = IntegralImage::of(&g);
    let total = calculate_page_number_difference(&ii, &vec![c(0, 0, 5, 5), c(5, 0, 5, 5)], &vec![950, 100]);
    assert_eq!(total, 150);
    assert!(page_matches(total, 2, 200));
    assert!(!page_matches(total, 2, 50));
    assert!(!page_matches(0, 0, 200));
}

#[test]
fn page_image_diff_maps_marks() {
    let g = raster(10, 10, &[c(0, 0, 5, 10)]);
    let ii = IntegralImage::of(&g);
    let m = |x, y| ModelPoint { point_type: 0, coordinate: c(x, y, 1, 1) };
    let refs = ReferenceModelPoints {
        model_points: [m(0, 0), m(8, 0), m(0, 8), m(8, 8)],
        real_model_points: [c(0, 0, 1, 1), c(8, 0, 1, 1), c(0, 8, 1, 1), c(8, 8, 1, 1)],
    };
    let marks = vec![
        PageNumberPoint { fill_rate_permille: 1000, coordinate: c(0, 0, 3, 3) },
        PageNumberPoint { fill_rate_permille: 0, coordinate: c(6, 0, 3, 3) },
    ];
    let loc = Location { select_model_point_cal_real_coor_y_boundary_permille: 500 };
    assert_eq!(calculate_page_img_diff(&marks, &refs, &ii, &loc), 0);
}

#[test]
fn greedy_match_keeps_second_image_free() {
    // image A scores 0.05 and image B 0.3 against page P, with threshold 0.2
    let a_ok = page_matches(50, 1, 200);
    let b_ok = page_matches(300, 1, 200);
    assert!(a_ok && !b_ok);
    let eligible = vec![vec![a_ok, b_ok], vec![true, true]];
    let mut assigned: Vec<Option<usize>> = vec![None, None];
    let mut taken = vec![false, false];
    assign_pages(&eligible, &mut assigned, &mut taken);
    assert_eq!(assigned, vec![Some(0), Some(1)]);
    assert_eq!(taken, vec![true, true]);
    let mut assigned2: Vec<Option<usize>> = vec![None];
    let mut taken2 = vec![false, false];
    assign_pages(&vec![vec![a_ok, b_ok]], &mut assigned2, &mut taken2);
    assert_eq!(assigned2, vec![Some(0)]);
    assert_eq!(taken2, vec![true, false]);
}

#[test]
fn edge_search_tightens_marker() {
    // a black bar of rows 10..=19 over columns 0..30, on white
    let g = raster(40, 40, &[c(0, 10, 30, 10)]);
    let ii = IntegralImage::of(&g);
    let mut r = c(5, 8, 10, 14);
    fix_coordinate(&ii, &mut r, 4, 2, 30);
    assert_eq!((r.y, r.h), (10, 9));
}

#[test]
fn nearby_search_moves_to_white() {
    let g = raster(30, 30, &[c(10, 10, 5, 5)]);
    let ii = IntegralImage::of(&g);
    let mut r = c(10, 10, 5, 5);
    fix_coordinate_by_search_nearby(&ii, &mut r, 5);
    assert_eq!((r.x, r.y), (10, 15));
    let mut group = vec![c(10, 10, 5, 5), c(20, 20, 2, 2)];
    fix_coordinates_by_search_nearby(&ii, &mut group, 6, 6);
    assert_eq!(group, vec![c(4, 10, 5, 5), c(14, 20, 2, 2)]);
}

#[test]
fn contour_extremes() {
    let pts = vec![(5, 5), (9, 5), (5, 9), (9, 9)];
    let e = calculate_points_lt_rt_ld(&pts).expect("points");
    assert_eq!(e, [MyPoint::new(5, 5), MyPoint::new(9, 5), MyPoint::new(5, 9)]);
    assert!(calculate_points_lt_rt_ld(&Vec::new()).is_none());
}

fn sheet() -> GrayRaster {
    raster(
        200,
        200,
        &[c(10, 10, 20, 20), c(170, 10, 20, 20), c(10, 170, 20, 20), c(170, 170, 20, 20)],
    )
}

#[test]
fn morphology_binarizes() {
    let g = GrayRaster { width: 3, height: 1, pixels: vec![10, 200, 128] };
    let m = generate_mophology_from_blur(&g, &ProcessedImagesArgs::new(128, 0, 0));
    assert_eq!(m.pixels, vec![0, 255, 0]);
}

#[test]
fn morphology_erodes_and_dilates() {
    // one black pixel in the middle of a white 5 x 5 raster
    let g = raster(5, 5, &[c(2, 2, 1, 1)]);
    let eroded = generate_mophology_from_blur(&g, &ProcessedImagesArgs::new(128, 1, 0));
    assert_eq!(eroded.pixels.iter().filter(|p| **p == 0).count(), 9);
    let dilated = generate_mophology_from_blur(&g, &ProcessedImagesArgs::new(128, 0, 1));
    assert_eq!(dilated.pixels.iter().filter(|p| **p == 0).count(), 0);
}

#[test]
fn points_box_size() {
    let pts = vec![MyPoint::new(3, 7), MyPoint::new(9, 2), MyPoint::new(5, 5)];
    assert_eq!(calculate_points_wh(&pts), Some((6, 5)));
    let none: Vec<MyPoint> = Vec::new();
    assert_eq!(calculate_points_wh(&none), None);
}

#[test]
fn detection_finds_four_corners() {
    let g = sheet();
    let info = LocationInfo::new((20, 20), false);
    let four = generate_location(&g, &info, &baizheng()).expect("four corners");
    let near = |a: Coordinate, x: i32, y: i32| (a.x - x).abs() <= 2 && (a.y - y).abs() <= 2 && a.w >= 18 && a.w <= 24;
    assert!(near(four[0], 10, 10), "{:?}", four);
    assert!(near(four[1], 170, 10), "{:?}", four);
    assert!(near(four[2], 10, 170), "{:?}", four);
    assert!(near(four[3], 170, 170), "{:?}", four);
    let args = vec![ProcessedImagesArgs::new(128, 0, 0)];
    let (located, three) = locate_fiducials(&g, &args, &info, &baizheng()).expect("located");
    assert_eq!(located, four);
    assert!(three.is_none());
}

#[test]
fn crop_pads_with_white() {
    let img = RgbRaster { width: 2, height: 1, pixels: vec![1, 2, 3, 4, 5, 6] };
    let out = crop_image(&img, &c(1, 0, 2, 2));
    assert_eq!((out.width, out.height), (2, 2));
    assert_eq!(out.pixels, vec![4, 5, 6, 255, 255, 255, 255, 255, 255, 255, 255, 255]);
}

#[test]
fn page_corners_by_columns() {
    let mp = |i: i32| ModelPoint { point_type: 0, coordinate: c(i, i, 1, 1) };
    let page = Page {
        card_columns: 2,
        model_size: ModelSize { w: 100, h: 200 },
        model_points: (0..8).map(mp).collect(),
        page_number_points: Vec::new(),
        assist_points: None,
        recognizes: Vec::new(),
        model_points_4: None,
    };
    let bad = Page { card_columns: 7, ..page.clone() };
    assert!(bad.renew().is_none());
    let renewed = page.renew().expect("corners");
    let corners = renewed.model_points_4.expect("set");
    assert_eq!(corners.map(|p| p.coordinate.x), [0, 2, 6, 7]);
    assert_eq!(renewed.model_size, ModelSize { w: 100, h: 200 });
    assert_eq!(renewed.model_points.len(), 8);
}

#[test]
fn whole_raster_otsu() {
    let g = raster(10, 10, &[c(0, 0, 5, 10)]);
    assert_eq!(otsu_level_and_variance(&g), (0, 16_256_250));
}

#[test]
fn levelling_pair_of_three() {
    // top-right, top-left (vertex), bottom-left: the vertex and top-right, left first
    let near = [c(100, 0, 20, 20), c(0, 0, 20, 20), c(0, 700, 20, 20)];
    assert_eq!(calculate_rotate_pair_with_3_coordinates(&near), (c(0, 0, 20, 20), c(100, 0, 20, 20)));
    // first corner far below the vertex: the last one is the neighbour
    let far = [c(0, 700, 20, 20), c(100, 0, 20, 20), c(0, 0, 20, 20)];
    assert_eq!(calculate_rotate_pair_with_3_coordinates(&far), (c(0, 0, 20, 20), c(100, 0, 20, 20)));
}

#[test]
fn no_candidate_gives_no_corners() {
    let g = raster(200, 200, &[]);
    let info = LocationInfo::new((20, 20), false);
    assert!(generate_location(&g, &info, &baizheng()).is_none());
}
