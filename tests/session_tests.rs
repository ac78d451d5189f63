use scan_recognition::config::{FillArgs, RecognitionType, TextBaseRate};
use scan_recognition::fill::{find_max_fillrate_in_neighborhood, finetune_rate, get_array_values_for_otsu, rec_black_fill};
use scan_recognition::geometry::Coordinate;
use scan_recognition::raster::{GrayRaster, IntegralImage};
use scan_recognition::session::{
    classify_group, group_kind, group_rates, input_statuses, is_blank_image, keep_refined, match_statuses,
    neighborhood_offsets, needs_quarter_turn, GroupKind,
};

fn c(x: i32, y: i32, w: i32, h: i32) -> Coordinate {
    Coordinate::new(x, y, w, h)
}

fn white_with(w: u32, h: u32, black: &[Coordinate]) -> GrayRaster {
    let mut pixels = vec![255u8; (w * h) as usize];
    for r in black {
        for y in r.y..r.y + r.h {
            for x in r.x..r.x + r.w {
                pixels[(y as u32 * w + x as u32) as usize] = 0;
            }
        }
    }
    GrayRaster { width: w, height: h, pixels }
}

fn args() -> FillArgs {
    FillArgs {
        all_fill_or_empty_min_var: 50_000,
        all_fill_var: 10_000,
        all_fill_otsu: 100,
        fill_same_max: 60,
        empty_same_max: 30,
        same_var: 100_000,
        same_var_exam_number: 100_000,
        otsu_black_fill_sep_weight_permille: 200,
        text_a: TextBaseRate { text: 'A', rate_permille: 100 },
        text_b: TextBaseRate { text: 'B', rate_permille: 50 },
        text_c: TextBaseRate { text: 'C', rate_permille: 0 },
        text_d: TextBaseRate { text: 'D', rate_permille: 0 },
    }
}

fn types() -> RecognitionType {
    RecognitionType {
        coordinate: 1,
        barcode: 2,
        black_fill: 3,
        number: 4,
        vx: 5,
        qrcode: 6,
        single_select: 7,
        multi_select: 8,
        exam_number: 9,
    }
}

#[test]
fn blank_pages_are_skipped() {
    let white = IntegralImage::of(&white_with(10, 10, &[]));
    assert!(is_blank_image(&white, 250));
    assert!(!is_blank_image(&white, 255));
    let half = IntegralImage::of(&white_with(10, 10, &[c(0, 0, 5, 10)]));
    assert!(!is_blank_image(&half, 200));
    let empty = IntegralImage::of(&GrayRaster { width: 0, height: 0, pixels: Vec::new() });
    assert!(is_blank_image(&empty, 0));
}

#[test]
fn orientation_and_refinement_rules() {
    assert!(needs_quarter_turn(100, 200, 300, 200));
    assert!(!needs_quarter_turn(100, 200, 200, 300));
    assert!(keep_refined(10, 9));
    assert!(!keep_refined(10, 10));
}

#[test]
fn statuses_follow_both_passes() {
    // images 0 and 2 matched as they came; 1 and 3 were turned, and only 3 matched then
    assert_eq!(match_statuses(&vec![true, false, true, false], &vec![false, true]), vec![0, 1, 0, 0]);
    assert_eq!(match_statuses(&vec![], &vec![]), Vec::<u8>::new());
}

#[test]
fn group_kinds() {
    let t = types();
    assert_eq!(group_kind(7, &t), GroupKind::Fill);
    assert_eq!(group_kind(9, &t), GroupKind::ExamNumber);
    assert_eq!(group_kind(6, &t), GroupKind::Code);
    assert_eq!(group_kind(1, &t), GroupKind::Coordinate);
    assert_eq!(group_kind(5, &t), GroupKind::Unread);
}

#[test]
fn option_fill_rates() {
    let g = white_with(30, 10, &[c(2, 2, 4, 4)]);
    let ii = IntegralImage::of(&g);
    // shifted by one pixel the box lies on the black square
    assert_eq!(find_max_fillrate_in_neighborhood(&ii, &c(3, 3, 4, 4), 0, 2), 1000);
    assert_eq!(find_max_fillrate_in_neighborhood(&ii, &c(20, 2, 4, 4), 0, 2), 0);
    assert_eq!(finetune_rate(800, Some('A'), &args()), 700);
    assert_eq!(finetune_rate(800, Some('Z'), &args()), 800);
    assert_eq!(finetune_rate(800, None, &args()), 800);
    assert_eq!(rec_black_fill(&ii, &c(2, 2, 4, 4), Some('B'), &args(), 0), 950);
    assert_eq!(rec_black_fill(&ii, &c(20, 2, 4, 4), Some('A'), &args(), 0), 0);
    let rates = group_rates(&ii, &vec![c(2, 2, 4, 4), c(20, 2, 4, 4)], &vec![None, None], &args(), 0);
    assert_eq!(rates, vec![1000, 0]);
    assert_eq!(get_array_values_for_otsu(&rates), vec![100, 0]);
}

#[test]
fn statuses_in_input_order() {
    // inputs 0 and 3 were registered (as 0 and 1); 1 did not decode, 2 was blank
    let registered = vec![Some(0), None, None, Some(1)];
    assert_eq!(input_statuses(&registered, &vec![1, 0]), vec![1, 1, 1, 0]);
}

#[test]
fn offsets_of_a_square() {
    assert_eq!(neighborhood_offsets(1), vec![(-1, -1), (-1, 0), (-1, 1), (0, -1), (0, 0), (0, 1), (1, -1), (1, 0), (1, 1)]);
    assert_eq!(neighborhood_offsets(0), vec![(0, 0)]);
}

#[test]
fn classify_a_fill_group() {
    let g = white_with(40, 20, &[c(2, 2, 6, 6)]);
    let ii = IntegralImage::of(&g);
    let rects = vec![c(2, 2, 6, 6), c(12, 2, 6, 6), c(22, 2, 6, 6)];
    let labels = vec![None, None, None];
    let filled = classify_group(&g, &ii, &rects, &labels, &args(), 0, 100_000, Some(128));
    assert_eq!(filled, vec![true, false, false]);
    // an option leaving the raster: plain rates decide
    let out = vec![c(2, 2, 6, 6), c(38, 2, 6, 6)];
    let filled2 = classify_group(&g, &ii, &out, &vec![None, None], &args(), 0, 100_000, None);
    assert_eq!(filled2, vec![true, false]);
}
