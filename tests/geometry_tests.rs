use scan_recognition::config::{ImageBaizheng, Location};
use scan_recognition::geometry::{
    calculate_points_center, rotate_model_points_180, trunc_div, Coordinate, ModelPoint, MyPoint,
};
use scan_recognition::mapping::{
    find_move_op, fix_coordinate_use_assist_points, generate_move_op,
    generate_real_coordinate_with_model_points, MoveOperation, ReferenceModelPoints,
};
use scan_recognition::numeric::{floor_div, isqrt};
use scan_recognition::validate::{
    coordinates4_is_valid, corner_cos, cosine_similarity, find_3_valid_coordinates,
    get_sort_coordinates, predict_model_points_with_3_coordinate, LocationInfo,
};

fn baizheng() -> ImageBaizheng {
    ImageBaizheng {
        page_number_diff_permille: 200,
        model_point_wh_cosine_similarity: 900_000,
        model_points_right_angle_max_cos: 50_000,
        model_point_min_wh: 10,
        model_point_max_wh: 40,
        model_point_diff: 5,
        model_point_min_area: 5000,
        model_point_scan_range: 3,
        assist_point_scan_range: 3,
        assist_point_min_distance: 2,
        assist_point_max_distance: 40,
        model_point_min_distance: 5,
        model_point_max_distance: 60,
        assist_point_nearby_length: 1,
        area_assist_point_nearby_length: 2,
        area_assist_point_nearby_step: 1,
        area_assist_point_nearby_retry: 1,
        valid_coordinates4_cosine_similarity: 999_000,
        valid_coordinates_wh_sum_mean_dis: 5,
    }
}

fn c(x: i32, y: i32, w: i32, h: i32) -> Coordinate {
    Coordinate::new(x, y, w, h)
}

fn square() -> [Coordinate; 4] {
    [c(0, 0, 20, 20), c(100, 0, 20, 20), c(0, 100, 20, 20), c(100, 100, 20, 20)]
}

fn info() -> LocationInfo {
    LocationInfo::new((20, 20), false)
}

#[test]
fn isqrt_and_floor_div_exact() {
    assert_eq!(isqrt(0), 0);
    assert_eq!(isqrt(15), 3);
    assert_eq!(isqrt(16), 4);
    assert_eq!(isqrt(1_000_000_000_000), 1_000_000);
    assert_eq!(floor_div(7, 2), 3);
    assert_eq!(floor_div(-7, 2), -4);
    assert_eq!(floor_div(-8, 2), -4);
    assert_eq!(trunc_div(-7, 2), -3);
}

#[test]
fn cosine_values() {
    assert_eq!(cosine_similarity(20, 20, 20, 20), 1_000_000);
    assert_eq!(cosine_similarity(1, 0, 0, 1), 0);
    assert_eq!(cosine_similarity(1, 0, -1, 0), -1_000_000);
    assert_eq!(cosine_similarity(0, 0, 3, 4), 0);
    // cos 45 degrees = 0.7071067...
    assert_eq!(cosine_similarity(1, 1, 1, 0), 707_106);
    assert_eq!(corner_cos(&c(0, 100, 1, 1), &c(0, 0, 1, 1), &c(100, 0, 1, 1)), 0);
    assert_eq!(corner_cos(&c(0, 0, 1, 1), &c(0, 0, 1, 1), &c(100, 0, 1, 1)), 1_000_000);
}

#[test]
fn points_center_truncates() {
    let pts = vec![MyPoint::new(0, 0), MyPoint::new(3, -3), MyPoint::new(4, -4)];
    assert_eq!(calculate_points_center(&pts), Some((2, -2)));
    let none: Vec<MyPoint> = Vec::new();
    assert_eq!(calculate_points_center(&none), None);
}

#[test]
fn half_turn_twice_restores_fiducials() {
    let before = [c(10, 12, 20, 21), c(170, 11, 19, 20), c(9, 170, 20, 20), c(171, 169, 21, 20)];
    let mut pts = before;
    let center = MyPoint::new(100, 100);
    rotate_model_points_180(&mut pts, center);
    // the old bottom-right corner (171, 169) + (21, 20) turns into the new top-left
    assert_eq!(pts[0], c(200 - 192, 200 - 189, 21, 20));
    assert_eq!(pts[3], c(200 - 30, 200 - 33, 20, 21));
    rotate_model_points_180(&mut pts, center);
    assert_eq!(pts, before);
}

fn refs_identity() -> ReferenceModelPoints {
    let s = square();
    ReferenceModelPoints {
        model_points: [
            ModelPoint { point_type: 0, coordinate: s[0] },
            ModelPoint { point_type: 0, coordinate: s[1] },
            ModelPoint { point_type: 0, coordinate: s[2] },
            ModelPoint { point_type: 0, coordinate: s[3] },
        ],
        real_model_points: s,
    }
}

#[test]
fn mapping_identity() {
    let refs = refs_identity();
    let loc = Location { select_model_point_cal_real_coor_y_boundary_permille: 500 };
    for r in [c(5, 7, 11, 13), c(90, 95, 4, 4), c(-3, 40, 0, 2)] {
        assert_eq!(generate_real_coordinate_with_model_points(&refs, &r, true, None, &loc), r);
        assert_eq!(generate_real_coordinate_with_model_points(&refs, &r, false, None, &loc), r);
        assert_eq!(generate_real_coordinate_with_model_points(&refs, &r, false, Some(90), &loc), r);
    }
}

fn refs_scaled() -> ReferenceModelPoints {
    let mut refs = refs_identity();
    // photograph at twice the size, shifted by (30, 40); y scale 3/2
    refs.real_model_points = [c(30, 40, 40, 40), c(230, 40, 40, 40), c(30, 190, 40, 40), c(230, 190, 40, 40)];
    refs
}

#[test]
fn mapping_scales_and_anchors() {
    let refs = refs_scaled();
    let loc = Location { select_model_point_cal_real_coor_y_boundary_permille: 500 };
    let r = generate_real_coordinate_with_model_points(&refs, &c(10, 20, 5, 6), true, None, &loc);
    assert_eq!(r, c(50, 70, 10, 9));
    // below the boundary the bottom-left fiducial anchors: same result for an exact map
    let low = generate_real_coordinate_with_model_points(&refs, &c(10, 80, 5, 6), false, None, &loc);
    assert_eq!(low, c(50, 160, 10, 9));
}

#[test]
fn mapping_rounds_toward_zero() {
    let m = |x, y| ModelPoint { point_type: 0, coordinate: c(x, y, 1, 1) };
    let refs = ReferenceModelPoints {
        model_points: [m(0, 0), m(100, 0), m(0, 100), m(100, 100)],
        real_model_points: [c(0, 0, 1, 1), c(50, 0, 1, 1), c(0, 50, 1, 1), c(50, 50, 1, 1)],
    };
    let loc = Location { select_model_point_cal_real_coor_y_boundary_permille: 500 };
    // -3 / 2 = -1.5 truncates to -1; 3 / 2 = 1.5 to 1
    let r = generate_real_coordinate_with_model_points(&refs, &c(-3, 3, 3, 5), true, None, &loc);
    assert_eq!(r, c(-1, 1, 1, 2));
}

#[test]
fn mapping_midpoint_is_midpoint_of_images() {
    let refs = refs_scaled();
    let loc = Location { select_model_point_cal_real_coor_y_boundary_permille: 500 };
    let a = c(3, 5, 7, 9);
    let b = c(11, 21, 3, 5);
    let m = c(7, 13, 5, 7);
    let ma = generate_real_coordinate_with_model_points(&refs, &a, true, None, &loc);
    let mb = generate_real_coordinate_with_model_points(&refs, &b, true, None, &loc);
    let mm = generate_real_coordinate_with_model_points(&refs, &m, true, None, &loc);
    assert!((2 * mm.x - ma.x - mb.x).abs() <= 1);
    assert!((2 * mm.y - ma.y - mb.y).abs() <= 1);
    assert!((2 * mm.w - ma.w - mb.w).abs() <= 1);
    assert!((2 * mm.h - ma.h - mb.h).abs() <= 1);
}

#[test]
fn square_passes_validation() {
    assert!(coordinates4_is_valid(&square(), &info(), &baizheng()));
}

#[test]
fn perturbed_corner_fails_validation() {
    let mut s = square();
    s[3].x += 6;
    assert!(!coordinates4_is_valid(&s, &info(), &baizheng()));
    let mut t = square();
    t[3].x += 5;
    assert!(coordinates4_is_valid(&t, &info(), &baizheng()));
}

#[test]
fn duplicate_or_small_sets_fail_validation() {
    let mut s = square();
    s[1] = s[0];
    assert!(!coordinates4_is_valid(&s, &info(), &baizheng()));
    let small = [c(0, 0, 20, 20), c(50, 0, 20, 20), c(0, 50, 20, 20), c(50, 50, 20, 20)];
    assert!(!coordinates4_is_valid(&small, &info(), &baizheng()));
}

#[test]
fn three_point_repair_restores_corner() {
    let mut s = square();
    s[3] = c(180, 160, 5, 5);
    assert!(!coordinates4_is_valid(&s, &info(), &baizheng()));
    let three = find_3_valid_coordinates(&s, &info(), &baizheng()).expect("three corners");
    assert_eq!(three, [c(100, 0, 20, 20), c(0, 0, 20, 20), c(0, 100, 20, 20)]);
    let four = predict_model_points_with_3_coordinate(&three);
    assert_eq!(four, square());
    assert!(coordinates4_is_valid(&four, &info(), &baizheng()));
}

#[test]
fn sort_orders_corners() {
    let mixed = [c(100, 100, 1, 1), c(0, 100, 1, 1), c(100, 0, 1, 1), c(0, 0, 1, 1)];
    assert_eq!(get_sort_coordinates(mixed), [c(0, 0, 1, 1), c(100, 0, 1, 1), c(0, 100, 1, 1), c(100, 100, 1, 1)]);
}

#[test]
fn move_operation_translates_and_rotates() {
    let op = generate_move_op([c(0, 0, 5, 5), c(100, 0, 5, 5)], [c(10, 20, 5, 5), c(110, 20, 5, 5)]);
    assert_eq!((op.move_x, op.move_y), (10, 20));
    assert_eq!(op.center, MyPoint::new(10, 20));
    assert_eq!((op.cos_num, op.sin_num, op.den), (10000, 0, 10000));
    let mut r = c(50, 60, 7, 8);
    fix_coordinate_use_assist_points(&mut r, Some(&op));
    assert_eq!(r, c(60, 80, 7, 8));
    let mut same = c(50, 60, 7, 8);
    fix_coordinate_use_assist_points(&mut same, None);
    assert_eq!(same, c(50, 60, 7, 8));
    // a quarter turn about (0, 0): (10, 0) -> (0, 10)
    let quarter = generate_move_op([c(0, 0, 1, 1), c(10, 0, 1, 1)], [c(0, 0, 1, 1), c(0, 10, 1, 1)]);
    assert_eq!((quarter.cos_num, quarter.sin_num, quarter.den), (0, 100, 100));
    let mut p = c(10, 0, 1, 1);
    fix_coordinate_use_assist_points(&mut p, Some(&quarter));
    assert_eq!(p, c(0, 10, 1, 1));
    let ops: Vec<(i32, MoveOperation)> = vec![(5, op), (9, quarter)];
    assert_eq!(find_move_op(&ops, 9), Some(quarter));
    assert_eq!(find_move_op(&ops, 6), None);
    // a row recorded twice keeps its last operation
    let again: Vec<(i32, MoveOperation)> = vec![(5, op), (9, quarter), (5, quarter)];
    assert_eq!(find_move_op(&again, 5), Some(quarter));
}
