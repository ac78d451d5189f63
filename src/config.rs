//! Runtime parameters. Every threshold that the recognition steps use comes
//! from here; ratios are held as integers in the unit their name gives.
use vstd::prelude::*;

verus! {

/// One set of binarization and morphology kernel parameters.
#[derive(Debug, Clone, Copy, PartialEq, Eq, Structural)]
pub struct ProcessedImagesArgs {
    pub binarization_threshold: u8,
    pub erode_kernel: u8,
    pub morphology_kernel: u8,
}

impl ProcessedImagesArgs {
    pub fn new(binarization_threshold: u8, erode_kernel: u8, morphology_kernel: u8) -> (r: Self)
        ensures
            r.binarization_threshold == binarization_threshold,
            r.erode_kernel == erode_kernel,
            r.morphology_kernel == morphology_kernel,
    {
        Self { binarization_threshold, erode_kernel, morphology_kernel }
    }
}

/// A per-letter correction of the fill rate of an option, in per mille.
#[derive(Debug, Clone, Copy, PartialEq, Eq, Structural)]
pub struct TextBaseRate {
    pub text: char,
    pub rate_permille: i32,
}

/// Parameters of the fill classifier. Variances are those of fill rates in
/// percent, in thousandths of percent squared; weights are in per mille.
#[derive(Debug, Clone, Copy, PartialEq, Eq, Structural)]
pub struct FillArgs {
    pub all_fill_or_empty_min_var: i64,
    pub all_fill_var: i64,
    pub all_fill_otsu: u8,
    pub fill_same_max: u8,
    pub empty_same_max: u8,
    pub same_var: i64,
    pub same_var_exam_number: i64,
    pub otsu_black_fill_sep_weight_permille: i64,
    pub text_a: TextBaseRate,
    pub text_b: TextBaseRate,
    pub text_c: TextBaseRate,
    pub text_d: TextBaseRate,
}

/// Image preprocessing parameters.
#[derive(Debug, Clone)]
pub struct ImageProcess {
    pub gaussian_blur_sigma_milli: u32,
    pub retry_args: Vec<ProcessedImagesArgs>,
    /// An image whose mean binarized grey level is above this is blank.
    pub empty_image_threshold: i64,
    pub fill_args: FillArgs,
}

/// Parameters of fiducial detection, validation, refinement and matching.
#[derive(Debug, Clone, Copy, PartialEq, Eq, Structural)]
pub struct ImageBaizheng {
    /// Largest mean absolute difference of page-number fill rates, per mille.
    pub page_number_diff_permille: i64,
    /// Smallest cosine similarity of a candidate's (w, h) with the template's,
    /// scaled by `COS_SCALE`.
    pub model_point_wh_cosine_similarity: i64,
    /// Largest absolute cosine of a corner angle that still counts as a right
    /// angle, scaled by `COS_SCALE` (the sine of the angle tolerance).
    pub model_points_right_angle_max_cos: i64,
    pub model_point_min_wh: i32,
    pub model_point_max_wh: i32,
    pub model_point_diff: i32,
    /// Smallest area spanned by each diagonal pair of fiducials.
    pub model_point_min_area: i64,
    pub model_point_scan_range: i32,
    pub assist_point_scan_range: i32,
    pub assist_point_min_distance: i32,
    pub assist_point_max_distance: i32,
    pub model_point_min_distance: i32,
    pub model_point_max_distance: i32,
    pub assist_point_nearby_length: i32,
    pub area_assist_point_nearby_length: i32,
    pub area_assist_point_nearby_step: i32,
    pub area_assist_point_nearby_retry: u8,
    /// Cosine similarity above which a fiducial is never an outlier, scaled
    /// by `COS_SCALE`.
    pub valid_coordinates4_cosine_similarity: i64,
    pub valid_coordinates_wh_sum_mean_dis: i64,
}

/// Choice of the fiducial pair that anchors a mapped rectangle.
#[derive(Debug, Clone, Copy, PartialEq, Eq, Structural)]
pub struct Location {
    /// Fraction, in per mille, of the way from the top to the bottom
    /// fiducials at and below which the bottom pair anchors.
    pub select_model_point_cal_real_coor_y_boundary_permille: i32,
}

/// Parameters of fill measurement.
#[derive(Debug, Clone, Copy, PartialEq, Eq, Structural)]
pub struct ImageBlackFill {
    pub neighborhood_size: u8,
    pub neighborhood_size_exam_number: u8,
    pub image_type: u8,
    pub min_filled_ratio_permille: i32,
}

/// Tags of the answer-region group types.
#[derive(Debug, Clone, Copy, PartialEq, Eq, Structural)]
pub struct RecognitionType {
    pub coordinate: u8,
    pub barcode: u8,
    pub black_fill: u8,
    pub number: u8,
    pub vx: u8,
    pub qrcode: u8,
    pub single_select: u8,
    pub multi_select: u8,
    pub exam_number: u8,
}

/// All runtime parameters.
#[derive(Debug, Clone)]
pub struct Config {
    pub image_process: ImageProcess,
    pub image_baizheng: ImageBaizheng,
    pub image_blackfill: ImageBlackFill,
    pub recognize_type: RecognitionType,
    pub location: Location,
}

} // verus!
