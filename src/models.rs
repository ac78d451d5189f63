//! The template (scan layout), the recognition inputs and outputs, and the
//! per-photograph raster bundle.
use vstd::prelude::*;
use crate::geometry::{AssistPoint, Coordinate, ModelPoint, ModelSize};
use crate::matching::PageNumberPoint;
use crate::raster::{GrayRaster, IntegralImage};

verus! {

/// A recognized or expected option value. Fill rates are in per mille.
#[derive(Debug, Clone, PartialEq, Eq)]
pub enum Value {
    String(String),
    Integer(i32),
    Rate(i64),
}

impl Value {
    pub fn to_i32(&self) -> (r: Option<i32>)
        ensures
            r == (match self {
                Value::Integer(i) => Some(*i),
                _ => None,
            }),
    {
        match self {
            Value::Integer(i) => Some(*i),
            _ => None,
        }
    }

    pub fn to_rate(&self) -> (r: Option<i64>)
        ensures
            r == (match self {
                Value::Rate(f) => Some(*f),
                _ => None,
            }),
    {
        match self {
            Value::Rate(f) => Some(*f),
            _ => None,
        }
    }

    pub fn to_string(&self) -> (r: Option<String>)
        ensures
            r.is_some() == (self is String),
            r.is_some() ==> r.unwrap()@ == self->String_0@,
    {
        match self {
            Value::String(s) => Some(s.clone()),
            _ => None,
        }
    }
}

/// One option of an answer group: its template rectangle and an optional
/// expected label.
#[derive(Debug, Clone)]
pub struct Item {
    pub value: Option<Value>,
    pub coordinate: Coordinate,
}

/// An answer group of a template page.
#[derive(Debug, Clone)]
pub struct Recognition {
    pub rec_id: String,
    pub rec_type: u8,
    pub options: Vec<Item>,
}

/// A template page.
#[derive(Debug, Clone)]
pub struct Page {
    pub card_columns: u8,
    pub model_size: ModelSize,
    pub model_points: Vec<ModelPoint>,
    pub page_number_points: Vec<PageNumberPoint>,
    pub assist_points: Option<Vec<AssistPoint>>,
    pub recognizes: Vec<Recognition>,
    pub model_points_4: Option<[ModelPoint; 4]>,
}

/// Index of the top-right and bottom-left fiducials among a page's fiducials,
/// by the page's number of answer columns.
pub open spec fn corner_indices(card_columns: u8) -> Option<(int, int)> {
    if card_columns == 1 {
        Some((1, 4))
    } else if card_columns == 2 {
        Some((2, 6))
    } else if card_columns == 3 {
        Some((3, 8))
    } else if card_columns == 4 {
        Some((4, 10))
    } else {
        None
    }
}

/// The page's four corner fiducials (top-left, top-right, bottom-left,
/// bottom-right): the first, the last, and two chosen by the number of
/// answer columns; none for an unknown column count or too few fiducials.
pub open spec fn page_corners(points: Seq<ModelPoint>, card_columns: u8) -> Option<Seq<ModelPoint>> {
    match corner_indices(card_columns) {
        None => None,
        Some((rt, ld)) => if points.len() > ld && points.len() >= 4 {
            Some(seq![points[0], points[rt], points[ld], points[points.len() - 1]])
        } else {
            None
        },
    }
}

impl Page {
    /// The page with its four corner fiducials derived (see
    /// `page_corners`) and every other field kept; none when the template
    /// cannot give them.
    pub fn renew(self) -> (r: Option<Page>)
        ensures
            r.is_some() == page_corners(self.model_points@, self.card_columns).is_some(),
            r.is_some() ==> r.unwrap().model_points_4.is_some() && r.unwrap().model_points_4.unwrap()@
                == page_corners(self.model_points@, self.card_columns).unwrap(),
            r.is_some() ==> r.unwrap() == (Page { model_points_4: r.unwrap().model_points_4, ..self }),
    {
        let (rt, ld): (usize, usize) = if self.card_columns == 1 {
            (1, 4)
        } else if self.card_columns == 2 {
            (2, 6)
        } else if self.card_columns == 3 {
            (3, 8)
        } else if self.card_columns == 4 {
            (4, 10)
        } else {
            return None;
        };
        let n = self.model_points.len();
        if !(n > ld && n >= 4) {
            return None;
        }
        let corners = [self.model_points[0], self.model_points[rt], self.model_points[ld], self.model_points[n - 1]];
        assert(corners@ =~= page_corners(self.model_points@, self.card_columns).unwrap());
        Some(Page { model_points_4: Some(corners), ..self })
    }
}

/// The template: its pages and the detection mode.
#[derive(Debug, Clone)]
pub struct InputScan {
    pub pages: Vec<Page>,
    pub is_in_seal: bool,
    pub card_type: u8,
}

impl InputScan {
    /// The template with the corner fiducials of every page derived (each
    /// page otherwise kept); none when a page cannot give them.
    pub fn renew(self) -> (r: Option<InputScan>)
        ensures
            r.is_some() == (forall|i: int|
                0 <= i < self.pages@.len() ==> #[trigger] page_corners(
                    self.pages@[i].model_points@,
                    self.pages@[i].card_columns,
                ).is_some()),
            r.is_some() ==> r.unwrap().pages@.len() == self.pages@.len(),
            r.is_some() ==> r.unwrap().is_in_seal == self.is_in_seal && r.unwrap().card_type == self.card_type,
            r.is_some() ==> forall|i: int|
                0 <= i < self.pages@.len() ==> (#[trigger] r.unwrap().pages@[i]).model_points_4.is_some()
                    && r.unwrap().pages@[i].model_points_4.unwrap()@ == page_corners(
                    self.pages@[i].model_points@,
                    self.pages@[i].card_columns,
                ).unwrap() && r.unwrap().pages@[i] == (Page {
                    model_points_4: r.unwrap().pages@[i].model_points_4,
                    ..self.pages@[i]
                }),
    {
        let ghost old_pages = self.pages@;
        let is_in_seal = self.is_in_seal;
        let card_type = self.card_type;
        let mut rest = self.pages;
        let mut pages: Vec<Page> = Vec::new();
        assert(rest@ =~= old_pages.subrange(0, old_pages.len() as int));
        let n = rest.len();
        let mut i: usize = 0;
        while i < n
            invariant
                old_pages == self.pages@,
                n == old_pages.len(),
                i <= old_pages.len(),
                pages@.len() == i,
                rest@ =~= old_pages.subrange(i as int, old_pages.len() as int),
                forall|k: int|
                    0 <= k < i ==> #[trigger] page_corners(old_pages[k].model_points@, old_pages[k].card_columns).is_some(),
                forall|k: int|
                    0 <= k < i ==> (#[trigger] pages@[k]).model_points_4.is_some()
                        && pages@[k].model_points_4.unwrap()@ == page_corners(
                        old_pages[k].model_points@,
                        old_pages[k].card_columns,
                    ).unwrap() && pages@[k] == (Page { model_points_4: pages@[k].model_points_4, ..old_pages[k] }),
            decreases old_pages.len() - i,
        {
            assert(rest@.len() > 0);
            let page = rest.remove(0);
            assert(page == old_pages[i as int]);
            assert(rest@ =~= old_pages.subrange(i as int + 1, old_pages.len() as int));
            match page.renew() {
                None => {
                    assert(page_corners(old_pages[i as int].model_points@, old_pages[i as int].card_columns).is_none());
                    return None;
                },
                Some(p) => {
                    pages.push(p);
                },
            }
            i = i + 1;
        }
        Some(InputScan { pages, is_in_seal, card_type })
    }
}

/// A batch of photographs to recognize.
#[derive(Debug, Clone)]
pub struct InputImage {
    pub task_id: String,
    pub images: Vec<String>,
    pub calling_type: Option<u8>,
}

/// Outcome of one input photograph: 0 matched, 1 not matched or not
/// registered.
#[derive(Debug, Clone)]
pub struct ImageStatus {
    pub image_source: String,
    pub code: u8,
}

/// Why a photograph could not be registered.
#[derive(Debug, Clone, Copy, PartialEq, Eq, Structural)]
pub enum MyError {
    ErrorModelPointNotFound,
}

impl MyError {
    pub fn message(&self) -> (r: String) {
        String::from_str("model points not found")
    }
}

/// The rasters derived from one photograph.
#[derive(Debug, Clone)]
pub struct ProcessedImages {
    /// The photograph as it came, for the caller.
    pub org: Option<String>,
    /// Width, height and RGB bytes of the colour raster.
    pub rgb: RgbRaster,
    /// The blurred grey raster.
    pub blur: GrayRaster,
    /// The morphological raster.
    pub morphology: GrayRaster,
    /// Summed-area table of the binarized blurred raster.
    pub integral_gray: IntegralImage,
    /// Summed-area table of the morphological raster.
    pub integral_morphology: IntegralImage,
}

/// A colour raster, three bytes a pixel, row by row.
#[derive(Debug, Clone)]
pub struct RgbRaster {
    pub width: u32,
    pub height: u32,
    pub pixels: Vec<u8>,
}

impl RgbRaster {
    pub open spec fn wf(&self) -> bool {
        &&& self.width <= crate::geometry::PIXEL_LIMIT
        &&& self.height <= crate::geometry::PIXEL_LIMIT
        &&& self.pixels@.len() == 3 * (self.width * self.height)
    }
}

/// A registered photograph and its four fiducials.
#[derive(Debug, Clone)]
pub struct ProcessedImagesAndModelPoints {
    pub img: ProcessedImages,
    pub real_model_points: [Coordinate; 4],
}

/// Colour channel `ch` of the pixel of the crop at (`x`, `y`): the source
/// pixel where it lies inside the raster, else white.
pub open spec fn cropped_byte(img: RgbRaster, c: Coordinate, x: int, y: int, ch: int) -> u8 {
    let sx = c.x + x;
    let sy = c.y + y;
    if 0 <= sx < img.width && 0 <= sy < img.height {
        img.pixels@[3 * (sy * img.width + sx) + ch]
    } else {
        255u8
    }
}

/// Crops rectangle `coordinate` out of a colour raster; pixels outside the
/// raster come out white.
pub fn crop_image(input_image: &RgbRaster, coordinate: &Coordinate) -> (r: RgbRaster)
    requires
        input_image.wf(),
        coordinate.in_range(),
        0 <= coordinate.w,
        0 <= coordinate.h,
    ensures
        r.width == coordinate.w,
        r.height == coordinate.h,
        r.wf(),
        forall|y: int, x: int, ch: int|
            0 <= y < r.height && 0 <= x < r.width && 0 <= ch < 3 ==> #[trigger] r.pixels@[3 * (y
                * r.width + x) + ch] == cropped_byte(*input_image, *coordinate, x, y, ch),
{
    let w = coordinate.w as u64;
    let h = coordinate.h as u64;
    proof {
        assert(w * h <= 0x100_0000_0000) by (nonlinear_arith)
            requires
                w <= 0x10_0000,
                h <= 0x10_0000,
        ;
    }
    let total: u64 = 3 * (w * h);
    let mut out: Vec<u8> = Vec::new();
    let mut k: u64 = 0;
    while k < total
        invariant
            input_image.wf(),
            coordinate.in_range(),
            w == coordinate.w,
            h == coordinate.h,
            total == 3 * (w * h),
            total <= 0x300_0000_0000,
            k <= total,
            out@.len() == k,
            forall|q: int|
                0 <= q < k ==> #[trigger] out@[q] == cropped_byte(
                    *input_image,
                    *coordinate,
                    (q / 3) % (w as int),
                    (q / 3) / (w as int),
                    q % 3,
                ),
        decreases total - k,
    {
        let p = k / 3;
        let ch = k % 3;
        proof {
            assert(w >= 1) by (nonlinear_arith)
                requires
                    k < 3 * (w * h),
            ;
        }
        let x = p % w;
        let y = p / w;
        let sx = coordinate.x as i64 + x as i64;
        let sy = coordinate.y as i64 + y as i64;
        proof {
            vstd::arithmetic::div_mod::lemma_fundamental_div_mod(p as int, w as int);
            vstd::arithmetic::div_mod::lemma_fundamental_div_mod(k as int, 3);
            assert(y <= 0x100_0000_0000);
        }
        let b: u8 = if 0 <= sx && sx < input_image.width as i64 && 0 <= sy && sy < input_image.height as i64 {
            proof {
                assert(3 * (sy * input_image.width + sx) + ch < 3 * (input_image.width * input_image.height)) by (nonlinear_arith)
                    requires
                        0 <= sx < input_image.width,
                        0 <= sy < input_image.height,
                        0 <= ch < 3,
                ;
                assert(sy * input_image.width <= 0x10_0000 * 0x10_0000) by (nonlinear_arith)
                    requires
                        0 <= sy < input_image.height,
                        input_image.height <= 0x10_0000,
                        input_image.width <= 0x10_0000,
                ;
            }
            let idx: u64 = 3 * ((sy as u64) * (input_image.width as u64) + sx as u64) + ch;
            let n = input_image.pixels.len();
            assert(idx < n);
            input_image.pixels[idx as usize]
        } else {
            255
        };
        out.push(b);
        k = k + 1;
    }
    let r = RgbRaster { width: coordinate.w as u32, height: coordinate.h as u32, pixels: out };
    proof {
        assert forall|y: int, x: int, ch: int|
            0 <= y < r.height && 0 <= x < r.width && 0 <= ch < 3 implies #[trigger] r.pixels@[3 * (y
                * r.width + x) + ch] == cropped_byte(*input_image, *coordinate, x, y, ch) by {
            let q = 3 * (y * r.width + x) + ch;
            assert(0 <= y * r.width + x < w * h) by (nonlinear_arith)
                requires
                    0 <= y < h,
                    0 <= x < w,
                    r.width == w,
            ;
            vstd::arithmetic::div_mod::lemma_fundamental_div_mod_converse(q, 3, y * r.width + x, ch);
            vstd::arithmetic::div_mod::lemma_fundamental_div_mod_converse(y * r.width + x, w as int, y, x);
        }
    }
    r
}

} // verus!
