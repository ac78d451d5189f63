//! Grey rasters, their summed-area tables, and fill measurement over
//! rectangles.
use vstd::prelude::*;
use crate::config::ProcessedImagesArgs;
use crate::geometry::{Coordinate, PIXEL_LIMIT};

verus! {

/// A grey raster, row by row.
#[derive(Debug, Clone)]
pub struct GrayRaster {
    pub width: u32,
    pub height: u32,
    pub pixels: Vec<u8>,
}

impl GrayRaster {
    pub open spec fn wf(&self) -> bool {
        &&& self.width <= PIXEL_LIMIT
        &&& self.height <= PIXEL_LIMIT
        &&& self.pixels@.len() == self.width * self.height
    }
}

/// Sum of the first `x` pixels of row `row`.
pub open spec fn row_prefix(px: Seq<u8>, w: int, row: int, x: int) -> int
    decreases x,
{
    if x <= 0 {
        0
    } else {
        row_prefix(px, w, row, x - 1) + px[row * w + x - 1] as int
    }
}

/// Sum of the pixels left of column `x` and above row `y`.
pub open spec fn region_sum(px: Seq<u8>, w: int, x: int, y: int) -> int
    decreases y,
{
    if y <= 0 {
        0
    } else {
        region_sum(px, w, x, y - 1) + row_prefix(px, w, y - 1, x)
    }
}

/// Relies on imageproc::integral_image::integral_image: a table one entry
/// wider and taller than the raster, row by row, whose entry (x, y) is the
/// sum of the pixels left of column x and above row y.
#[verifier::external_body]
fn integral_table(r: &GrayRaster) -> (t: Vec<i64>)
    requires
        r.wf(),
    ensures
        t@.len() == (r.width + 1) * (r.height + 1),
        forall|x: int, y: int|
            0 <= x <= r.width && 0 <= y <= r.height ==> t@[y * (r.width + 1) + x]
                == #[trigger] region_sum(r.pixels@, r.width as int, x, y),
{
    let img = image::GrayImage::from_raw(r.width, r.height, r.pixels.clone()).unwrap();
    let table: image::ImageBuffer<image::Luma<i64>, Vec<i64>> =
        imageproc::integral_image::integral_image(&img);
    table.into_raw()
}

/// The summed-area table of a grey raster of `width` by `height` pixels.
#[derive(Debug, Clone)]
pub struct IntegralImage {
    pub width: u32,
    pub height: u32,
    pub table: Vec<i64>,
}

impl IntegralImage {
    pub open spec fn wf(&self) -> bool {
        &&& self.width <= PIXEL_LIMIT
        &&& self.height <= PIXEL_LIMIT
        &&& self.table@.len() == (self.width + 1) * (self.height + 1)
    }

    /// Entry (x, y) of the table.
    pub open spec fn at(&self, x: int, y: int) -> int {
        self.table@[y * (self.width + 1) + x] as int
    }

    /// The summed-area table of `r`.
    pub fn of(r: &GrayRaster) -> (ii: IntegralImage)
        requires
            r.wf(),
        ensures
            ii.wf(),
            ii.width == r.width,
            ii.height == r.height,
            forall|x: int, y: int|
                0 <= x <= r.width && 0 <= y <= r.height ==> ii.at(x, y) == #[trigger] region_sum(
                    r.pixels@,
                    r.width as int,
                    x,
                    y,
                ),
    {
        let table = integral_table(r);
        IntegralImage { width: r.width, height: r.height, table }
    }

    /// Sum of the pixels in columns `[l, r]` and rows `[t, b]`.
    pub open spec fn box_sum(&self, l: int, t: int, r: int, b: int) -> int {
        self.at(r + 1, b + 1) + self.at(l, t) - self.at(r + 1, t) - self.at(l, b + 1)
    }

    /// The rectangle lies inside the raster and is not empty.
    pub open spec fn inside(&self, c: Coordinate) -> bool {
        &&& 0 <= c.x
        &&& 0 <= c.y
        &&& 1 <= c.w
        &&& 1 <= c.h
        &&& c.x + c.w <= self.width
        &&& c.y + c.h <= self.height
    }

    fn entry(&self, x: u32, y: u32) -> (v: i64)
        requires
            self.wf(),
            x <= self.width,
            y <= self.height,
        ensures
            v == self.at(x as int, y as int),
    {
        proof {
            assert(y * (self.width + 1) <= 0x100_0000 * 0x100_0000) by (nonlinear_arith)
                requires
                    y <= 0x10_0000,
                    self.width + 1 <= 0x10_0001,
            ;
        }
        let idx: u64 = (y as u64) * (self.width as u64 + 1) + x as u64;
        proof {
            assert(y * (self.width + 1) + x < (self.width + 1) * (self.height + 1)) by (nonlinear_arith)
                requires
                    x <= self.width,
                    y <= self.height,
            ;
        }
        assert(idx as int == (y as int) * (self.width as int + 1) + x as int);
        let n = self.table.len();
        assert(idx < n);
        let i = idx as usize;
        let v = self.table[i];
        assert(v == self.table@[i as int]);
        assert(i as int == (y as int) * (self.width as int + 1) + x as int);
        v
    }

    /// Sum of the pixels in columns `[l, r]` and rows `[t, b]`.
    pub fn sum_pixels(&self, l: u32, t: u32, r: u32, b: u32) -> (s: i128)
        requires
            self.wf(),
            l <= r < self.width,
            t <= b < self.height,
        ensures
            s == self.box_sum(l as int, t as int, r as int, b as int),
            -0x8000_0000_0000_0000 * 4 <= s <= 0x8000_0000_0000_0000 * 4,
    {
        let a = self.entry(r + 1, b + 1) as i128;
        let c = self.entry(l, t) as i128;
        let d = self.entry(r + 1, t) as i128;
        let e = self.entry(l, b + 1) as i128;
        a + c - d - e
    }
}

/// Fill rate, in per mille, of a region of `area` pixels whose grey levels
/// sum to `sum`: one less the truncated mean grey level over white.
pub open spec fn fill_permille(sum: int, area: int) -> int {
    (255 - sum / area) * 1000 / 255
}

/// The fill rate of rectangle `c` measured on `ii`; zero for a rectangle that
/// is empty or leaves the raster.
pub open spec fn region_fill(ii: IntegralImage, c: Coordinate) -> int {
    if ii.inside(c) {
        fill_permille(ii.box_sum(c.x as int, c.y as int, c.x + c.w - 1, c.y + c.h - 1), c.w * c.h)
    } else {
        0
    }
}

/// Measures the fill rate of a rectangle, in per mille.
pub fn calculate_fill_ratio(ii: &IntegralImage, c: &Coordinate) -> (r: i128)
    requires
        ii.wf(),
    ensures
        r == region_fill(*ii, *c),
        -0x8000_0000_0000_0000 * 5000 <= r <= 0x8000_0000_0000_0000 * 5000,
{
    if c.x < 0 || c.y < 0 || c.w < 1 || c.h < 1 || c.x as i64 + c.w as i64 > ii.width as i64
        || c.y as i64 + c.h as i64 > ii.height as i64 {
        return 0;
    }
    let s = ii.sum_pixels(
        c.x as u32,
        c.y as u32,
        (c.x as i64 + c.w as i64 - 1) as u32,
        (c.y as i64 + c.h as i64 - 1) as u32,
    );
    proof {
        assert(1 <= c.w * c.h <= 0x100_0000_0000) by (nonlinear_arith)
            requires
                1 <= c.w <= 0x10_0000,
                1 <= c.h <= 0x10_0000,
        ;
    }
    let area = (c.w as i128) * (c.h as i128);
    let mean = crate::numeric::floor_div_wide(s, area);
    proof {
        lemma_div_range(s as int, area as int, 0x8000_0000_0000_0000int * 4);
    }
    let f = crate::numeric::floor_div_wide((255 - mean) * 1000, 255);
    proof {
        lemma_div_range((255 - mean) * 1000, 255, 0x8000_0000_0000_0000int * 5000);
    }
    f
}

proof fn lemma_div_range(a: int, d: int, bound: int)
    requires
        d >= 1,
        -bound <= a <= bound,
    ensures
        -bound <= a / d <= bound,
{
    vstd::arithmetic::div_mod::lemma_fundamental_div_mod(a, d);
    let q = a / d;
    let r = a % d;
    assert(-bound <= q <= bound) by (nonlinear_arith)
        requires
            a == d * q + r,
            0 <= r < d,
            d >= 1,
            -bound <= a <= bound,
    ;
}

/// Pixels of `px` binarized at `t`: white above `t`, black at or below.
pub open spec fn thresholded(px: Seq<u8>, t: u8) -> Seq<u8> {
    px.map_values(|p: u8| if p > t { 255u8 } else { 0u8 })
}

/// Relies on imageproc::contrast::threshold with `ThresholdType::Binary`:
/// each pixel above `t` becomes white, every other black.
#[verifier::external_body]
fn threshold_raster(r: &GrayRaster, t: u8) -> (o: GrayRaster)
    requires
        r.wf(),
    ensures
        o.width == r.width,
        o.height == r.height,
        o.pixels@ == thresholded(r.pixels@, t),
{
    let img = image::GrayImage::from_raw(r.width, r.height, r.pixels.clone()).unwrap();
    let out = imageproc::contrast::threshold(&img, t, imageproc::contrast::ThresholdType::Binary);
    GrayRaster { width: r.width, height: r.height, pixels: out.into_raw() }
}

/// The pixels of a raster eroded with an L-infinity kernel of radius `k`.
pub uninterp spec fn eroded_of(px: Seq<u8>, w: int, h: int, k: int) -> Seq<u8>;

/// The pixels of a raster dilated with an L-infinity kernel of radius `k`.
pub uninterp spec fn dilated_of(px: Seq<u8>, w: int, h: int, k: int) -> Seq<u8>;

/// Relies on imageproc::morphology::erode with `Norm::LInf`: a raster of the
/// same size, whose pixels depend on the raster and the radius alone.
#[verifier::external_body]
fn erode_raster(r: &GrayRaster, k: u8) -> (o: GrayRaster)
    requires
        r.wf(),
    ensures
        o.width == r.width,
        o.height == r.height,
        o.pixels@ == eroded_of(r.pixels@, r.width as int, r.height as int, k as int),
        o.pixels@.len() == r.pixels@.len(),
{
    let img = image::GrayImage::from_raw(r.width, r.height, r.pixels.clone()).unwrap();
    let out = imageproc::morphology::erode(&img, imageproc::distance_transform::Norm::LInf, k);
    GrayRaster { width: r.width, height: r.height, pixels: out.into_raw() }
}

/// Relies on imageproc::morphology::dilate with `Norm::LInf`: a raster of
/// the same size, whose pixels depend on the raster and the radius alone.
#[verifier::external_body]
fn dilate_raster(r: &GrayRaster, k: u8) -> (o: GrayRaster)
    requires
        r.wf(),
    ensures
        o.width == r.width,
        o.height == r.height,
        o.pixels@ == dilated_of(r.pixels@, r.width as int, r.height as int, k as int),
        o.pixels@.len() == r.pixels@.len(),
{
    let img = image::GrayImage::from_raw(r.width, r.height, r.pixels.clone()).unwrap();
    let out = imageproc::morphology::dilate(&img, imageproc::distance_transform::Norm::LInf, k);
    GrayRaster { width: r.width, height: r.height, pixels: out.into_raw() }
}

/// The morphological raster of a blurred raster: binarized, eroded, dilated
/// and eroded again, to reconnect broken marker borders while removing small
/// noise.
pub open spec fn morphology_of(px: Seq<u8>, w: int, h: int, a: ProcessedImagesArgs) -> Seq<u8> {
    let bi = thresholded(px, a.binarization_threshold);
    let e1 = eroded_of(bi, w, h, a.erode_kernel as int);
    let d = dilated_of(e1, w, h, a.morphology_kernel as int);
    eroded_of(d, w, h, a.morphology_kernel as int)
}

/// Builds the morphological raster (see `morphology_of`).
pub fn generate_mophology_from_blur(blurred_img: &GrayRaster, args: &ProcessedImagesArgs) -> (r: GrayRaster)
    requires
        blurred_img.wf(),
    ensures
        r.wf(),
        r.width == blurred_img.width,
        r.height == blurred_img.height,
        r.pixels@ == morphology_of(
            blurred_img.pixels@,
            blurred_img.width as int,
            blurred_img.height as int,
            *args,
        ),
{
    let bi = threshold_raster(blurred_img, args.binarization_threshold);
    let e1 = erode_raster(&bi, args.erode_kernel);
    let d = dilate_raster(&e1, args.morphology_kernel);
    erode_raster(&d, args.morphology_kernel)
}

} // verus!
