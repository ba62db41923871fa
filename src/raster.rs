use vstd::prelude::*;

verus! {

/// A single-channel image, row-major, one level in `0..=255` per pixel.
#[derive(Clone, Debug)]
pub struct GrayImage {
    pub width: u32,
    pub height: u32,
    pub pixels: Vec<u8>,
}

/// A three-channel image, row-major, red, green and blue per pixel.
#[derive(Clone, Debug)]
pub struct RgbImage {
    pub width: u32,
    pub height: u32,
    pub pixels: Vec<u8>,
}

impl GrayImage {
    pub open spec fn wf(&self) -> bool {
        self.pixels@.len() == self.width as int * self.height as int
    }
}

impl RgbImage {
    pub open spec fn wf(&self) -> bool {
        self.pixels@.len() == 3 * (self.width as int * self.height as int)
    }
}

/// The BT.709 luma of a color, as the image crate computes it.
pub open spec fn luma_of(r: u8, g: u8, b: u8) -> int {
    (2126 * r as int + 7152 * g as int + 722 * b as int) / 10000
}

/// The level at `(x, y)`, coordinates clamped into the image.
pub open spec fn level_at(w: int, h: int, px: Seq<u8>, x: int, y: int) -> int {
    let cx = if x < 0 { 0 } else if x >= w { w - 1 } else { x };
    let cy = if y < 0 { 0 } else if y >= h { h - 1 } else { y };
    px[cy * w + cx] as int
}

/// Correlation with the horizontal Sobel kernel `[-1 0 1; -2 0 2; -1 0 1]`.
pub open spec fn sobel_x_at(w: int, h: int, px: Seq<u8>, x: int, y: int) -> int {
    level_at(w, h, px, x + 1, y - 1) - level_at(w, h, px, x - 1, y - 1) + 2 * level_at(
        w,
        h,
        px,
        x + 1,
        y,
    ) - 2 * level_at(w, h, px, x - 1, y) + level_at(w, h, px, x + 1, y + 1) - level_at(
        w,
        h,
        px,
        x - 1,
        y + 1,
    )
}

/// Correlation with the vertical Sobel kernel `[-1 -2 -1; 0 0 0; 1 2 1]`.
pub open spec fn sobel_y_at(w: int, h: int, px: Seq<u8>, x: int, y: int) -> int {
    level_at(w, h, px, x - 1, y + 1) + 2 * level_at(w, h, px, x, y + 1) + level_at(
        w,
        h,
        px,
        x + 1,
        y + 1,
    ) - level_at(w, h, px, x - 1, y - 1) - 2 * level_at(w, h, px, x, y - 1) - level_at(
        w,
        h,
        px,
        x + 1,
        y - 1,
    )
}

/// Relies on image::imageops::grayscale: each pixel becomes the BT.709 luma
/// `(2126 r + 7152 g + 722 b) / 10000` of its color.
#[verifier::external_body]
pub(crate) fn grayscale(img: &RgbImage) -> (r: GrayImage)
    requires
        img.wf(),
    ensures
        r.wf(),
        r.width == img.width,
        r.height == img.height,
        forall|i: int|
            0 <= i < r.pixels@.len() ==> r.pixels@[i] as int == luma_of(
                img.pixels@[3 * i],
                img.pixels@[3 * i + 1],
                img.pixels@[3 * i + 2],
            ),
{
    let buf = image::RgbImage::from_raw(img.width, img.height, img.pixels.clone()).unwrap();
    let gray = image::imageops::grayscale(&buf);
    GrayImage { width: img.width, height: img.height, pixels: gray.into_raw() }
}

/// The larger of `n` and 1.
pub open spec fn at_least_one(n: u32) -> int {
    if n == 0 {
        1
    } else {
        n as int
    }
}

/// Relies on image::DynamicImage::resize with the Lanczos3 filter: the image
/// is scaled, aspect ratio kept, to fit within `nw` by `nh` (each bound taken
/// as at least 1), and a non-empty image keeps at least one pixel per side.
/// The resampled values are left unstated.
#[verifier::external_body]
pub(crate) fn resize_fit(img: &RgbImage, nw: u32, nh: u32) -> (r: RgbImage)
    requires
        img.wf(),
    ensures
        r.wf(),
        r.width <= at_least_one(nw),
        r.height <= at_least_one(nh),
        img.width > 0 && img.height > 0 ==> r.width >= 1 && r.height >= 1,
{
    let buf = image::RgbImage::from_raw(img.width, img.height, img.pixels.clone()).unwrap();
    let dynamic = image::DynamicImage::ImageRgb8(buf);
    let out = dynamic.resize(nw, nh, image::imageops::FilterType::Lanczos3).into_rgb8();
    let (width, height) = out.dimensions();
    RgbImage { width, height, pixels: out.into_raw() }
}

/// Relies on imageproc::gradients::horizontal_sobel: correlation with the
/// horizontal Sobel kernel, borders padded by continuity.
#[verifier::external_body]
pub(crate) fn horizontal_sobel(img: &GrayImage) -> (r: Vec<i16>)
    requires
        img.wf(),
    ensures
        r@.len() == img.pixels@.len(),
        forall|i: int|
            0 <= i < r@.len() ==> r@[i] as int == sobel_x_at(
                img.width as int,
                img.height as int,
                img.pixels@,
                i % (img.width as int),
                i / (img.width as int),
            ),
{
    let buf = image::GrayImage::from_raw(img.width, img.height, img.pixels.clone()).unwrap();
    imageproc::gradients::horizontal_sobel(&buf).into_raw()
}

/// Relies on imageproc::gradients::vertical_sobel: correlation with the
/// vertical Sobel kernel, borders padded by continuity.
#[verifier::external_body]
pub(crate) fn vertical_sobel(img: &GrayImage) -> (r: Vec<i16>)
    requires
        img.wf(),
    ensures
        r@.len() == img.pixels@.len(),
        forall|i: int|
            0 <= i < r@.len() ==> r@[i] as int == sobel_y_at(
                img.width as int,
                img.height as int,
                img.pixels@,
                i % (img.width as int),
                i / (img.width as int),
            ),
{
    let buf = image::GrayImage::from_raw(img.width, img.height, img.pixels.clone()).unwrap();
    imageproc::gradients::vertical_sobel(&buf).into_raw()
}

} // verus!
