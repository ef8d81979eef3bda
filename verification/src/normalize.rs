//! The image normalizer: a decoded picture becomes a luminance raster, and
//! the raster is resampled onto a square canvas of fixed side.
//!
//! Images arrive decoded, as rows of red, green and blue bytes or as rows
//! of greys: reading and decoding files is the caller's part. The luminance weighting and the
//! Lanczos resampling are the work of the `image` crate. This module checks
//! what it is given, keeps both within the sizes they can handle, and
//! reports every failure as a `DecodeError`.

use vstd::prelude::*;

verus! {

/// The side of the canvas that images are normalized to, unless configured
/// otherwise.
pub const DEFAULT_CANVAS_SIZE: u32 = 64;

/// Why an image could not be normalized.
#[derive(Clone, Copy, Debug, PartialEq, Eq, Structural)]
pub enum DecodeError {
    /// The file is in no format that the decoder recognizes, or in one that
    /// it cannot read.
    Unsupported,
    /// The format was recognized, but the file is not a valid image of it;
    /// or the picture does not hold three bytes for each of its pixels.
    Malformed,
    /// The image has no pixels.
    Empty,
    /// The image is too large to be decoded or resampled on this machine.
    TooLarge,
}

/// A decoded picture: rows of pixels, each pixel a red, a green and a blue
/// byte.
#[derive(Clone, Debug, PartialEq, Eq)]
pub struct Picture {
    pub width: u32,
    pub height: u32,
    pub rgb: Vec<u8>,
}

/// What a `Picture` stands for.
pub struct PictureView {
    pub width: int,
    pub height: int,
    pub rgb: Seq<u8>,
}

impl View for Picture {
    type V = PictureView;

    open spec fn view(&self) -> PictureView {
        PictureView { width: self.width as int, height: self.height as int, rgb: self.rgb@ }
    }
}

impl PictureView {
    /// The picture has pixels, and exactly three bytes for each.
    pub open spec fn wf(self) -> bool {
        &&& self.width > 0
        &&& self.height > 0
        &&& self.rgb.len() == 3 * (self.width * self.height)
    }
}

impl Picture {
    /// The picture has pixels, and exactly three bytes for each.
    pub open spec fn wf(&self) -> bool {
        self@.wf()
    }
}

/// A single-channel luminance raster, one byte per pixel, row by row.
#[derive(Clone, Debug, PartialEq, Eq)]
pub struct Raster {
    pub width: u32,
    pub height: u32,
    pub pixels: Vec<u8>,
}

/// What a `Raster` stands for.
pub struct RasterView {
    pub width: int,
    pub height: int,
    pub pixels: Seq<u8>,
}

impl View for Raster {
    type V = RasterView;

    open spec fn view(&self) -> RasterView {
        RasterView {
            width: self.width as int,
            height: self.height as int,
            pixels: self.pixels@,
        }
    }
}

impl RasterView {
    /// The raster has pixels, and exactly one byte for each.
    pub open spec fn wf(self) -> bool {
        &&& self.width > 0
        &&& self.height > 0
        &&& self.pixels.len() == self.width * self.height
    }
}

impl Raster {
    /// The raster has pixels, and exactly one byte for each.
    pub open spec fn wf(&self) -> bool {
        self@.wf()
    }
}

/// What decoding a file gives: a picture in colour, or one that is
/// already in shades of grey and is kept as it is.
#[derive(Debug, PartialEq, Eq)]
pub enum Decoded {
    Colour(Picture),
    Grey(Raster),
}

/// What a `Decoded` stands for.
pub enum DecodedView {
    Colour(PictureView),
    Grey(RasterView),
}

impl View for Decoded {
    type V = DecodedView;

    open spec fn view(&self) -> DecodedView {
        match self {
            Decoded::Colour(picture) => DecodedView::Colour(picture@),
            Decoded::Grey(raster) => DecodedView::Grey(raster@),
        }
    }
}

/// A luminance raster on a square canvas: `side` rows of `side` pixels.
#[derive(Clone, Debug, PartialEq, Eq)]
pub struct NormalizedImage {
    pub side: u32,
    pub pixels: Vec<u8>,
}

/// What a `NormalizedImage` stands for.
pub struct NormalizedView {
    pub side: int,
    pub pixels: Seq<u8>,
}

impl View for NormalizedImage {
    type V = NormalizedView;

    open spec fn view(&self) -> NormalizedView {
        NormalizedView { side: self.side as int, pixels: self.pixels@ }
    }
}

impl NormalizedView {
    /// The canvas is not empty and holds one byte for each of its pixels.
    pub open spec fn wf(self) -> bool {
        &&& self.side > 0
        &&& self.pixels.len() == self.side * self.side
    }
}

/// The number of pixels in a raster of the given width and height.
fn pixel_count(width: u32, height: u32) -> (count: u64)
    ensures
        count == width * height,
{
    assert(0 <= width * height <= 0xffff_ffff * 0xffff_ffff) by (nonlinear_arith)
        requires
            0 <= width <= 0xffff_ffff,
            0 <= height <= 0xffff_ffff,
    ;
    (width as u64) * (height as u64)
}

impl NormalizedImage {
    /// The canvas is not empty and holds one byte for each of its pixels.
    pub open spec fn wf(&self) -> bool {
        self@.wf()
    }

    /// A normalized image of the given side over the given pixels, if there
    /// is exactly one byte for each pixel of a canvas that is not empty.
    pub fn new(side: u32, pixels: Vec<u8>) -> (image: Option<NormalizedImage>)
        ensures
            image is Some <==> (side > 0 && pixels@.len() == side * side),
            image matches Some(i) ==> i.side == side && i.pixels@ == pixels@ && i.wf(),
    {
        if side > 0 && pixels.len() as u64 == pixel_count(side, side) {
            Some(NormalizedImage { side, pixels })
        } else {
            None
        }
    }
}

/// The largest number of bytes that one buffer can hold on this machine.
pub open spec fn max_buffer_len() -> int {
    isize::MAX as int
}

/// A canvas side that the normalizer accepts: positive, and small enough
/// for the canvas to fit in one buffer.
pub open spec fn valid_canvas_size(side: int) -> bool {
    0 < side <= u32::MAX && side * side <= max_buffer_len()
}

/// The luminance of each pixel of `picture`, row by row, as the `image`
/// crate weighs red, green and blue into it.
pub uninterp spec fn rgb_luminance(picture: PictureView) -> Seq<u8>;

/// The pixels of `source` resampled by the `image` crate's Lanczos filter
/// (window 3) onto a canvas of `side` by `side` pixels.
pub uninterp spec fn lanczos3_resized(source: RasterView, side: int) -> Seq<u8>;

/// The view of a normalization outcome.
pub open spec fn normalized_view(outcome: Result<NormalizedImage, DecodeError>) -> Result<
    NormalizedView,
    DecodeError,
> {
    match outcome {
        Ok(image) => Ok(image@),
        Err(e) => Err(e),
    }
}

/// The resampler can take `source` to a canvas of the given side: the
/// source is well formed, and neither the canvas nor the intermediate
/// buffer, as wide as the source and as high as the canvas, exceeds what
/// one buffer can hold.
pub open spec fn resizable(source: RasterView, side: int) -> bool {
    &&& source.wf()
    &&& valid_canvas_size(side)
    &&& source.width * side <= max_buffer_len()
}

/// What `normalize` returns for a raster and a canvas of the given side:
/// `Empty` for a raster without pixels; else `TooLarge` for one that the
/// resampler cannot take to the canvas on this machine; else `Malformed`
/// for one whose pixel count does not match its dimensions; else the
/// resampled canvas.
pub open spec fn normalized_raster(raster: RasterView, side: int) -> Result<
    NormalizedView,
    DecodeError,
> {
    if raster.width == 0 || raster.height == 0 {
        Err(DecodeError::Empty)
    } else if raster.width * side > max_buffer_len() {
        Err(DecodeError::TooLarge)
    } else if raster.pixels.len() != raster.width * raster.height {
        Err(DecodeError::Malformed)
    } else {
        Ok(NormalizedView { side, pixels: lanczos3_resized(raster, side) })
    }
}

/// The luminance raster of a well-formed picture.
pub open spec fn luminance_raster(picture: PictureView) -> RasterView {
    RasterView { width: picture.width, height: picture.height, pixels: rgb_luminance(picture) }
}

/// What `normalize_picture` returns for a picture and a canvas of the given
/// side: `Empty` for a picture without pixels; else `Malformed` for one that does
/// not hold three bytes for each pixel; else `TooLarge` for one that the
/// resampler cannot take to the canvas on this machine; else its luminance
/// raster, resampled onto the canvas.
pub open spec fn normalized_picture(picture: PictureView, side: int) -> Result<
    NormalizedView,
    DecodeError,
> {
    if picture.width == 0 || picture.height == 0 {
        Err(DecodeError::Empty)
    } else if picture.rgb.len() != 3 * (picture.width * picture.height) {
        Err(DecodeError::Malformed)
    } else if picture.width * side > max_buffer_len() {
        Err(DecodeError::TooLarge)
    } else {
        Ok(NormalizedView { side, pixels: lanczos3_resized(luminance_raster(picture), side) })
    }
}

/// What `get_image` returns for a decoded image and a canvas of the given
/// side: what `normalize_picture` makes of a picture in colour, and what
/// `normalize` makes of a raster of greys.
pub open spec fn normalized(decoded: DecodedView, side: int) -> Result<
    NormalizedView,
    DecodeError,
> {
    match decoded {
        DecodedView::Colour(picture) => normalized_picture(picture, side),
        DecodedView::Grey(raster) => normalized_raster(raster, side),
    }
}

/// Calls `image::imageops::grayscale` on the picture.
///
/// The contract claims that the luminance values are a function of the
/// picture, and that there is one for each pixel. The picture is read pixel
/// by pixel, so it must hold three bytes for each.
#[verifier::external_body]
fn luminance(picture: &Picture) -> (pixels: Vec<u8>)
    requires
        picture.wf(),
    ensures
        pixels@ == rgb_luminance(picture@),
        pixels@.len() == picture.width * picture.height,
{
    let view = image::ImageBuffer::<image::Rgb<u8>, &[u8]>::from_raw(
        picture.width,
        picture.height,
        picture.rgb.as_slice(),
    ).unwrap();
    image::imageops::grayscale(&view).into_raw()
}

/// Calls `image::imageops::resize` with `FilterType::Lanczos3` on the raster,
/// for a target of `side` by `side` pixels.
///
/// The contract claims that the resulting pixels are a function of the
/// raster and the side, and that there are `side * side` of them. The
/// resampler indexes into its source and allocates a buffer of the source's
/// width by the target's height, so the source must have pixels and both
/// buffers must fit.
#[verifier::external_body]
fn lanczos3(raster: &Raster, side: u32) -> (pixels: Vec<u8>)
    requires
        resizable(raster@, side as int),
    ensures
        pixels@ == lanczos3_resized(raster@, side as int),
        pixels@.len() == side * side,
{
    let picture = image::ImageBuffer::<image::Luma<u8>, &[u8]>::from_raw(
        raster.width,
        raster.height,
        raster.pixels.as_slice(),
    ).unwrap();
    image::imageops::resize(&picture, side, side, image::imageops::FilterType::Lanczos3).into_raw()
}

/// Whether the resampler can take a source of the given width to a canvas
/// of the given side on this machine.
fn fits_buffer(width: u32, side: u32) -> (fits: bool)
    ensures
        fits == (width * side <= max_buffer_len()),
{
    pixel_count(width, side) <= isize::MAX as u64
}

/// Resamples a raster onto a square canvas of the given side with a Lanczos
/// filter. The aspect ratio is not kept: every image ends up on the same
/// canvas.
pub fn resize_image(raster: &Raster, side: u32) -> (image: NormalizedImage)
    requires
        resizable(raster@, side as int),
    ensures
        image.wf(),
        image.side == side,
        image.pixels@ == lanczos3_resized(raster@, side as int),
{
    NormalizedImage { side, pixels: lanczos3(raster, side) }
}

/// Checks a luminance raster and resamples it onto a square canvas of the
/// given side.
pub fn normalize(raster: &Raster, side: u32) -> (outcome: Result<NormalizedImage, DecodeError>)
    requires
        valid_canvas_size(side as int),
    ensures
        normalized_view(outcome) == normalized_raster(raster@, side as int),
        outcome matches Ok(image) ==> image.wf() && image.side == side,
{
    if raster.width == 0 || raster.height == 0 {
        Err(DecodeError::Empty)
    } else if !fits_buffer(raster.width, side) {
        Err(DecodeError::TooLarge)
    } else if raster.pixels.len() as u64 != pixel_count(raster.width, raster.height) {
        Err(DecodeError::Malformed)
    } else {
        Ok(resize_image(raster, side))
    }
}

/// Normalizes a picture in colour: takes its luminance and resamples it
/// onto a square canvas of the given side.
pub fn normalize_picture(picture: &Picture, side: u32) -> (outcome: Result<
    NormalizedImage,
    DecodeError,
>)
    requires
        valid_canvas_size(side as int),
    ensures
        normalized_view(outcome) == normalized_picture(picture@, side as int),
        outcome matches Ok(image) ==> image.wf() && image.side == side,
{
    if picture.width == 0 || picture.height == 0 {
        Err(DecodeError::Empty)
    } else if !holds_three_bytes_per_pixel(picture) {
        Err(DecodeError::Malformed)
    } else {
        let raster = Raster {
            width: picture.width,
            height: picture.height,
            pixels: luminance(picture),
        };
        normalize(&raster, side)
    }
}

/// Normalizes a decoded image: a picture in colour is turned into its
/// luminance first, a raster of greys is taken as it is, and either is
/// resampled onto a square canvas of the given side.
pub fn get_image(decoded: &Decoded, side: u32) -> (outcome: Result<NormalizedImage, DecodeError>)
    requires
        valid_canvas_size(side as int),
    ensures
        normalized_view(outcome) == normalized(decoded@, side as int),
        outcome matches Ok(image) ==> image.wf() && image.side == side,
{
    match decoded {
        Decoded::Colour(picture) => normalize_picture(picture, side),
        Decoded::Grey(raster) => normalize(raster, side),
    }
}

/// Whether the picture holds exactly three bytes for each of its pixels.
fn holds_three_bytes_per_pixel(picture: &Picture) -> (holds: bool)
    ensures
        holds == (picture.rgb@.len() == 3 * (picture.width * picture.height)),
{
    let count = pixel_count(picture.width, picture.height);
    let len = picture.rgb.len() as u64;
    len % 3 == 0 && len / 3 == count
}

} // verus!
