//! Decoded pictures and their previews. Decoding and resampling are the
//! `image` crate's work; what is decided here is which size a preview gets and
//! which pictures can have one.

use vstd::prelude::*;

verus! {

/// Width of every preview, in pixels.
pub const PREVIEW_WIDTH: u32 = 128;

/// A picture as rows of pixels, four bytes each (red, green, blue, alpha).
#[derive(Debug, PartialEq)]
pub struct Raster {
    pub width: u32,
    pub height: u32,
    pub rgba: Vec<u8>,
}

impl Raster {
    /// The pixel buffer has four bytes for each pixel.
    pub open spec fn wf(&self) -> bool {
        self.rgba@.len() == 4 * self.width * self.height
    }
}

/// What `image::load_from_memory` makes of a file's bytes, as 8-bit RGBA:
/// width, height and pixel bytes; `None` where it reports an error. The
/// decoder reads nothing but the bytes; it refuses pictures beyond the address
/// range, so on that point the result goes with the machine's word size, as
/// `usize::MAX` does.
pub uninterp spec fn decoded_image(bytes: Seq<u8>) -> Option<(u32, u32, Seq<u8>)>;

/// The pixel bytes that `image::imageops::resize` with the nearest-neighbour
/// filter gives for an RGBA picture of `width` times `height` pixels resampled
/// to `new_width` times `new_height`.
pub uninterp spec fn resized_nearest(
    rgba: Seq<u8>,
    width: u32,
    height: u32,
    new_width: u32,
    new_height: u32,
) -> Seq<u8>;

/// Calls `image::load_from_memory` and converts the picture to 8-bit RGBA with
/// `DynamicImage::to_rgba8`. Trusted: the outcome is the named result of the
/// bytes, and the converted buffer holds exactly four bytes per pixel.
#[verifier::external_body]
pub(crate) fn decode_rgba(bytes: &Vec<u8>) -> (r: Result<Raster, image::ImageError>)
    ensures
        match r {
            Ok(raster) => raster.wf() && decoded_image(bytes@) == Some(
                (raster.width, raster.height, raster.rgba@),
            ),
            Err(_) => decoded_image(bytes@).is_none(),
        },
{
    let picture = image::load_from_memory(bytes.as_slice())?.to_rgba8();
    Ok(Raster { width: picture.width(), height: picture.height(), rgba: picture.into_raw() })
}

/// Calls `image::imageops::resize` with `FilterType::Nearest`. Trusted: the
/// result is the named resampling and has four bytes per pixel of the new
/// size. The source must have pixels, and neither the intermediate buffer (16
/// bytes per pixel, source width times new height) nor the result may exceed
/// what a vector can hold: outside of that the call panics.
#[verifier::external_body]
fn resize_nearest(source: Raster, new_width: u32, new_height: u32) -> (rgba: Vec<u8>)
    requires
        source.wf(),
        source.width >= 1,
        source.height >= 1,
        16 * (source.width * new_height) <= usize::MAX / 2,
        16 * (new_width * new_height) <= usize::MAX / 2,
    ensures
        rgba@ == resized_nearest(source.rgba@, source.width, source.height, new_width, new_height),
        rgba@.len() == 4 * new_width * new_height,
{
    let picture = image::RgbaImage::from_raw(source.width, source.height, source.rgba).unwrap();
    image::imageops::resize(&picture, new_width, new_height, image::imageops::FilterType::Nearest)
        .into_raw()
}

/// Height of the preview of a picture of `width` times `height` pixels: the
/// height scaled as the width is scaled to the preview width, rounded down,
/// and no more than a `u32` holds.
pub open spec fn preview_height(width: u32, height: u32) -> u32
    recommends
        width >= 1,
{
    let scaled = (height as int * 128) / (width as int);
    if scaled > u32::MAX {
        u32::MAX
    } else {
        scaled as u32
    }
}

/// Whether a picture of this size can be given a preview: it has pixels, and
/// the buffers that resampling needs fit into memory's address range.
pub open spec fn can_preview(width: u32, height: u32) -> bool {
    &&& width >= 1
    &&& height >= 1
    &&& 16 * (width * preview_height(width, height)) <= usize::MAX / 2
    &&& 2048 * preview_height(width, height) <= usize::MAX / 2
}

/// A downscaled picture: `width` times `height` pixels, four bytes each (red,
/// green, blue, alpha), row by row.
#[derive(Debug, PartialEq)]
pub struct Preview {
    pub width: u32,
    pub height: u32,
    pub rgba: Vec<u8>,
}

impl Preview {
    /// The pixel buffer has four bytes for each pixel.
    pub open spec fn wf(&self) -> bool {
        self.rgba@.len() == 4 * self.width * self.height
    }

    /// Whether this is the preview of the picture `rgba` of `width` times
    /// `height` pixels: preview width, proportional height, resampled pixels.
    pub open spec fn shows(&self, width: u32, height: u32, rgba: Seq<u8>) -> bool {
        &&& self.width == PREVIEW_WIDTH
        &&& self.height == preview_height(width, height)
        &&& self.rgba@ == resized_nearest(
            rgba,
            width,
            height,
            PREVIEW_WIDTH,
            preview_height(width, height),
        )
    }
}

/// Computes the height of a picture's preview.
pub fn scaled_height(width: u32, height: u32) -> (scaled: u32)
    requires
        width >= 1,
    ensures
        scaled == preview_height(width, height),
{
    let wide: u64 = height as u64 * 128;
    let scaled: u64 = wide / (width as u64);
    if scaled > u32::MAX as u64 {
        u32::MAX
    } else {
        scaled as u32
    }
}

/// Makes the preview of a picture: preview width, proportional height.
/// `None` exactly for the pictures that cannot have one.
pub fn make_preview(picture: Raster) -> (preview: Option<Preview>)
    requires
        picture.wf(),
    ensures
        preview.is_some() <==> can_preview(picture.width, picture.height),
        preview.is_some() ==> preview.unwrap().wf() && preview.unwrap().shows(
            picture.width,
            picture.height,
            picture.rgba@,
        ),
{
    if picture.width == 0 || picture.height == 0 {
        return None;
    }
    let new_height = scaled_height(picture.width, picture.height);
    let limit: u128 = (usize::MAX / 2) as u128;
    assert(picture.width * new_height <= 0xFFFF_FFFF * 0xFFFF_FFFF) by (nonlinear_arith)
        requires
            picture.width <= 0xFFFF_FFFF,
            new_height <= 0xFFFF_FFFF,
    ;
    let area: u128 = (picture.width as u128) * (new_height as u128);
    let across: u128 = 16 * area;
    let out: u128 = 2048 * (new_height as u128);
    if across > limit || out > limit {
        return None;
    }
    let rgba = resize_nearest(picture, PREVIEW_WIDTH, new_height);
    Some(Preview { width: PREVIEW_WIDTH, height: new_height, rgba })
}

} // verus!
