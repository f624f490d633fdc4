//! The two calls into the image codec crate that the engine leans on:
//! decoding bytes into a pixel grid, and smooth resizing.

use vstd::prelude::*;

use crate::RenderError;
use crate::img::Image;

verus! {

/// The raster-order RGB bytes of the `w` by `h` pixel grid `px`
/// resampled to `nw` by `nh` with the Catmull-Rom filter.  The result
/// depends on the arguments alone; it is not spelled out here.
pub uninterp spec fn resize_rgb(px: Seq<u8>, w: int, h: int, nw: int, nh: int) -> Seq<u8>;

/// Relies on `image::imageops::resize` with `FilterType::CatmullRom`:
/// the returned buffer has the requested dimensions, three bytes per
/// pixel, and is a function of the input pixels and the four sizes
/// alone.  `image::RgbImage::from_raw` only repacks the bytes and
/// accepts any buffer of exactly the grid's size; `into_raw` hands the
/// bytes back.
#[verifier::external_body]
pub(crate) fn resize_catmull(img: &Image, nw: u32, nh: u32) -> (out: Image)
    requires
        img.wf(),
    ensures
        out.width == nw,
        out.height == nh,
        out.pixels@.len() == 3 * (nw as int) * (nh as int),
        out.pixels@ == resize_rgb(
            img.pixels@,
            img.width as int,
            img.height as int,
            nw as int,
            nh as int,
        ),
{
    let buf = image::RgbImage::from_raw(img.width, img.height, img.pixels.clone()).unwrap();
    let res = image::imageops::resize(&buf, nw, nh, image::imageops::FilterType::CatmullRom);
    Image { width: nw, height: nh, pixels: res.into_raw() }
}

/// Relies on `image::load_from_memory`, which decodes a byte stream of
/// any supported format or reports an error, and on
/// `DynamicImage::to_rgb8`/`into_raw`, which lay the decoded pixels
/// out as raster-order RGB bytes, three per pixel.
#[verifier::external_body]
fn decode_rgb(bytes: &[u8]) -> (r: Result<Image, RenderError>)
    ensures
        r matches Ok(img) ==> img.wf(),
        r matches Err(e) ==> e == RenderError::ImageDecodeError,
{
    match image::load_from_memory(bytes) {
        Ok(decoded) => {
            let buf = decoded.to_rgb8();
            let width = buf.width();
            let height = buf.height();
            Ok(Image { width, height, pixels: buf.into_raw() })
        },
        Err(_) => Err(RenderError::ImageDecodeError),
    }
}

/// Decodes image bytes into the engine's own pixel grid, or reports
/// `ImageDecodeError` for bytes no supported codec accepts.
pub fn load_image(bytes: &[u8]) -> (r: Result<Image, RenderError>)
    ensures
        r matches Ok(img) ==> img.wf(),
        r matches Err(e) ==> e == RenderError::ImageDecodeError,
{
    decode_rgb(bytes)
}

} // verus!
