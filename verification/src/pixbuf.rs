//! Trusted boundary around the `image` crate's RGBA pixel buffer.
//!
//! The grid keeps its visual representation in an [`image::RgbaImage`]:
//! a dense byte buffer, row-major, top row first, four bytes per pixel,
//! tightly packed. The image type itself cannot be declared to the
//! verifier (its generics are bounded by an outside trait), so it is held
//! in a private field of [`PixBuf`]. The buffer's contents and dimensions
//! are named by two uninterpreted functions, and the three operations the
//! grid uses are wrapped with contracts stating what the crate's source
//! shows.

use vstd::prelude::*;

use crate::cell::Rgba8;

verus! {

/// An RGBA pixel buffer of the `image` crate, held opaquely.
#[verifier::external_body]
pub struct PixBuf {
    img: image::RgbaImage,
}

/// The raw bytes of the buffer, row-major, top row first, RGBA order.
pub uninterp spec fn rgba_bytes(buf: PixBuf) -> Seq<u8>;

/// The dimensions the buffer was created with, as (width, height).
pub uninterp spec fn rgba_size(buf: PixBuf) -> (u32, u32);

/// Relies on image::ImageBuffer::new: a fresh buffer of the given
/// dimensions holds width * height RGBA pixels, every byte zero. It
/// panics only when the byte count overflows usize, which the
/// precondition excludes.
#[verifier::external_body]
pub(crate) fn rgba_image_new(width: u32, height: u32) -> (buf: PixBuf)
    requires
        4 * (width * height) <= u32::MAX,
    ensures
        rgba_size(buf) == (width, height),
        rgba_bytes(buf).len() == 4 * (width * height),
        forall|i: int| 0 <= i < rgba_bytes(buf).len() ==> rgba_bytes(buf)[i] == 0u8,
{
    PixBuf { img: image::RgbaImage::new(width, height) }
}

/// Relies on image::ImageBuffer::put_pixel: writes the four channel bytes
/// of the pixel at `(x, y)` at byte offset `4 * (y * width + x)` of the
/// raw buffer and changes nothing else. It panics when `(x, y)` is out of
/// the buffer's bounds, which the precondition excludes.
#[verifier::external_body]
pub(crate) fn rgba_put_pixel(buf: &mut PixBuf, x: u32, y: u32, color: Rgba8)
    requires
        x < rgba_size(*old(buf)).0,
        y < rgba_size(*old(buf)).1,
    ensures
        rgba_size(*final(buf)) == rgba_size(*old(buf)),
        rgba_bytes(*final(buf)) == rgba_bytes(*old(buf))
            .update(4 * (y * rgba_size(*old(buf)).0 + x), color.r)
            .update(4 * (y * rgba_size(*old(buf)).0 + x) + 1, color.g)
            .update(4 * (y * rgba_size(*old(buf)).0 + x) + 2, color.b)
            .update(4 * (y * rgba_size(*old(buf)).0 + x) + 3, color.a),
{
    buf.img.put_pixel(x, y, image::Rgba([color.r, color.g, color.b, color.a]));
}

/// Relies on image::ImageBuffer::as_raw: hands out the raw byte container
/// behind the buffer.
#[verifier::external_body]
pub(crate) fn rgba_raw(buf: &PixBuf) -> (raw: &Vec<u8>)
    ensures
        raw@ == rgba_bytes(*buf),
{
    buf.img.as_raw()
}

} // verus!
