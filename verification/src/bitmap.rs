//! The trusted boundary to the image library: the template bitmap type, its
//! decoding and encoding, and the one drawing call the compositor makes.
//!
//! A `Bitmap` carries its dimensions as plain values beside the opaque pixel
//! buffer, whose drawing history is named by `pixel_trace`. Decoding fills
//! the dimensions from the buffer itself and starts an empty trace; the
//! drawing wrapper keeps the dimensions and appends its command to the
//! trace, which is what ties the compositor's contract to the pixels.

use vstd::prelude::*;

verus! {

/// The decoded pixels, opaque to the proofs.
#[verifier::external_body]
pub struct PixelBuf {
    raw: image::RgbaImage,
}

/// One drawing command: which text was drawn where, in which color, at
/// which scale.
pub ghost struct DrawCmd {
    pub x: u32,
    pub y: u32,
    pub red: u8,
    pub green: u8,
    pub blue: u8,
    pub alpha: u8,
    pub size: u32,
    pub text: Seq<char>,
}

/// What this pixel buffer holds beyond its decoded image: the drawing
/// commands applied to it, in order. The buffer is opaque, so its contents
/// are named rather than modeled; the wrappers below say how each call
/// changes the trace.
pub uninterp spec fn pixel_trace(p: PixelBuf) -> Seq<DrawCmd>;

/// A decoded template image: its dimensions as plain values, and the pixel
/// buffer they describe.
pub struct Bitmap {
    pub width: u32,
    pub height: u32,
    pub pixels: PixelBuf,
}

/// Whether a byte string decodes as an image: a function of the bytes
/// alone.
pub uninterp spec fn image_decodable(bytes: Seq<u8>) -> bool;

/// The dimensions (width, height) of the image a byte string decodes to: a
/// function of the bytes alone.
pub uninterp spec fn image_dims_of(bytes: Seq<u8>) -> (u32, u32);

/// Relies on image's `load_from_memory` and `DynamicImage::to_rgba`:
/// decodes an image from raw bytes into the fixed RGBA form — exactly when
/// the bytes decode — and records the decoded dimensions; a failure is
/// handed back as its message. A fresh bitmap has nothing drawn on it.
/// Panic-freedom of the format decoders on crafted bytes is not established
/// here, so whoever hands bytes in guards the call (the bundled program does,
/// under a panic guard).
#[verifier::external_body]
pub fn decode_image(bytes: &[u8]) -> (r: Result<Bitmap, String>)
    ensures
        r is Ok <==> image_decodable(bytes@),
        r matches Ok(b) ==> b.width == image_dims_of(bytes@).0 && b.height == image_dims_of(
            bytes@,
        ).1,
        r matches Ok(b) ==> pixel_trace(b.pixels) == Seq::<DrawCmd>::empty(),
{
    match image::load_from_memory(bytes) {
        Ok(decoded) => {
            let raw = decoded.to_rgba();
            let width = raw.width();
            let height = raw.height();
            Ok(Bitmap { width, height, pixels: PixelBuf { raw } })
        },
        Err(e) => Err(format!("{}", e)),
    }
}

/// Relies on image's PNG encoder (`DynamicImage::write_to`): the bitmap as
/// a PNG byte stream, ready for delivery.
#[verifier::external_body]
pub fn encode_png(b: &Bitmap) -> Result<Vec<u8>, String> {
    let mut buf: Vec<u8> = Vec::new();
    let dynamic = image::DynamicImage::ImageRgba8(b.pixels.raw.clone());
    match dynamic.write_to(&mut buf, image::ImageOutputFormat::PNG) {
        Ok(()) => Ok(buf),
        Err(e) => Err(format!("{}", e)),
    }
}

/// Relies on `ImageBuffer`'s `Clone`: the copy holds the same pixels, so
/// the stored dimensions still describe it and it carries the same trace.
#[verifier::external_body]
pub fn clone_bitmap(b: &Bitmap) -> (r: Bitmap)
    ensures
        r.width == b.width,
        r.height == b.height,
        pixel_trace(r.pixels) == pixel_trace(b.pixels),
{
    Bitmap { width: b.width, height: b.height, pixels: PixelBuf { raw: b.pixels.raw.clone() } }
}

/// Relies on imageproc's `drawing::draw_text`: draws one line of text in the
/// given color onto a copy of the canvas; the copy is created with the
/// canvas's own dimensions and the drawing is clipped to them. A size beyond
/// 65535 is clamped before the float conversion. Rasterizing reads the
/// font's glyph tables without bounds checks and panics on some legacy
/// outline layouts, so this runs only on screened fonts (see
/// `font_from_bytes` in the font module).
#[verifier::external_body]
pub(crate) fn draw_line_px(
    b: Bitmap,
    red: u8,
    green: u8,
    blue: u8,
    alpha: u8,
    x: u32,
    y: u32,
    size: u32,
    font: &rusttype::Font<'static>,
    text: &str,
) -> (r: Bitmap)
    ensures
        r.width == b.width,
        r.height == b.height,
        pixel_trace(r.pixels) == pixel_trace(b.pixels).push(
            DrawCmd { x, y, red, green, blue, alpha, size, text: text@ },
        ),
{
    let px: u16 = size.try_into().unwrap_or(u16::MAX);
    let scale = rusttype::Scale { x: px.into(), y: px.into() };
    let color = image::Rgba([red, green, blue, alpha]);
    let mut canvas = b.pixels.raw;
    let out = imageproc::drawing::draw_text(&mut canvas, color, x, y, scale, font, text);
    Bitmap { width: b.width, height: b.height, pixels: PixelBuf { raw: out } }
}

} // verus!
