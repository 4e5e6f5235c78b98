//! The trusted boundary to the font engine: decoding a font from raw bytes
//! and the two metric queries the layout uses.
//!
//! Both metrics depend on the font's tables and on floating-point scaling,
//! so they are taken as plain numbers; the layout math over them is what the
//! library proves.

use vstd::prelude::*;

verus! {

#[verifier::external_type_specification]
#[verifier::external_body]
pub struct ExFont<'a>(rusttype::Font<'a>);

/// Whether a byte string decodes as a font: a function of the bytes alone.
pub uninterp spec fn font_decodable(bytes: Seq<u8>) -> bool;

/// Relies on rusttype's `Font::from_bytes`: decodes a TrueType font from its
/// raw bytes; a failure is handed back as its message. The decoder reads the
/// first four bytes of the data unconditionally, so shorter inputs are kept
/// out by the caller. Beyond that, the engine reads the font's table
/// directory and table interiors without bounds checks and panics rather
/// than errs on data a recognized signature cannot justify; well-formedness
/// of those tables is not statable here in a few lines, so whoever hands
/// bytes in screens them against the engine first (the bundled program
/// probes every font file, under a panic guard, before offering it to the
/// store).
#[verifier::external_body]
pub(crate) fn font_from_bytes(bytes: Vec<u8>) -> (r: Result<rusttype::Font<'static>, String>)
    requires
        bytes@.len() >= 4,
    ensures
        r is Ok <==> font_decodable(bytes@),
{
    match rusttype::Font::from_bytes(bytes) {
        Ok(f) => Ok(f),
        Err(e) => Err(format!("{}", e)),
    }
}

/// Relies on rusttype's `Font::v_metrics`: one line's height at a uniform
/// scale of `size` pixels — half the line gap plus the ascent minus the
/// descent, rounded up to whole pixels. A size beyond 65535 is clamped
/// before the float conversion. The engine slices the font's hhea table
/// without bounds checks, so this runs only on screened fonts (see
/// `font_from_bytes`); that table property cannot be stated over the opaque
/// font value.
#[verifier::external_body]
pub(crate) fn line_height_px(font: &rusttype::Font<'static>, size: u32) -> u32 {
    let px: u16 = size.try_into().unwrap_or(u16::MAX);
    let scale = rusttype::Scale { x: px.into(), y: px.into() };
    let v = font.v_metrics(scale);
    let two = rusttype::Scale::uniform(2u8.into());
    let h = v.line_gap / two.x + v.ascent - v.descent;
    h.ceil() as u32
}

/// Relies on rusttype's `Font::layout` and
/// `PositionedGlyph::pixel_bounding_box`: the rightmost pixel edge of the
/// last glyph of `text` laid out at a uniform scale of `size` pixels from
/// the origin, and `0` for text without a renderable glyph. A size beyond
/// 65535 is clamped before the float conversion. The engine's character
/// lookup reads the font's cmap table without bounds checks and panics on
/// some legacy table layouts, so this runs only on screened fonts (see
/// `font_from_bytes`).
#[verifier::external_body]
pub(crate) fn text_width_px(font: &rusttype::Font<'static>, size: u32, text: &str) -> u32 {
    let px: u16 = size.try_into().unwrap_or(u16::MAX);
    let scale = rusttype::Scale { x: px.into(), y: px.into() };
    let origin = rusttype::Point { x: 0u8.into(), y: 0u8.into() };
    match font.layout(text, scale, origin).last() {
        None => 0,
        Some(g) => match g.pixel_bounding_box() {
            Some(bb) => bb.max.x as u32,
            None => 0,
        },
    }
}

} // verus!
