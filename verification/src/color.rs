//! Colour encodings: ARGB (0xAARRGGBB) as used by the overlay and GDI+,
//! and COLORREF (0x00BBGGRR) as used by GDI.
use vstd::prelude::*;

verus! {

/// Red channel of an ARGB colour.
pub open spec fn argb_red(argb: u32) -> u32 {
    (argb >> 16u32) & 0xFF
}

/// Green channel of an ARGB colour.
pub open spec fn argb_green(argb: u32) -> u32 {
    (argb >> 8u32) & 0xFF
}

/// Blue channel of an ARGB colour.
pub open spec fn argb_blue(argb: u32) -> u32 {
    argb & 0xFF
}

/// The COLORREF with the given channels.
pub open spec fn colorref_of(r: u32, g: u32, b: u32) -> u32 {
    r | (g << 8u32) | (b << 16u32)
}

/// Converts ARGB (0xAARRGGBB) to a GDI COLORREF (0x00BBGGRR); GDI has no
/// alpha, so the high byte is 0.
pub fn to_colorref(argb: u32) -> (c: u32)
    ensures
        c == colorref_of(argb_red(argb), argb_green(argb), argb_blue(argb)),
        c <= 0x00FF_FFFF,
{
    let r = (argb >> 16) & 0xFF;
    let g = (argb >> 8) & 0xFF;
    let b = argb & 0xFF;
    assert(r | (g << 8u32) | (b << 16u32) <= 0x00FF_FFFF) by (bit_vector)
        requires r == (argb >> 16u32) & 0xFF, g == (argb >> 8u32) & 0xFF, b == argb & 0xFF;
    r | (g << 8) | (b << 16)
}

/// The opaque ARGB colour of a GDI COLORREF (as read back by `GetPixel`).
pub fn colorref_to_argb(color_ref: u32) -> (argb: u32)
    ensures
        argb == 0xFF00_0000 | ((color_ref & 0xFF) << 16u32) | (((color_ref & 0xFF00) >> 8u32) << 8u32)
            | ((color_ref & 0xFF_0000) >> 16u32),
{
    let r = color_ref & 0x0000_00FF;
    let g = (color_ref & 0x0000_FF00) >> 8;
    let b = (color_ref & 0x00FF_0000) >> 16;
    0xFF00_0000 | (r << 16) | (g << 8) | b
}

/// The ARGB colour of an RGBA pixel.
pub fn argb_from_rgba(r: u8, g: u8, b: u8, a: u8) -> (argb: u32)
    ensures
        argb_red(argb) == r,
        argb_green(argb) == g,
        argb_blue(argb) == b,
        argb >> 24u32 == a,
{
    let v = ((a as u32) << 24) | ((r as u32) << 16) | ((g as u32) << 8) | (b as u32);
    let (r32, g32, b32, a32) = (r as u32, g as u32, b as u32, a as u32);
    assert(r32 <= 0xFF && g32 <= 0xFF && b32 <= 0xFF && a32 <= 0xFF);
    assert(((((a32 << 24u32) | (r32 << 16u32) | (g32 << 8u32) | b32) >> 16u32) & 0xFF) == r32) by (bit_vector)
        requires r32 <= 0xFF && g32 <= 0xFF && b32 <= 0xFF && a32 <= 0xFF;
    assert(((((a32 << 24u32) | (r32 << 16u32) | (g32 << 8u32) | b32) >> 8u32) & 0xFF) == g32) by (bit_vector)
        requires r32 <= 0xFF && g32 <= 0xFF && b32 <= 0xFF && a32 <= 0xFF;
    assert((((a32 << 24u32) | (r32 << 16u32) | (g32 << 8u32) | b32) & 0xFF) == b32) by (bit_vector)
        requires r32 <= 0xFF && g32 <= 0xFF && b32 <= 0xFF && a32 <= 0xFF;
    assert((((a32 << 24u32) | (r32 << 16u32) | (g32 << 8u32) | b32) >> 24u32) == a32) by (bit_vector)
        requires r32 <= 0xFF && g32 <= 0xFF && b32 <= 0xFF && a32 <= 0xFF;
    v
}

/// Converting to COLORREF and reading it back gives the same colour,
/// made opaque.
pub proof fn lemma_colorref_round_trip(argb: u32)
    ensures
        ({
            let c = colorref_of(argb_red(argb), argb_green(argb), argb_blue(argb));
            0xFF00_0000 | ((c & 0xFF) << 16u32) | (((c & 0xFF00) >> 8u32) << 8u32) | ((c & 0xFF_0000)
                >> 16u32)
        }) == argb | 0xFF00_0000,
{
    let r = argb_red(argb);
    let g = argb_green(argb);
    let b = argb_blue(argb);
    let c = colorref_of(r, g, b);
    assert(c & 0xFF == r) by (bit_vector)
        requires r == (argb >> 16u32) & 0xFF, g == (argb >> 8u32) & 0xFF, b == argb & 0xFF, c == r | (g << 8u32) | (b << 16u32);
    assert((c & 0xFF00) >> 8u32 == g) by (bit_vector)
        requires r == (argb >> 16u32) & 0xFF, g == (argb >> 8u32) & 0xFF, b == argb & 0xFF, c == r | (g << 8u32) | (b << 16u32);
    assert((c & 0xFF_0000) >> 16u32 == b) by (bit_vector)
        requires r == (argb >> 16u32) & 0xFF, g == (argb >> 8u32) & 0xFF, b == argb & 0xFF, c == r | (g << 8u32) | (b << 16u32);
    assert(0xFF00_0000 | (r << 16u32) | (g << 8u32) | b == argb | 0xFF00_0000) by (bit_vector)
        requires r == (argb >> 16u32) & 0xFF, g == (argb >> 8u32) & 0xFF, b == argb & 0xFF;
}

/// The alpha channel does not influence the COLORREF.
pub proof fn lemma_colorref_ignores_alpha(argb: u32)
    ensures
        argb_red(argb) == argb_red(argb & 0x00FF_FFFF),
        argb_green(argb) == argb_green(argb & 0x00FF_FFFF),
        argb_blue(argb) == argb_blue(argb & 0x00FF_FFFF),
{
    assert((argb >> 16u32) & 0xFF == ((argb & 0x00FF_FFFF) >> 16u32) & 0xFF) by (bit_vector);
    assert((argb >> 8u32) & 0xFF == ((argb & 0x00FF_FFFF) >> 8u32) & 0xFF) by (bit_vector);
    assert(argb & 0xFF == (argb & 0x00FF_FFFF) & 0xFF) by (bit_vector);
}

} // verus!
