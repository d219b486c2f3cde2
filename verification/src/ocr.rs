//! Text recognition around the engines: which engine serves a request, how
//! the captured selection is prepared for the recognizer (small selections
//! are enlarged twice), how the recognized lines become the full text, and
//! the short preview kept in the activity feed.
use vstd::prelude::*;
use crate::stitch::{RgbaFrame, rgba_len};
use crate::pixels::{swap_red_blue, red_blue_swapped};
use crate::text::{trimmed, trim};
use crate::geometry::Rect;

verus! {

/// The built-in engine of the operating system.
#[derive(Clone, Copy, Debug, PartialEq, Eq, Structural)]
pub struct WindowsNativeOcr;

impl WindowsNativeOcr {
    /// The engine's display name.
    pub fn name(&self) -> (r: &'static str)
        ensures
            r@ == "Windows Native"@,
    {
        "Windows Native"
    }
}

/// The engine for a configured engine id. Every id, known or not, is
/// served by the operating system's engine.
pub fn get_engine(id: &str) -> (e: WindowsNativeOcr)
    ensures
        e == WindowsNativeOcr,
{
    WindowsNativeOcr
}

/// How much a `w` x `h` selection is enlarged before recognition: twice
/// when its short side is under 700 and its long side under 1600 pixels.
pub open spec fn upscale_factor(w: int, h: int) -> int {
    let short = if w < h { w } else { h };
    let long = if w < h { h } else { w };
    if short < 700 && long < 1600 {
        2
    } else {
        1
    }
}

/// The enlargement factor for a `w` x `h` selection.
pub fn ocr_upscale_factor(w: u32, h: u32) -> (f: u32)
    ensures
        f == upscale_factor(w as int, h as int),
{
    let short = if w < h { w } else { h };
    let long = if w < h { h } else { w };
    if short < 700 && long < 1600 {
        2
    } else {
        1
    }
}

/// The RGBA bytes that `image::imageops::resize` with the triangle filter
/// produces from a `width` x `height` image when asked for
/// `new_width` x `new_height`.
pub uninterp spec fn triangle_resize(raw: Seq<u8>, width: u32, height: u32, new_width: u32, new_height: u32) -> Seq<u8>;

/// `image::imageops::resize` with `FilterType::Triangle` on an RGBA image.
/// Claimed: the result is `triangle_resize` of the arguments and holds
/// `new_width * new_height` pixels; when the size does not change it is a
/// copy of the input.
#[verifier::external_body]
fn resize_rgba_triangle(raw: &Vec<u8>, width: u32, height: u32, new_width: u32, new_height: u32) -> (r: Vec<u8>)
    requires
        raw@.len() == rgba_len(width as int, height as int),
        rgba_len(new_width as int, new_height as int) <= usize::MAX,
    ensures
        r@ == triangle_resize(raw@, width, height, new_width, new_height),
        r@.len() == rgba_len(new_width as int, new_height as int),
        new_width == width && new_height == height ==> r@ == raw@,
{
    let img = image::RgbaImage::from_raw(width, height, raw.clone()).unwrap();
    image::imageops::resize(&img, new_width, new_height, image::imageops::FilterType::Triangle).into_raw()
}

/// What the recognizer is given for a captured selection: the enlargement
/// factor, the size of the (possibly enlarged) image, and its pixels in
/// BGRA order.
pub struct OcrBitmap {
    pub upscale: u32,
    pub width: u32,
    pub height: u32,
    pub bgra: Vec<u8>,
}

/// Prepares a captured selection for recognition: enlarges a small one
/// twice with the triangle filter, then swaps the red and blue bytes of
/// every pixel.
pub fn prepare_ocr_bitmap(frame: RgbaFrame) -> (r: OcrBitmap)
    ensures
        r.upscale == upscale_factor(frame@.width as int, frame@.height as int),
        r.width == frame@.width * r.upscale,
        r.height == frame@.height * r.upscale,
        r.bgra@ == red_blue_swapped(
            if r.upscale == 2 {
                triangle_resize(
                    frame@.raw,
                    frame@.width,
                    frame@.height,
                    (2 * frame@.width) as u32,
                    (2 * frame@.height) as u32,
                )
            } else {
                frame@.raw
            },
        ),
{
    let (w0, h0) = frame.dimensions();
    let upscale = ocr_upscale_factor(w0, h0);
    let mut pixels = if upscale == 2 {
        let raw = frame.as_raw();
        assert(rgba_len(2 * w0 as int, 2 * h0 as int) <= 3200 * 3200 * 4) by (nonlinear_arith)
            requires
                w0 < 1600,
                h0 < 1600,
        ;
        resize_rgba_triangle(raw, w0, h0, w0 * 2, h0 * 2)
    } else {
        frame.into_raw()
    };
    let (w, h) = if upscale == 2 {
        (w0 * 2, h0 * 2)
    } else {
        (w0, h0)
    };
    swap_red_blue(&mut pixels);
    OcrBitmap { upscale, width: w, height: h, bgra: pixels }
}

/// The full text of recognized lines as the operating system's engine
/// reports them: each line is appended after a line break, except while
/// the text is still empty.
pub open spec fn appended_lines(texts: Seq<Seq<char>>) -> Seq<char>
    decreases texts.len(),
{
    if texts.len() == 0 {
        Seq::empty()
    } else {
        let prev = appended_lines(texts.drop_last());
        if prev.len() == 0 {
            texts.last()
        } else {
            prev + seq!['\n'] + texts.last()
        }
    }
}

/// Joins the recognized lines into the full text; the no-text error when
/// the result is blank.
pub fn recognized_full_text(lines: &Vec<String>) -> (r: Result<String, String>)
    ensures
        ({
            let full = appended_lines(crate::text::views(lines@));
            match r {
                Ok(t) => t@ == full && trimmed(full).len() > 0,
                Err(e) => e@ == "No text detected in selection"@ && trimmed(full).len() == 0,
            }
        }),
{
    let ghost tv = crate::text::views(lines@);
    let mut full = String::new();
    let mut i: usize = 0;
    while i < lines.len()
        invariant
            tv == crate::text::views(lines@),
            i <= lines@.len(),
            full@ == appended_lines(tv.subrange(0, i as int)),
        decreases lines@.len() - i,
    {
        proof {
            assert(tv.subrange(0, i + 1).drop_last() =~= tv.subrange(0, i as int));
            assert(tv.subrange(0, i + 1).last() == lines@[i as int]@);
        }
        if !full.as_str().is_empty() {
            full.append("\n");
            proof {
                reveal_strlit("\n");
            }
        }
        full.append(lines[i].as_str());
        i = i + 1;
    }
    assert(tv.subrange(0, lines@.len() as int) =~= tv);
    let t = trim(full.as_str());
    if t.as_str().is_empty() {
        Err(String::from_str("No text detected in selection"))
    } else {
        Ok(full)
    }
}

/// The message when OCR is asked for without a selection.
pub open spec fn no_selection_message() -> Seq<char> {
    "No selection active"@
}

/// The region OCR reads: the current selection; without one the request
/// is refused.
pub fn ocr_selection(selection: Option<Rect>) -> (r: Result<Rect, String>)
    ensures
        match selection {
            Some(s) => r == Ok::<Rect, String>(s),
            None => r matches Err(e) && e@ == no_selection_message(),
        },
{
    match selection {
        Some(s) => Ok(s),
        None => Err(String::from_str("No selection active")),
    }
}

/// How many characters of a recognized text the activity feed keeps.
pub open spec fn preview_chars() -> int {
    50
}

/// The activity-feed preview of a recognized text: its first 50
/// characters followed by `...`.
pub fn activity_preview(text: &str) -> (r: String)
    ensures
        r@ == text@.subrange(
            0,
            if text@.len() < preview_chars() {
                text@.len() as int
            } else {
                preview_chars()
            },
        ) + "..."@,
{
    let n = text.unicode_len();
    let k = if n < 50 {
        n
    } else {
        50
    };
    let head = text.substring_char(0, k);
    let mut r = String::from_str(head);
    r.append("...");
    r
}

} // verus!
