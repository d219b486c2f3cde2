//! Turning captured pixels into image files: the file name of a capture,
//! which encoder a format or extension selects, and the encoding of GDI
//! BGRA pixels as PNG or JPEG through the `image` crate.
use vstd::prelude::*;
use crate::stitch::rgba_len;
use crate::pixels::{swap_red_blue, red_blue_swapped, bgra_to_rgb, rgba_to_rgb, pick3};
use crate::text::{lowercase, to_lowercase, seq_ends_with, ends_with, ascii_lower};
use crate::encoding::{png_data_url, png_data_url_prefix, base64_standard};

verus! {

/// The `image` crate's error type.
#[verifier::external_type_specification]
#[verifier::external_body]
pub struct ExImageError(image::ImageError);

/// Number of bytes of a `width` x `height` RGB image.
pub open spec fn rgb_len(width: int, height: int) -> int {
    width * height * 3
}

/// The JPEG file `image::codecs::jpeg::JpegEncoder` writes, at the given
/// quality, for a `width` x `height` RGB image.
pub uninterp spec fn jpeg_encoding(rgb: Seq<u8>, width: u32, height: u32, quality: u8) -> Seq<u8>;

/// The PNG file `image::write_buffer_with_format` writes for a
/// `width` x `height` RGBA image.
pub uninterp spec fn png_encoding(rgba: Seq<u8>, width: u32, height: u32) -> Seq<u8>;

/// The sizes the JPEG encoder accepts: both sides from 1 to 65535.
pub open spec fn jpeg_size_ok(width: u32, height: u32) -> bool {
    1 <= width <= 65535 && 1 <= height <= 65535
}

/// The sizes the PNG encoder accepts: both sides at least 1.
pub open spec fn png_size_ok(width: u32, height: u32) -> bool {
    width >= 1 && height >= 1
}

/// `JpegEncoder::new_with_quality(..).encode_image(..)` into memory.
/// Claimed: it succeeds exactly when both sides are between 1 and 65535
/// (writing to memory cannot fail), and then the bytes written are
/// `jpeg_encoding` of the arguments.
#[verifier::external_body]
fn encode_jpeg(rgb: Vec<u8>, width: u32, height: u32, quality: u8) -> (r: Result<Vec<u8>, image::ImageError>)
    requires
        rgb@.len() == rgb_len(width as int, height as int),
    ensures
        r matches Ok(bytes) ==> bytes@ == jpeg_encoding(rgb@, width, height, quality),
        r is Ok <==> jpeg_size_ok(width, height),
{
    let img = image::ImageBuffer::<image::Rgb<u8>, Vec<u8>>::from_raw(width, height, rgb).unwrap();
    let mut out: Vec<u8> = Vec::new();
    let res = image::codecs::jpeg::JpegEncoder::new_with_quality(&mut out, quality).encode_image(&img);
    match res {
        Ok(()) => Ok(out),
        Err(e) => Err(e),
    }
}

/// `image::write_buffer_with_format` with `ImageFormat::Png` into memory.
/// Claimed: it succeeds exactly when neither side is 0 (writing to memory
/// cannot fail), and then the bytes written are `png_encoding` of the
/// arguments.
#[verifier::external_body]
fn encode_png(rgba: &Vec<u8>, width: u32, height: u32) -> (r: Result<Vec<u8>, image::ImageError>)
    requires
        rgba@.len() == rgba_len(width as int, height as int),
    ensures
        r matches Ok(bytes) ==> bytes@ == png_encoding(rgba@, width, height),
        r is Ok <==> png_size_ok(width, height),
{
    let mut cursor = std::io::Cursor::new(Vec::new());
    let res = image::write_buffer_with_format(
        &mut cursor,
        rgba,
        width,
        height,
        image::ColorType::Rgba8,
        image::ImageFormat::Png,
    );
    match res {
        Ok(()) => Ok(cursor.into_inner()),
        Err(e) => Err(e),
    }
}

/// The encoders a capture can be written with.
#[derive(Clone, Copy, Debug, PartialEq, Eq, Structural)]
pub enum EncodeFormat {
    Png,
    Jpeg,
}

/// What `image::ImageFormat::from_extension` makes of an extension.
#[derive(Clone, Copy, Debug, PartialEq, Eq, Structural)]
pub enum ExtensionFormat {
    Png,
    Jpeg,
    /// Another image format the `image` crate names (none of which this
    /// library encodes).
    OtherImage,
    /// Not an image extension.
    Unknown,
}

/// The format an extension names, given in ASCII lowercase.
pub open spec fn extension_format(e: Seq<char>) -> ExtensionFormat {
    if e == "png"@ || e == "apng"@ {
        ExtensionFormat::Png
    } else if e == "jpg"@ || e == "jpeg"@ || e == "jfif"@ {
        ExtensionFormat::Jpeg
    } else if e == "avif"@ || e == "gif"@ || e == "webp"@ || e == "tif"@ || e == "tiff"@ || e
        == "tga"@ || e == "dds"@ || e == "bmp"@ || e == "ico"@ || e == "hdr"@ || e == "exr"@ || e
        == "pbm"@ || e == "pam"@ || e == "ppm"@ || e == "pgm"@ || e == "pnm"@ || e == "ff"@ || e
        == "qoi"@ {
        ExtensionFormat::OtherImage
    } else {
        ExtensionFormat::Unknown
    }
}

/// `image::ImageFormat::from_extension`. Claimed: it looks the extension
/// up, in ASCII lowercase, in the table of `extension_format`.
#[verifier::external_body]
pub(crate) fn image_format_of_extension(ext: &str) -> (r: ExtensionFormat)
    ensures
        r == extension_format(ascii_lower(ext@)),
{
    match image::ImageFormat::from_extension(ext) {
        Some(image::ImageFormat::Png) => ExtensionFormat::Png,
        Some(image::ImageFormat::Jpeg) => ExtensionFormat::Jpeg,
        Some(_) => ExtensionFormat::OtherImage,
        None => ExtensionFormat::Unknown,
    }
}

/// A lowercased name that asks for JPEG: `jpg` or `jpeg`.
pub open spec fn names_jpeg(lower: Seq<char>) -> bool {
    lower == "jpg"@ || lower == "jpeg"@
}

/// Whether a lowercased extension or format name asks for JPEG.
pub fn is_jpeg_name(lower: &str) -> (r: bool)
    ensures
        r == names_jpeg(lower@),
{
    let e = String::from_str(lower);
    e == String::from_str("jpg") || e == String::from_str("jpeg")
}

/// The encoder the file's own extension selects for RGBA pixels: PNG for
/// a PNG extension, nothing otherwise (no extension, an unknown one, or a
/// format no enabled encoder writes from RGBA pixels).
pub open spec fn encoder_by_path(ext: Option<Seq<char>>) -> Option<EncodeFormat> {
    match ext {
        Some(e) => if extension_format(ascii_lower(e)) == ExtensionFormat::Png {
            Some(EncodeFormat::Png)
        } else {
            None
        },
        None => None,
    }
}

/// The view of an optional string slice.
pub open spec fn opt_seq(o: Option<&str>) -> Option<Seq<char>> {
    match o {
        Some(e) => Some(e@),
        None => None,
    }
}

/// The encoder a captured bitmap is saved with, by the file's extension:
/// JPEG when the extension (`png` when there is none), lowercased, is
/// `jpg` or `jpeg`; otherwise the encoder the extension names, if any.
pub open spec fn bitmap_file_format(ext: Option<Seq<char>>) -> Option<EncodeFormat> {
    let e = match ext {
        Some(e) => lowercase(e),
        None => lowercase("png"@),
    };
    if names_jpeg(e) {
        Some(EncodeFormat::Jpeg)
    } else {
        encoder_by_path(ext)
    }
}

fn encoder_for_path_extension(ext: Option<&str>) -> (r: Option<EncodeFormat>)
    ensures
        r == encoder_by_path(opt_seq(ext)),
{
    match ext {
        Some(e) => {
            let f = image_format_of_extension(e);
            match f {
                ExtensionFormat::Png => Some(EncodeFormat::Png),
                _ => None,
            }
        },
        None => None,
    }
}

/// The encoder for a captured bitmap saved under a file with the given
/// extension; nothing when the file cannot be written.
pub fn encode_format_for(ext: Option<&str>) -> (f: Option<EncodeFormat>)
    ensures
        f == bitmap_file_format(opt_seq(ext)),
{
    let e = match ext {
        Some(e) => to_lowercase(e),
        None => to_lowercase("png"),
    };
    if is_jpeg_name(e.as_str()) {
        Some(EncodeFormat::Jpeg)
    } else {
        encoder_for_path_extension(ext)
    }
}

/// The encoder RGBA pixels are saved with: JPEG when the configured format
/// name, lowercased, is `jpg` or `jpeg`; otherwise the encoder the file's
/// extension names, if any.
pub open spec fn pixels_file_format(format: Seq<char>, ext: Option<Seq<char>>) -> Option<EncodeFormat> {
    if names_jpeg(lowercase(format)) {
        Some(EncodeFormat::Jpeg)
    } else {
        encoder_by_path(ext)
    }
}

/// The encoder for RGBA pixels saved in the configured format under a file
/// with the given extension; nothing when the file cannot be written.
pub fn pixels_encode_format(format: &str, ext: Option<&str>) -> (f: Option<EncodeFormat>)
    ensures
        f == pixels_file_format(format@, opt_seq(ext)),
{
    let e = to_lowercase(format);
    if is_jpeg_name(e.as_str()) {
        Some(EncodeFormat::Jpeg)
    } else {
        encoder_for_path_extension(ext)
    }
}

/// Whether an image of this size can be encoded in this format.
pub open spec fn encodes_ok(format: EncodeFormat, width: u32, height: u32) -> bool {
    match format {
        EncodeFormat::Jpeg => jpeg_size_ok(width, height),
        EncodeFormat::Png => png_size_ok(width, height),
    }
}

/// The file bytes of GDI BGRA pixels in the given format: JPEG of their
/// RGB bytes, or PNG of their RGBA bytes.
pub open spec fn encoded_bgra(bgra: Seq<u8>, width: u32, height: u32, format: EncodeFormat, quality: u8) -> Seq<u8> {
    match format {
        EncodeFormat::Jpeg => jpeg_encoding(pick3(bgra, 2, 1, 0), width, height, quality),
        EncodeFormat::Png => png_encoding(red_blue_swapped(bgra), width, height),
    }
}

/// Encodes a `width` x `height` image of GDI BGRA pixels as an image file.
pub fn encode_bgra(bgra: Vec<u8>, width: u32, height: u32, format: EncodeFormat, quality: u8) -> (r: Result<Vec<u8>, image::ImageError>)
    requires
        bgra@.len() == rgba_len(width as int, height as int),
    ensures
        r matches Ok(bytes) ==> bytes@ == encoded_bgra(bgra@, width, height, format, quality),
        r is Ok <==> encodes_ok(format, width, height),
{
    match format {
        EncodeFormat::Jpeg => {
            let rgb = bgra_to_rgb(bgra.as_slice());
            assert(rgb@.len() == rgb_len(width as int, height as int)) by (nonlinear_arith)
                requires
                    rgb@.len() == bgra@.len() / 4 * 3,
                    bgra@.len() == width as int * height as int * 4,
            ;
            encode_jpeg(rgb, width, height, quality)
        },
        EncodeFormat::Png => {
            let mut px = bgra;
            swap_red_blue(&mut px);
            encode_png(&px, width, height)
        },
    }
}

/// The file bytes of RGBA pixels in the given format: JPEG of their RGB
/// bytes (alpha dropped), or PNG of the pixels themselves.
pub open spec fn encoded_rgba(rgba: Seq<u8>, width: u32, height: u32, format: EncodeFormat, quality: u8) -> Seq<u8> {
    match format {
        EncodeFormat::Jpeg => jpeg_encoding(pick3(rgba, 0, 1, 2), width, height, quality),
        EncodeFormat::Png => png_encoding(rgba, width, height),
    }
}

/// Encodes a `width` x `height` image of RGBA pixels as an image file.
pub fn encode_rgba(rgba: Vec<u8>, width: u32, height: u32, format: EncodeFormat, quality: u8) -> (r: Result<Vec<u8>, image::ImageError>)
    requires
        rgba@.len() == rgba_len(width as int, height as int),
    ensures
        r matches Ok(bytes) ==> bytes@ == encoded_rgba(rgba@, width, height, format, quality),
        r is Ok <==> encodes_ok(format, width, height),
{
    match format {
        EncodeFormat::Jpeg => {
            let rgb = rgba_to_rgb(rgba.as_slice());
            assert(rgb@.len() == rgb_len(width as int, height as int)) by (nonlinear_arith)
                requires
                    rgb@.len() == rgba@.len() / 4 * 3,
                    rgba@.len() == width as int * height as int * 4,
            ;
            encode_jpeg(rgb, width, height, quality)
        },
        EncodeFormat::Png => encode_png(&rgba, width, height),
    }
}

/// The data URL a pinned capture is shown from: the PNG of its GDI BGRA
/// pixels, base64-encoded.
pub fn bgra_png_data_url(bgra: Vec<u8>, width: u32, height: u32) -> (r: Result<String, image::ImageError>)
    requires
        bgra@.len() == rgba_len(width as int, height as int),
    ensures
        r matches Ok(url) ==> url@ == png_data_url_prefix() + base64_standard(
            encoded_bgra(bgra@, width, height, EncodeFormat::Png, 100),
        ),
        r is Ok <==> png_size_ok(width, height),
{
    match encode_bgra(bgra, width, height, EncodeFormat::Png, 100) {
        Ok(png) => Ok(png_data_url(png.as_slice())),
        Err(e) => Err(e),
    }
}

/// A capture's file name gets `.<format>` appended unless it already ends
/// with it (the name compared in lowercase).
pub open spec fn file_name_with_extension(name: Seq<char>, format: Seq<char>) -> Seq<char> {
    if seq_ends_with(lowercase(name), "."@ + format) {
        name
    } else {
        name + "."@ + format
    }
}

/// Completes a capture's file name with `.<format>` unless its lowercased
/// form `lower_name` already ends with it.
pub fn complete_file_name(name: String, lower_name: &str, format: &str) -> (r: String)
    ensures
        r@ == (if seq_ends_with(lower_name@, "."@ + format@) {
            name@
        } else {
            name@ + "."@ + format@
        }),
{
    let mut suffix = String::from_str(".");
    suffix.append(format);
    if ends_with(lower_name, suffix.as_str()) {
        name
    } else {
        let mut r = name;
        r.append(suffix.as_str());
        r
    }
}

/// Completes a capture's file name with the extension of its format.
pub fn with_extension(name: String, format: &str) -> (r: String)
    ensures
        r@ == file_name_with_extension(name@, format@),
{
    let lower = to_lowercase(name.as_str());
    complete_file_name(name, lower.as_str(), format)
}

} // verus!
