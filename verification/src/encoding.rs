//! Base64 (RFC 4648, standard alphabet, padded) as the `base64` crate's
//! `STANDARD` engine produces it, and the PNG data URL built from it.
use vstd::prelude::*;
use base64::Engine;

verus! {

/// The character for a 6-bit value in the standard base64 alphabet
/// `A-Z a-z 0-9 + /`.
pub open spec fn b64_char(v: int) -> char {
    if v < 26 {
        ((65 + v) as u32) as char
    } else if v < 52 {
        ((97 + v - 26) as u32) as char
    } else if v < 62 {
        ((48 + v - 52) as u32) as char
    } else if v == 62 {
        '+'
    } else {
        '/'
    }
}

/// Standard padded base64 of `b`: each group of three bytes becomes four
/// characters; a final group of one or two bytes is padded with `=`.
pub open spec fn base64_standard(b: Seq<u8>) -> Seq<char>
    decreases b.len(),
{
    if b.len() == 0 {
        Seq::empty()
    } else if b.len() == 1 {
        seq![b64_char((b[0] as int) / 4), b64_char(((b[0] as int) % 4) * 16), '=', '=']
    } else if b.len() == 2 {
        seq![
            b64_char((b[0] as int) / 4),
            b64_char(((b[0] as int) % 4) * 16 + (b[1] as int) / 16),
            b64_char(((b[1] as int) % 16) * 4),
            '=',
        ]
    } else {
        seq![
            b64_char((b[0] as int) / 4),
            b64_char(((b[0] as int) % 4) * 16 + (b[1] as int) / 16),
            b64_char(((b[1] as int) % 16) * 4 + (b[2] as int) / 64),
            b64_char((b[2] as int) % 64),
        ] + base64_standard(b.subrange(3, b.len() as int))
    }
}

/// `base64::engine::general_purpose::STANDARD.encode`. Claimed: the result
/// is the padded standard-alphabet encoding of the bytes.
#[verifier::external_body]
pub(crate) fn encode_base64(bytes: &[u8]) -> (r: String)
    ensures
        r@ == base64_standard(bytes@),
{
    base64::engine::general_purpose::STANDARD.encode(bytes)
}

/// The prefix of a PNG data URL.
pub open spec fn png_data_url_prefix() -> Seq<char> {
    "data:image/png;base64,"@
}

/// A `data:` URL that embeds PNG bytes, as the pin window loads it.
pub fn png_data_url(png: &[u8]) -> (r: String)
    ensures
        r@ == png_data_url_prefix() + base64_standard(png@),
{
    let b64 = encode_base64(png);
    let mut url = String::from_str("data:image/png;base64,");
    url.append(b64.as_str());
    url
}

} // verus!
