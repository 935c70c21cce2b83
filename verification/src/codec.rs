//! The image and text encodings that the library takes from outside crates:
//! JPEG (the `image` crate) and Base64 (the `base64` crate).
//!
//! Base64 is stated in full; what the JPEG encoder and decoder produce is
//! named by a specification function of their arguments, and their
//! contracts say only what the crate's source plainly shows besides.

use vstd::prelude::*;
use base64::Engine;

verus! {

/// The JPEG that `image` writes, at the given quality, for an RGB image of
/// the given size whose pixels are the first `width * height * 3` bytes of
/// `rgb`; `None` where the crate refuses it.
pub uninterp spec fn jpeg_encoding(width: u32, height: u32, rgb: Seq<u8>, quality: u8) -> Option<Seq<u8>>;

/// The RGBA image (width, height, pixels) that `image` decodes from JPEG
/// bytes; `None` where the bytes are not a JPEG it can decode.
pub uninterp spec fn jpeg_decoding(data: Seq<u8>) -> Option<(u32, u32, Seq<u8>)>;

/// The character of the standard Base64 alphabet (RFC 4648, table 1) for
/// a six-bit value.
pub open spec fn base64_char(v: int) -> char {
    if v < 26 {
        (65 + v) as char
    } else if v < 52 {
        (97 + (v - 26)) as char
    } else if v < 62 {
        (48 + (v - 52)) as char
    } else if v == 62 {
        '+'
    } else {
        '/'
    }
}

/// The padded standard Base64 text of the given bytes (RFC 4648, section
/// 4): each group of three bytes gives four characters; a final group of
/// one or two bytes gives two or three, padded with `=` to four.
pub open spec fn base64_standard(data: Seq<u8>) -> Seq<char>
    decreases data.len(),
{
    if data.len() == 0 {
        Seq::empty()
    } else {
        let b0 = data[0] as int;
        let b1 = if data.len() > 1 { data[1] as int } else { 0 };
        let b2 = if data.len() > 2 { data[2] as int } else { 0 };
        let c0 = base64_char(b0 / 4);
        let c1 = base64_char((b0 % 4) * 16 + b1 / 16);
        let c2 = base64_char((b1 % 16) * 4 + b2 / 64);
        let c3 = base64_char(b2 % 64);
        if data.len() == 1 {
            seq![c0, c1, '=', '=']
        } else if data.len() == 2 {
            seq![c0, c1, c2, '=']
        } else {
            seq![c0, c1, c2, c3] + base64_standard(data.subrange(3, data.len() as int))
        }
    }
}

/// Standard Base64 text holds four characters for every started group of
/// three bytes.
pub proof fn lemma_base64_len(data: Seq<u8>)
    ensures
        base64_standard(data).len() == 4 * ((data.len() + 2) / 3),
    decreases data.len(),
{
    if data.len() >= 3 {
        lemma_base64_len(data.subrange(3, data.len() as int));
    }
}

/// Calls `image::ImageBuffer::from_raw` to view `rgb` as an RGB image,
/// then `image::codecs::jpeg::JpegEncoder::new_with_quality` and
/// `ImageBuffer::write_with_encoder` to encode it into memory.
/// Claimed: the result is [`jpeg_encoding`] of the arguments; `from_raw`
/// refuses a buffer shorter than `width * height * 3` bytes, and the JPEG
/// encoder refuses a width or height of zero or above 65535 (its
/// `InvalidSize` error), so those give `None`.
#[verifier::external_body]
pub(crate) fn encode_jpeg(width: u32, height: u32, rgb: &[u8], quality: u8) -> (res: Option<Vec<u8>>)
    ensures
        jpeg_encoding(width, height, rgb@, quality) == match res {
            Some(b) => Some(b@),
            None => None::<Seq<u8>>,
        },
        (width == 0 || height == 0 || width > 65535 || height > 65535 || rgb@.len() < (width as int)
            * (height as int) * 3) ==> res is None,
{
    let img = image::RgbImage::from_raw(width, height, rgb.to_vec())?;
    let mut out = std::io::Cursor::new(Vec::new());
    let encoder = image::codecs::jpeg::JpegEncoder::new_with_quality(&mut out, quality);
    match img.write_with_encoder(encoder) {
        Ok(()) => Some(out.into_inner()),
        Err(_) => None,
    }
}

/// Calls `image::load_from_memory_with_format` with the JPEG format, then
/// `DynamicImage::to_rgba8` and `ImageBuffer::into_raw`.
/// Claimed: the result is [`jpeg_decoding`] of the bytes, and the pixel
/// buffer of an `RgbaImage` holds four bytes per pixel.
#[verifier::external_body]
pub(crate) fn decode_jpeg(data: &[u8]) -> (res: Option<(u32, u32, Vec<u8>)>)
    ensures
        jpeg_decoding(data@) == match res {
            Some((w, h, px)) => Some((w, h, px@)),
            None => None::<(u32, u32, Seq<u8>)>,
        },
        res matches Some((w, h, px)) ==> px@.len() == (w as int) * (h as int) * 4,
{
    match image::load_from_memory_with_format(data, image::ImageFormat::Jpeg) {
        Ok(img) => {
            let rgba = img.to_rgba8();
            Some((rgba.width(), rgba.height(), rgba.into_raw()))
        },
        Err(_) => None,
    }
}

/// Calls `base64::engine::general_purpose::STANDARD.encode`.
/// Claimed: the result is the padded standard Base64 text of the bytes,
/// [`base64_standard`], which is what the standard engine (the standard
/// alphabet, with padding) is documented to produce. The crate panics where
/// the encoded length (its `encoded_len`) overflows `usize`, which
/// `requires` rules out.
#[verifier::external_body]
pub(crate) fn encode_base64(data: &[u8]) -> (res: String)
    requires
        4 * ((data@.len() + 2) / 3) <= usize::MAX,
    ensures
        res@ == base64_standard(data@),
{
    base64::engine::general_purpose::STANDARD.encode(data)
}

} // verus!
