//! Viewing a shared screen: decoding received frames and turning them into
//! data URLs for a web view.

use vstd::prelude::*;
use crate::codec::{base64_standard, decode_jpeg, encode_base64, jpeg_decoding, lemma_base64_len};

verus! {

/// A received frame, decoded to RGBA pixels.
pub struct DecodedFrame {
    pub width: u32,
    pub height: u32,
    pub rgba: Vec<u8>,
}

/// Decodes a received JPEG frame; `None` where it cannot be decoded (the
/// viewer then skips it).
pub fn decode_frame(jpeg: &[u8]) -> (res: Option<DecodedFrame>)
    ensures
        jpeg_decoding(jpeg@) == match res {
            Some(f) => Some((f.width, f.height, f.rgba@)),
            None => None::<(u32, u32, Seq<u8>)>,
        },
        res matches Some(f) ==> f.rgba@.len() == (f.width as int) * (f.height as int) * 4,
{
    match decode_jpeg(jpeg) {
        Some((width, height, rgba)) => Some(DecodedFrame { width, height, rgba }),
        None => None,
    }
}

/// The frame a viewer shows from those received since it last looked: the
/// newest, the others being dropped; `None` when none arrived.
pub fn newest_frame(pending: Vec<DecodedFrame>) -> (res: Option<DecodedFrame>)
    ensures
        pending@.len() == 0 ==> res is None,
        pending@.len() > 0 ==> res == Some(pending@.last()),
{
    let mut pending = pending;
    pending.pop()
}

/// The prefix of a JPEG data URL.
pub open spec fn jpeg_data_url_prefix() -> Seq<char> {
    "data:image/jpeg;base64,"@
}

/// The data URL of a JPEG whose Base64 text is `b64`.
pub fn data_url(b64: &str) -> (res: String)
    ensures
        res@ == jpeg_data_url_prefix() + b64@,
{
    let mut res = String::from_str("data:image/jpeg;base64,");
    res.append(b64);
    res
}

/// The data URL under which a web view shows a received JPEG frame.
pub fn jpeg_data_url(jpeg: &[u8]) -> (res: String)
    requires
        4 * ((jpeg@.len() + 2) / 3) <= usize::MAX,
    ensures
        res@ == jpeg_data_url_prefix() + base64_standard(jpeg@),
        res@.len() == jpeg_data_url_prefix().len() + 4 * ((jpeg@.len() + 2) / 3),
{
    let b64 = encode_base64(jpeg);
    proof {
        lemma_base64_len(jpeg@);
    }
    data_url(b64.as_str())
}

} // verus!
