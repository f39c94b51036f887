//! Decoding JPEG images.

use vstd::prelude::*;
use vstd::string::*;

verus! {

/// What a decoder gave back: three bytes per pixel, row by row, and the image's
/// width and height where the decoder knows them.
#[derive(Debug, PartialEq, Eq)]
pub struct Decoded {
    pub rgb: Vec<u8>,
    pub size: Option<(usize, usize)>,
}

/// The contents of a decoded image.
pub struct DecodedView {
    pub rgb: Seq<u8>,
    pub size: Option<(usize, usize)>,
}

impl DecodedView {
    /// Whether there are three bytes for each pixel of an image of known size.
    pub open spec fn is_whole(self) -> bool {
        self.size matches Some(s) && self.rgb.len() == 3 * (s.0 * s.1)
    }
}

impl View for Decoded {
    type V = DecodedView;

    open spec fn view(&self) -> DecodedView {
        DecodedView { rgb: self.rgb@, size: self.size }
    }
}

/// The contents of a decoder's answer: an image, or a text that says why there is
/// none.
pub open spec fn answer(res: Result<Decoded, String>) -> Result<DecodedView, Seq<char>> {
    match res {
        Ok(d) => Ok(d@),
        Err(e) => Err(e@),
    }
}

/// What `zune_jpeg` decodes `bytes` to: the pixels' bytes and the width and height
/// that it then reports, or the text of its error.
pub uninterp spec fn jpeg_decoded(bytes: Seq<u8>) -> Result<
    (Seq<u8>, Option<(usize, usize)>),
    Seq<char>,
>;

/// What to say of a file that the decoder does not cope with.
pub const UNSUPPORTED: &'static str = "unsupported JPEG layout";

/// The contents of the answer to a file: that of the decoder where it copes with the
/// file, and a refusal where it does not.
pub open spec fn decoded_file(bytes: Seq<u8>) -> Result<DecodedView, Seq<char>> {
    if crate::layout::is_tame(bytes) {
        match jpeg_decoded(bytes) {
            Ok(d) => Ok(DecodedView { rgb: d.0, size: d.1 }),
            Err(e) => Err(e),
        }
    } else {
        Err(UNSUPPORTED@)
    }
}

/// Calls `zune_jpeg::JpegDecoder::decode` with the default options, and then
/// `dimensions` of the same decoder. Files that it can panic on, also where arithmetic
/// is checked for overflow, are left out. Trusted: of the others the outcome is a
/// function of the bytes; and a decoder that has decoded an image knows its dimensions
/// and gives three bytes for each of its pixels. Nothing is said here of what the
/// pixels are. As with any allocation, an image that does not fit in memory ends the
/// process.
#[verifier::external_body]
pub(crate) fn decode(bytes: &[u8]) -> (res: Result<Decoded, String>)
    requires
        crate::layout::is_tame(bytes@),
    ensures
        match res {
            Ok(d) => jpeg_decoded(bytes@) == Ok::<
                (Seq<u8>, Option<(usize, usize)>),
                Seq<char>,
            >((d.rgb@, d.size)),
            Err(e) => jpeg_decoded(bytes@) == Err::<
                (Seq<u8>, Option<(usize, usize)>),
                Seq<char>,
            >(e@),
        },
        res matches Ok(d) ==> (d.size matches Some(s) && d.rgb@.len() == 3 * (s.0 * s.1)),
{
    let mut decoder = zune_jpeg::JpegDecoder::new(std::io::Cursor::new(bytes));
    match decoder.decode() {
        Ok(rgb) => Ok(Decoded { rgb, size: decoder.dimensions() }),
        Err(e) => Err(format!("{e}")),
    }
}

/// Decodes a file, or says why it cannot. Files that the decoder does not cope with
/// are refused.
pub fn decode_file(bytes: &[u8]) -> (res: Result<Decoded, String>)
    ensures
        answer(res) == decoded_file(bytes@),
        decoded_file(bytes@) matches Ok(d) ==> d.is_whole(),
{
    if crate::layout::check_layout(bytes) {
        decode(bytes)
    } else {
        Err(UNSUPPORTED.to_owned())
    }
}

} // verus!
