//! The QR symbol capabilities the codec relies on: rendering a text as a
//! monochrome bitmap, and detecting and decoding the symbols in an image.
use vstd::prelude::*;
use vstd::utf8::valid_utf8;
use vstd::utf8::encode_utf8;
use image::Luma;
use qrcode::QrCode;

verus! {

/// A monochrome intensity bitmap stored row by row.
pub struct Bitmap {
    pub width: u32,
    pub height: u32,
    pub pixels: Vec<u8>,
}

impl Bitmap {
    pub open spec fn wf(&self) -> bool {
        self.pixels@.len() == self.width * self.height
    }
}

/// The QR symbol rendered for a text: width, height and pixels row by row,
/// or nothing where the text does not fit in any symbol.
pub uninterp spec fn qr_symbol(text: Seq<char>) -> Option<(u32, u32, Seq<u8>)>;

/// What the QR detector finds in a grey image of the given size, in the
/// detector's own order: each entry is a decoded payload, or nothing for a
/// symbol that failed to decode.
pub uninterp spec fn qr_decoded(image: Seq<u8>, width: u32, height: u32) -> Seq<Option<Seq<u8>>>;

pub open spec fn attempt_views(attempts: Seq<Option<Vec<u8>>>) -> Seq<Option<Seq<u8>>> {
    attempts.map_values(
        |a: Option<Vec<u8>>|
            match a {
                Some(p) => Some(p@),
                None => None,
            },
    )
}

/// Relies on `qrcode::QrCode::new` and its `Luma<u8>` renderer with the quiet
/// zone off: the symbol depends on the text's bytes alone, and the image holds
/// `width * height` bytes, 0 for a dark module and 255 for a light one.
#[verifier::external_body]
pub(crate) fn render_symbol(text: &String) -> (r: Option<Bitmap>)
    ensures
        match r {
            Some(b) => {
                &&& qr_symbol(text@) == Some((b.width, b.height, b.pixels@))
                &&& b.wf()
                &&& forall|i: int|
                    0 <= i < b.pixels@.len() ==> b.pixels@[i] == 0 || b.pixels@[i] == 255
            },
            None => qr_symbol(text@) is None,
        },
{
    match QrCode::new(text.as_bytes()) {
        Ok(code) => {
            let image = code.render::<Luma<u8>>().quiet_zone(false).build();
            Some(Bitmap { width: image.width(), height: image.height(), pixels: image.into_raw() })
        },
        Err(_) => None,
    }
}

/// Relies on `quirc::QrCoder::new` and `QrCoder::codes`: the symbols found in
/// an image depend on the image alone. Setting the decoder up allocates, which
/// may fail (then nothing is returned). `codes` multiplies the sides as `i32`,
/// so their product must fit in one.
#[verifier::external_body]
pub(crate) fn detect_symbols(image: &Vec<u8>, width: u32, height: u32) -> (r: Option<
    Vec<Option<Vec<u8>>>,
>)
    requires
        image@.len() == width * height,
        width * height <= i32::MAX,
    ensures
        r matches Some(a) ==> attempt_views(a@) == qr_decoded(image@, width, height),
{
    let mut coder = match quirc::QrCoder::new() {
        Ok(coder) => coder,
        Err(_) => return None,
    };
    match coder.codes(image, width, height) {
        Ok(codes) => Some(
            codes.map(
                |c| match c {
                    Ok(code) => Some(code.payload),
                    Err(_) => None,
                },
            ).collect(),
        ),
        Err(_) => None,
    }
}

/// Relies on `std::str::from_utf8`: it succeeds exactly on valid UTF-8, and
/// the text it returns is made of those bytes.
#[verifier::external_body]
pub(crate) fn utf8_text(bytes: &[u8]) -> (r: Option<&str>)
    ensures
        r is Some <==> valid_utf8(bytes@),
        r matches Some(s) ==> encode_utf8(s@) == bytes@,
{
    std::str::from_utf8(bytes).ok()
}

} // verus!
