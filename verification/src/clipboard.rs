//! The compute half of clipboard image sharing: raw RGBA pixels from the
//! clipboard become a PNG, then base64 for the UI; a pasted file path is
//! accepted only with an image extension. Reading the clipboard and the
//! file system happens outside.

use vstd::prelude::*;
use vstd::string::StringExecFns;
use base64::Engine;

verus! {

/// The PNG the image crate produces for a tightly packed RGBA buffer of
/// the given size. It depends on those inputs alone.
pub uninterp spec fn png_of(rgba: Seq<u8>, width: int, height: int) -> Seq<u8>;

/// The standard base64 encoding (with padding) of a byte string. It
/// depends on the bytes alone.
pub uninterp spec fn base64_of(b: Seq<u8>) -> Seq<char>;

/// Relies on image's `PngEncoder` via `write_image` over `Rgba8`: the
/// stream is a function of the pixel bytes and dimensions alone, and the
/// only failure on an in-memory writer is a zero dimension.
#[verifier::external_body]
fn encode_png_rgba(rgba: &Vec<u8>, width: u32, height: u32) -> (r: Option<Vec<u8>>)
    requires
        rgba@.len() == 4 * width * height,
    ensures
        (r matches Some(v) ==> v@ == png_of(rgba@, width as int, height as int)),
        width >= 1 && height >= 1 ==> r.is_some(),
        width == 0 || height == 0 ==> r.is_none(),
{
    let mut buf = std::io::Cursor::new(Vec::new());
    let encoder = image::codecs::png::PngEncoder::new(&mut buf);
    let ok = image::ImageEncoder::write_image(
        encoder,
        rgba.as_slice(),
        width,
        height,
        image::ExtendedColorType::Rgba8,
    );
    match ok {
        Ok(()) => Some(buf.into_inner()),
        Err(_) => None,
    }
}

/// Relies on base64's `STANDARD.encode`: padded encoding, four characters
/// for every three input bytes, a function of the bytes alone; an empty
/// input stays empty. The length bound keeps its buffer arithmetic from
/// overflowing.
#[verifier::external_body]
fn base64_encode(b: &Vec<u8>) -> (r: String)
    requires
        b@.len() / 3 + 1 <= usize::MAX / 4,
    ensures
        r@ == base64_of(b@),
        r@.len() == 4 * ((b@.len() + 2) / 3),
{
    base64::engine::general_purpose::STANDARD.encode(b.as_slice())
}

/// Turn a clipboard image's raw RGBA pixels into a base64 PNG for the UI.
/// Nothing comes back for an empty image, or for one whose PNG is too
/// large to base64-encode in memory.
pub fn clipboard_png_base64(rgba: &Vec<u8>, width: u32, height: u32) -> (r: Option<String>)
    requires
        rgba@.len() == 4 * width * height,
    ensures
        ({
            if width == 0 || height == 0 {
                r.is_none()
            } else {
                let png = png_of(rgba@, width as int, height as int);
                match r {
                    Some(s) => s@ == base64_of(png),
                    None => png.len() / 3 + 1 > usize::MAX / 4,
                }
            }
        }),
{
    match encode_png_rgba(rgba, width, height) {
        None => None,
        Some(png) => {
            if png.len() / 3 + 1 <= usize::MAX / 4 {
                Some(base64_encode(&png))
            } else {
                None
            }
        },
    }
}

/// A pasted file path counts as an image by its (lowercased) extension.
pub fn is_image_extension(ext: &String) -> (r: bool)
    ensures
        r == (ext@ == "png"@ || ext@ == "jpg"@ || ext@ == "jpeg"@ || ext@ == "gif"@ || ext@
            == "webp"@ || ext@ == "bmp"@),
{
    let e: &String = ext;
    *e == String::from_str("png") || *e == String::from_str("jpg") || *e == String::from_str(
        "jpeg",
    ) || *e == String::from_str("gif") || *e == String::from_str("webp") || *e == String::from_str(
        "bmp",
    )
}

} // verus!
