//! The editor's background picture: decoding it (with the `image` crate) into
//! its pixel size and its RGBA8 pixels.

use vstd::prelude::*;

verus! {

/// What `image` yields for the encoded bytes `bytes` when it guesses their
/// format from their leading signature (`guess_format`), decodes them in that
/// format (`load_from_memory_with_format`) and converts the picture with
/// `to_rgba8`: the width, the height and the raw RGBA8 samples, or `None` when
/// no format is recognised or the bytes cannot be decoded in it.
pub uninterp spec fn decoded_rgba(bytes: Seq<u8>) -> Option<(u32, u32, Seq<u8>)>;

/// Guesses the format of `bytes` with `image::guess_format` (the built-in
/// signature table only), decodes them with `image::load_from_memory_with_format`
/// in that format (the built-in decoder with default limits; unlike
/// `load_from_memory`, neither step consults the process-wide detection or
/// decoding hooks), then converts the picture with `DynamicImage::to_rgba8`.
/// The result is the name `decoded_rgba` of the bytes; of a decoded picture the
/// contract also claims what `image`'s `ImageBuffer` keeps for every buffer: it
/// holds at least four samples per pixel.
#[verifier::external_body]
fn decode_rgba(bytes: &[u8]) -> (decoded: Option<(u32, u32, Vec<u8>)>)
    ensures
        match decoded {
            Some(d) => {
                &&& decoded_rgba(bytes@) == Some((d.0, d.1, d.2@))
                &&& d.2@.len() >= 4 * d.0 * d.1
            },
            None => decoded_rgba(bytes@) is None,
        },
{
    let format = match image::guess_format(bytes) {
        Ok(format) => format,
        Err(_) => return None,
    };
    match image::load_from_memory_with_format(bytes, format) {
        Ok(picture) => {
            let rgba = picture.to_rgba8();
            Some((rgba.width(), rgba.height(), rgba.into_raw()))
        },
        Err(_) => None,
    }
}

/// A decoded background picture.
pub struct BackgroundImage {
    /// Width and height in pixels.
    pub size: [usize; 2],
    /// RGBA8 samples, row by row, four per pixel.
    pub rgba: Vec<u8>,
}

/// The background picture for a decoding result: its size in pixels and its
/// samples, or `None` when decoding failed.
pub fn background_from_decoded(decoded: Option<(u32, u32, Vec<u8>)>) -> (image: Option<
    BackgroundImage,
>)
    ensures
        match decoded {
            Some(d) => image matches Some(img) && img.size[0] == d.0 && img.size[1] == d.1
                && img.rgba@ == d.2@,
            None => image is None,
        },
{
    match decoded {
        Some((width, height, rgba)) => Some(
            BackgroundImage { size: [width as usize, height as usize], rgba },
        ),
        None => None,
    }
}

/// Decodes the background picture from its encoded bytes.
pub fn background_image(encoded: &[u8]) -> (image: Option<BackgroundImage>)
    ensures
        match decoded_rgba(encoded@) {
            Some(d) => image matches Some(img) && img.size[0] == d.0 && img.size[1] == d.1
                && img.rgba@ == d.2 && img.rgba@.len() >= 4 * img.size[0] * img.size[1],
            None => image is None,
        },
{
    let decoded = decode_rgba(encoded);
    background_from_decoded(decoded)
}

/// The size in pixels of the background picture, or `None` when its bytes
/// cannot be decoded.
pub fn background_size(encoded: &[u8]) -> (size: Option<[usize; 2]>)
    ensures
        match decoded_rgba(encoded@) {
            Some(d) => size matches Some(s) && s[0] == d.0 && s[1] == d.1,
            None => size is None,
        },
{
    match background_image(encoded) {
        Some(img) => Some(img.size),
        None => None,
    }
}

} // verus!
