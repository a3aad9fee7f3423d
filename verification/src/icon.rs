//! The window icon.
use vstd::prelude::*;

verus! {

/// A decoded icon, four bytes for each pixel.
#[derive(Debug)]
pub struct IconImage {
    pub width: u32,
    pub height: u32,
    pub rgba: Vec<u8>,
}

/// The size and the RGBA bytes that `image` decodes a PNG file to; `None` where
/// it cannot.
pub uninterp spec fn decoded_icon(file: Seq<u8>) -> Option<(u32, u32, Seq<u8>)>;

/// Calls `image::load_from_memory_with_format` for PNG and turns what it gives to
/// RGBA with `to_rgba8`: four bytes for each pixel. The pixels are only named.
#[verifier::external_body]
fn load_rgba(file: &[u8]) -> (r: Result<(u32, u32, Vec<u8>), image::ImageError>)
    ensures
        r is Ok <==> decoded_icon(file@) is Some,
        r matches Ok(v) ==> decoded_icon(file@) == Some((v.0, v.1, v.2@)),
        r matches Ok(v) ==> v.2@.len() == v.0 * v.1 * 4,
{
    let image = image::load_from_memory_with_format(file, image::ImageFormat::Png)?.to_rgba8();
    Ok((image.width(), image.height(), image.into_raw()))
}

/// Decodes the window icon, a PNG file; `None` where it cannot be decoded.
pub fn load_icon(file: &[u8]) -> (r: Option<IconImage>)
    ensures
        match decoded_icon(file@) {
            Some(d) => {
                &&& r matches Some(icon)
                &&& icon.width == d.0
                &&& icon.height == d.1
                &&& icon.rgba@ == d.2
                &&& icon.rgba@.len() == icon.width * icon.height * 4
            },
            None => r is None,
        },
{
    match load_rgba(file) {
        Ok(d) => Some(IconImage { width: d.0, height: d.1, rgba: d.2 }),
        Err(_) => None,
    }
}

} // verus!
