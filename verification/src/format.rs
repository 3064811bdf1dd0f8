//! Output formats and bindings to the external image encoders.

use vstd::prelude::*;

use vstd::string::StringExecFns;

verus! {

/// The closed set of output formats a canvas can be saved as, resolved
/// once from the format tag at canvas construction.
#[derive(Clone, Copy, Debug, PartialEq, Eq, Structural)]
pub enum Format {
    /// Portable Network Graphics, lossless.
    Png,
    /// JPEG, lossy.
    Jpg,
}

impl Format {
    /// Resolves a textual format tag to a format, or None when the tag
    /// names no known format.
    pub fn from_tag(tag: &str) -> (r: Option<Format>)
        ensures
            r == Some(Format::Png) <==> tag@ == "png"@,
            r == Some(Format::Jpg) <==> tag@ == "jpg"@,
            r is None <==> (tag@ != "png"@ && tag@ != "jpg"@),
    {
        proof {
            reveal_strlit("png");
            reveal_strlit("jpg");
            assert("png"@[0] != "jpg"@[0]);
            assert("png"@ != "jpg"@);
        }
        let t = String::from_str(tag);
        if t == String::from_str("png") {
            Some(Format::Png)
        } else if t == String::from_str("jpg") {
            Some(Format::Jpg)
        } else {
            None
        }
    }

    /// The filename extension of the format.
    pub fn extension(&self) -> (r: &'static str)
        ensures
            *self == Format::Png ==> r@ == "png"@,
            *self == Format::Jpg ==> r@ == "jpg"@,
    {
        match self {
            Format::Png => "png",
            Format::Jpg => "jpg",
        }
    }
}

/// The PNG file bytes that the encoder produces for a `width` by `height`
/// RGBA image (RGBA colour type, 8-bit depth).
pub uninterp spec fn png_encoding(data: Seq<u8>, width: int, height: int) -> Seq<u8>;

/// Relies on png::Encoder with RGBA colour type and 8-bit depth, writing
/// to an in-memory buffer: encodes the row-major RGBA bytes of a `width`
/// by `height` image as a PNG file. Returns None when the encoder reports
/// an error.
#[verifier::external_body]
pub(crate) fn encode_png(data: &Vec<u8>, width: u32, height: u32) -> (r: Option<Vec<u8>>)
    requires
        data@.len() == 4 * width * height,
    ensures
        r matches Some(out) ==> out@ == png_encoding(data@, width as int, height as int),
{
    let mut bytes: Vec<u8> = Vec::new();
    let mut encoder = png::Encoder::new(&mut bytes, width, height);
    encoder.set_color(png::ColorType::Rgba);
    encoder.set_depth(png::BitDepth::Eight);
    let mut writer = match encoder.write_header() {
        Ok(w) => w,
        Err(_) => return None,
    };
    if writer.write_image_data(data.as_slice()).is_err() {
        return None;
    }
    match writer.finish() {
        Ok(()) => Some(bytes),
        Err(_) => None,
    }
}

/// Relies on jpeg_encoder::Encoder at maximum quality with RGBA input
/// (the alpha channel is ignored by the encoder), writing to an in-memory
/// buffer. A JPEG file is never empty. Returns None when the encoder
/// reports an error.
#[verifier::external_body]
pub(crate) fn encode_jpg(data: &Vec<u8>, width: u16, height: u16) -> (r: Option<Vec<u8>>)
    requires
        data@.len() == 4 * width * height,
    ensures
        r matches Some(out) ==> out@.len() > 0,
{
    let mut bytes: Vec<u8> = Vec::new();
    let encoder = jpeg_encoder::Encoder::new(&mut bytes, 100);
    match encoder.encode(data.as_slice(), width, height, jpeg_encoder::ColorType::Rgba) {
        Ok(()) => Some(bytes),
        Err(_) => None,
    }
}

} // verus!
