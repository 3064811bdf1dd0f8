//! Bindings to the external pixel codecs and the resampling filter.
//!
//! Every function here wraps a call into an outside crate; the
//! surrounding logic is verified against the contracts stated below.

use vstd::prelude::*;

use rgb::FromSlice;

verus! {

/// The RGBA bytes that the Lanczos-3 resampler produces for the given
/// source buffer and source/destination dimensions.
pub uninterp spec fn resampled(
    src: Seq<u8>,
    src_w: int,
    src_h: int,
    dst_w: int,
    dst_h: int,
) -> Seq<u8>;

/// The raw pixel bytes that the PNG decoder produces for the given file
/// bytes, with an alpha channel added and 16-bit samples stripped to 8 bits.
pub uninterp spec fn png_decoded(data: Seq<u8>) -> Seq<u8>;

/// Relies on resize::Resizer with the Lanczos3 filter and RGBA8 layout:
/// resamples the `src_w` by `src_h` source image into `dst`, which must
/// hold exactly `4 * dst_w * dst_h` bytes. Returns None when the resizer
/// reports an error.
#[verifier::external_body]
pub(crate) fn resample_rgba(
    src: &Vec<u8>,
    src_w: usize,
    src_h: usize,
    dst_w: usize,
    dst_h: usize,
    dst: Vec<u8>,
) -> (r: Option<Vec<u8>>)
    requires
        src_w >= 1,
        src_h >= 1,
        dst_w >= 1,
        dst_h >= 1,
        src@.len() == 4 * src_w * src_h,
        dst@.len() == 4 * dst_w * dst_h,
    ensures
        r matches Some(out) ==> {
            &&& out@.len() == 4 * dst_w * dst_h
            &&& out@ == resampled(src@, src_w as int, src_h as int, dst_w as int, dst_h as int)
        },
{
    let mut dst = dst;
    let made = resize::new(src_w, src_h, dst_w, dst_h, resize::Pixel::RGBA8, resize::Type::Lanczos3);
    let mut resizer = match made {
        Ok(r) => r,
        Err(_) => return None,
    };
    match resizer.resize(src.as_rgba(), dst.as_rgba_mut()) {
        Ok(()) => Some(dst),
        Err(_) => None,
    }
}

/// Relies on zune_png::PngDecoder::decode_raw, with the options that add an
/// alpha channel and strip 16-bit samples to 8 bits, and on
/// PngDecoder::info for the dimensions. Returns `(width, height, bytes)`,
/// or None when the decoder reports an error.
#[verifier::external_body]
pub(crate) fn decode_png(data: &Vec<u8>) -> (r: Option<(usize, usize, Vec<u8>)>)
    ensures
        r matches Some(t) ==> t.2@ == png_decoded(data@),
{
    let options = zune_core::options::DecoderOptions::default()
        .png_set_add_alpha_channel(true)
        .png_set_strip_to_8bit(true);
    let cursor = zune_core::bytestream::ZCursor::new(data);
    let mut decoder = zune_png::PngDecoder::new_with_options(cursor, options);
    let buf = match decoder.decode_raw() {
        Ok(b) => b,
        Err(_) => return None,
    };
    match decoder.info() {
        Some(i) => Some((i.width, i.height, buf)),
        None => None,
    }
}

/// Relies on zune_jpeg::JpegDecoder::decode with the RGBA output colour
/// space and on JpegDecoder::info: the decoded buffer holds exactly four
/// bytes per pixel of the reported dimensions, which fit in 16 bits.
/// Returns `(width, height, bytes)`, or None when the decoder reports an
/// error.
#[verifier::external_body]
pub(crate) fn decode_jpg(data: &Vec<u8>) -> (r: Option<(usize, usize, Vec<u8>)>)
    ensures
        r matches Some(t) ==> {
            &&& t.0 <= 65535
            &&& t.1 <= 65535
            &&& t.2@.len() == 4 * t.0 * t.1
        },
{
    let options = zune_core::options::DecoderOptions::default().jpeg_set_out_colorspace(
        zune_core::colorspace::ColorSpace::RGBA,
    );
    let cursor = zune_core::bytestream::ZCursor::new(data);
    let mut decoder = zune_jpeg::JpegDecoder::new_with_options(cursor, options);
    let buf = match decoder.decode() {
        Ok(b) => b,
        Err(_) => return None,
    };
    match decoder.info() {
        Some(i) => Some((i.width as usize, i.height as usize, buf)),
        None => None,
    }
}

} // verus!
