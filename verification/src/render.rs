//! The byte-level image pipeline around a capture: probing the decoded
//! dimensions and producing the downscaled, encoded output. Decoding,
//! resampling and encoding are deterministic functions of the bytes, done by
//! the `image` crate behind named results.

use vstd::prelude::*;
use crate::config::CaptureConfig;

verus! {

/// The dimensions the decoder reports for an image byte stream; `None` when
/// the bytes do not decode as an image.
pub uninterp spec fn image_dims(bytes: Seq<u8>) -> Option<(u32, u32)>;

/// Relies on `image::load_from_memory` and `DynamicImage::{width, height}`:
/// decoding depends on the bytes alone.
#[verifier::external_body]
pub(crate) fn decode_dims(bytes: &Vec<u8>) -> (r: Option<(u32, u32)>)
    ensures
        r == image_dims(bytes@),
{
    match image::load_from_memory(bytes.as_slice()) {
        Ok(img) => Some((img.width(), img.height())),
        Err(_) => None,
    }
}

/// The JPEG encoding, at quality `q`, of `bytes` downscaled to fit `w` x `h`
/// with Lanczos resampling; `None` when the bytes do not decode or the
/// encoder refuses the decoded image.
pub uninterp spec fn downscaled_jpeg(bytes: Seq<u8>, w: u32, h: u32, q: u8) -> Option<Seq<u8>>;

/// Relies on `image::load_from_memory`, `DynamicImage::resize` (Lanczos3) and
/// `JpegEncoder::new_with_quality` + `encode_image`: each depends on its
/// arguments alone.
#[verifier::external_body]
fn resize_to_jpeg(bytes: &Vec<u8>, w: u32, h: u32, q: u8) -> (r: Option<Vec<u8>>)
    ensures
        r is Some <==> downscaled_jpeg(bytes@, w, h, q) is Some,
        r is Some ==> r->0@ == downscaled_jpeg(bytes@, w, h, q)->0,
{
    let img = match image::load_from_memory(bytes.as_slice()) {
        Ok(img) => img,
        Err(_) => return None,
    };
    let img = img.resize(w, h, image::imageops::FilterType::Lanczos3);
    let mut out: Vec<u8> = Vec::new();
    let mut enc = image::codecs::jpeg::JpegEncoder::new_with_quality(&mut out, q);
    match enc.encode_image(&img) {
        Ok(()) => Some(out),
        Err(_) => None,
    }
}

/// The PNG re-encoding of `bytes` downscaled to fit `w` x `h` with Lanczos
/// resampling; `None` when the bytes do not decode or the encoder refuses.
pub uninterp spec fn downscaled_png(bytes: Seq<u8>, w: u32, h: u32) -> Option<Seq<u8>>;

/// Relies on `image::load_from_memory`, `DynamicImage::resize` (Lanczos3) and
/// `DynamicImage::write_to` with `ImageFormat::Png`: each depends on its
/// arguments alone.
#[verifier::external_body]
fn resize_to_png(bytes: &Vec<u8>, w: u32, h: u32) -> (r: Option<Vec<u8>>)
    ensures
        r is Some <==> downscaled_png(bytes@, w, h) is Some,
        r is Some ==> r->0@ == downscaled_png(bytes@, w, h)->0,
{
    let img = match image::load_from_memory(bytes.as_slice()) {
        Ok(img) => img,
        Err(_) => return None,
    };
    let img = img.resize(w, h, image::imageops::FilterType::Lanczos3);
    let mut out: Vec<u8> = Vec::new();
    match img.write_to(std::io::Cursor::new(&mut out), image::ImageFormat::Png) {
        Ok(()) => Some(out),
        Err(_) => None,
    }
}

/// The output bytes the active codec produces from a captured image: the
/// capture downscaled to the output resolution, then encoded.
pub open spec fn encoded_capture(bytes: Seq<u8>, cfg: CaptureConfig) -> Option<Seq<u8>> {
    match cfg.jpeg_quality {
        Some(q) => downscaled_jpeg(bytes, cfg.output_width, cfg.output_height, q),
        None => downscaled_png(bytes, cfg.output_width, cfg.output_height),
    }
}

/// Downscale and encode a validated capture under the active codec.
pub fn encode_capture(bytes: &Vec<u8>, cfg: &CaptureConfig) -> (r: Option<Vec<u8>>)
    ensures
        r is Some <==> encoded_capture(bytes@, *cfg) is Some,
        r is Some ==> r->0@ == encoded_capture(bytes@, *cfg)->0,
{
    match cfg.jpeg_quality {
        Some(q) => resize_to_jpeg(bytes, cfg.output_width, cfg.output_height, q),
        None => resize_to_png(bytes, cfg.output_width, cfg.output_height),
    }
}

} // verus!
