//! RGBA rasters and their conversion from and to encoded bytes.

use vstd::prelude::*;
use crate::error::WatermarkError;

verus! {

/// A grid of `width` by `height` RGBA pixels, row by row, four bytes each.
pub struct Raster {
    pub width: u32,
    pub height: u32,
    pub pixels: Vec<u8>,
}

impl Raster {
    /// The pixel buffer holds exactly four bytes per pixel.
    pub open spec fn wf(&self) -> bool {
        self.pixels@.len() == 4 * self.width * self.height
    }
}

#[verifier::external_type_specification]
#[verifier::external_body]
pub struct ExImageError(image::ImageError);

/// Width, height and RGBA bytes of the image that `bytes` encodes, in any
/// format the image codecs recognise; `None` where they reject the bytes.
pub uninterp spec fn decoded_rgba(bytes: Seq<u8>) -> Option<(u32, u32, Seq<u8>)>;

/// The JPEG encoding of an RGBA raster at the given quality (its alpha
/// channel is not encoded); `None` where the encoder fails.
pub uninterp spec fn jpeg_encoded(pixels: Seq<u8>, width: u32, height: u32, quality: u8) -> Option<
    Seq<u8>,
>;

/// Relies on image::load_from_memory, which guesses the format from the
/// bytes and decodes them, and on DynamicImage::into_rgba8 for the
/// conversion to 8-bit RGBA.
#[verifier::external_body]
fn load_rgba(bytes: &[u8]) -> (r: Result<Raster, image::ImageError>)
    ensures
        match r {
            Ok(raster) => decoded_rgba(bytes@) == Some((raster.width, raster.height, raster.pixels@)),
            Err(_) => decoded_rgba(bytes@) is None,
        },
{
    match image::load_from_memory(bytes) {
        Ok(img) => {
            let rgba = img.into_rgba8();
            Ok(Raster { width: rgba.width(), height: rgba.height(), pixels: rgba.into_raw() })
        },
        Err(e) => Err(e),
    }
}

/// Relies on image::codecs::jpeg::JpegEncoder::encode for 8-bit RGBA input,
/// which panics unless the buffer holds four bytes per pixel.
#[verifier::external_body]
fn write_jpeg(pixels: &[u8], width: u32, height: u32, quality: u8) -> (r: Result<
    Vec<u8>,
    image::ImageError,
>)
    requires
        pixels@.len() == 4 * width * height,
    ensures
        match r {
            Ok(out) => jpeg_encoded(pixels@, width, height, quality) == Some(out@),
            Err(_) => jpeg_encoded(pixels@, width, height, quality) is None,
        },
{
    let mut out: Vec<u8> = Vec::new();
    let mut encoder = image::codecs::jpeg::JpegEncoder::new_with_quality(&mut out, quality);
    match encoder.encode(pixels, width, height, image::ColorType::Rgba8) {
        Ok(()) => Ok(out),
        Err(e) => Err(e),
    }
}

/// Whether `bytes` decode to a raster with four bytes per pixel.
pub open spec fn decodes(bytes: Seq<u8>) -> bool {
    match decoded_rgba(bytes) {
        Some((w, h, p)) => p.len() == 4 * w * h,
        None => false,
    }
}

/// Decodes an image of any recognised format into an RGBA raster.
pub fn decode_image(bytes: &[u8]) -> (r: Result<Raster, WatermarkError>)
    ensures
        match r {
            Ok(raster) => {
                &&& raster.wf()
                &&& decoded_rgba(bytes@) == Some((raster.width, raster.height, raster.pixels@))
            },
            Err(e) => e == WatermarkError::Decode && !decodes(bytes@),
        },
{
    match load_rgba(bytes) {
        Ok(raster) => {
            proof {
                let (w, h) = (raster.width as int, raster.height as int);
                assert(4 * w * h <= 4 * 0xffff_ffff * 0xffff_ffff) by (nonlinear_arith)
                    requires
                        0 <= w <= 0xffff_ffff,
                        0 <= h <= 0xffff_ffff,
                ;
            }
            if raster.pixels.len() as u128 == 4 * raster.width as u128 * raster.height as u128 {
                Ok(raster)
            } else {
                Err(WatermarkError::Decode)
            }
        },
        Err(_) => Err(WatermarkError::Decode),
    }
}

/// Encodes a raster as JPEG at the given quality.
pub fn encode_jpeg(raster: &Raster, quality: u8) -> (r: Result<Vec<u8>, WatermarkError>)
    requires
        raster.wf(),
    ensures
        match r {
            Ok(out) => jpeg_encoded(raster.pixels@, raster.width, raster.height, quality) == Some(
                out@,
            ),
            Err(e) => e == WatermarkError::Encode && jpeg_encoded(
                raster.pixels@,
                raster.width,
                raster.height,
                quality,
            ) is None,
        },
{
    match write_jpeg(raster.pixels.as_slice(), raster.width, raster.height, quality) {
        Ok(out) => Ok(out),
        Err(_) => Err(WatermarkError::Encode),
    }
}

} // verus!
