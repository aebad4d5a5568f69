//! The watermarking pipeline around glyph rasterisation: decoding and
//! laying out the tiles before it, merging the rendered overlay and
//! encoding the result after it.

use vstd::prelude::*;
use vstd::string::StrSliceExecFns;
use vstd::arithmetic::div_mod::lemma_mod_multiples_basic;
use crate::blend::{merge_overlay, merged};
use crate::config::WatermarkConfig;
use crate::error::WatermarkError;
use crate::layout::{TileGeometry, layout, is_layout_of};
use crate::raster::{Raster, decode_image, encode_jpeg, decoded_rgba, decodes, jpeg_encoded};
use crate::tiles::{Tile, plan_tiles, is_plan_of};

verus! {

/// A decoded image together with the tiles to draw over it.
pub struct Composition {
    pub base: Raster,
    pub geometry: TileGeometry,
    /// The characters of the watermark text.
    pub text: Vec<char>,
    pub tiles: Vec<Tile>,
}

/// What to do with an image before any glyph is drawn.
pub enum Prepared {
    /// The text is empty: the input bytes are the output, unchanged.
    PassThrough(Vec<u8>),
    /// Draw the tiles onto a transparent overlay of the base's size, then
    /// call `finish`.
    Compose(Composition),
}

/// The characters of `text`, in order.
pub fn chars_of(text: &str) -> (v: Vec<char>)
    ensures
        v@ == text@,
{
    let n: usize = text.unicode_len();
    let mut v: Vec<char> = Vec::new();
    let mut i: usize = 0;
    while i < n
        invariant
            n == text@.len(),
            i <= n,
            v@ == text@.subrange(0, i as int),
        decreases n - i,
    {
        v.push(text.get_char(i));
        i = i + 1;
        assert(v@ =~= text@.subrange(0, i as int));
    }
    assert(v@ =~= text@);
    v
}

/// `comp` is the composition of the image `bytes` encode with `text` under `config`.
pub open spec fn is_composition_of(
    comp: Composition,
    bytes: Seq<u8>,
    text: Seq<char>,
    config: WatermarkConfig,
) -> bool {
    &&& comp.base.wf()
    &&& decoded_rgba(bytes) == Some((comp.base.width, comp.base.height, comp.base.pixels@))
    &&& is_layout_of(comp.geometry, comp.base.width, comp.base.height, config)
    &&& comp.geometry.bounded()
    &&& comp.text@ == text
    &&& is_plan_of(comp.tiles@, comp.geometry, text)
}

/// First half of watermarking: an empty text leaves the image as it is;
/// otherwise the image is decoded and the tile grid laid out over it.
pub fn prepare(image_bytes: Vec<u8>, text: &str, config: &WatermarkConfig) -> (r: Result<
    Prepared,
    WatermarkError,
>)
    requires
        config.wf(),
    ensures
        text@.len() == 0 ==> (match r {
            Ok(Prepared::PassThrough(out)) => out@ == image_bytes@,
            _ => false,
        }),
        text@.len() > 0 && !decodes(image_bytes@) ==> r == Err::<Prepared, WatermarkError>(
            WatermarkError::Decode,
        ),
        text@.len() > 0 && decodes(image_bytes@) ==> (match r {
            Ok(Prepared::Compose(comp)) => is_composition_of(comp, image_bytes@, text@, *config),
            _ => false,
        }),
{
    let chars = chars_of(text);
    if chars.len() == 0 {
        return Ok(Prepared::PassThrough(image_bytes));
    }
    match decode_image(image_bytes.as_slice()) {
        Ok(base) => {
            let geometry = layout(base.width, base.height, config);
            let tiles = plan_tiles(&geometry, &chars);
            Ok(Prepared::Compose(Composition { base, geometry, text: chars, tiles }))
        },
        Err(e) => Err(e),
    }
}

/// Second half of watermarking: merges the rendered overlay (RGBA, the
/// base's size) onto the base image and encodes the result as JPEG.
pub fn finish(comp: Composition, overlay: &Vec<u8>, quality: u8) -> (r: Result<
    Vec<u8>,
    WatermarkError,
>)
    requires
        comp.base.wf(),
        overlay@.len() == comp.base.pixels@.len(),
    ensures
        match r {
            Ok(out) => jpeg_encoded(
                merged(comp.base.pixels@, overlay@),
                comp.base.width,
                comp.base.height,
                quality,
            ) == Some(out@),
            Err(e) => e == WatermarkError::Encode && jpeg_encoded(
                merged(comp.base.pixels@, overlay@),
                comp.base.width,
                comp.base.height,
                quality,
            ) is None,
        },
{
    let mut base = comp.base;
    proof {
        let wh = base.width * base.height;
        assert(4 * base.width * base.height == wh * 4) by (nonlinear_arith)
            requires
                wh == base.width * base.height,
        ;
        lemma_mod_multiples_basic(wh, 4);
    }
    merge_overlay(&mut base.pixels, overlay);
    encode_jpeg(&base, quality)
}

} // verus!
