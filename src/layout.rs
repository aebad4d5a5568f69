//! Tiling geometry: glyph scale, shadow displacement, spacing, grid size and
//! grid shift, all derived exactly from the image size and the settings.
//!
//! Lengths are integers in fixed units: the font height in thousandths of a
//! pixel, the glyph scale in millionths, the spacing in billionths and the
//! grid shift and tile anchors in trillionths.

use vstd::prelude::*;
use crate::config::{WatermarkConfig, RATIO_LIMIT};

verus! {

/// Billionths of a pixel in one pixel.
pub const SPACING_UNIT: i128 = 1_000_000_000;

/// Trillionths of a pixel in one pixel.
pub const ANCHOR_UNIT: i128 = 1_000_000_000_000;

/// The geometry of a tile grid.
#[derive(Clone, Copy, Debug, PartialEq, Eq, Structural)]
pub struct TileGeometry {
    /// Font height, in thousandths of a pixel.
    pub font_height: i128,
    /// Glyph scale, in millionths of a pixel.
    pub scale_x: i128,
    pub scale_y: i128,
    /// Shadow displacement, in whole pixels.
    pub shadow_offset_x: i32,
    pub shadow_offset_y: i32,
    /// Distance between neighbouring tiles, in billionths of a pixel.
    pub spacing_x: i128,
    pub spacing_y: i128,
    /// Tiles per row, and rows.
    pub columns: u64,
    pub rows: u64,
    /// Shift of the whole grid, in trillionths of a pixel.
    pub offset_x: i128,
    pub offset_y: i128,
}

pub open spec fn max(a: int, b: int) -> int {
    if a >= b { a } else { b }
}

/// `n / d` rounded to the nearest integer, halves away from zero.
pub open spec fn round_div(n: int, d: int) -> int
    recommends
        d > 0,
{
    if n >= 0 {
        (2 * n + d) / (2 * d)
    } else {
        -((2 * -n + d) / (2 * d))
    }
}

/// `v` saturated to the range of `i32`.
pub open spec fn clamp_i32(v: int) -> i32 {
    if v > i32::MAX {
        i32::MAX
    } else if v < i32::MIN {
        i32::MIN
    } else {
        v as i32
    }
}

/// `n / d` rounded up, for `n >= 0` and `d > 0`.
pub open spec fn ceil_div(n: int, d: int) -> int {
    (n + d - 1) / d
}

/// `max(height * font_height_ratio, font_height_min)`, in thousandths of a pixel.
pub open spec fn font_height_of(height: u32, c: WatermarkConfig) -> int {
    max(height * c.font_height_ratio, c.font_height_min as int)
}

/// Number of tiles of the given spacing (in billionths of a pixel) needed to
/// cover `extent` pixels: `ceil(extent / spacing)`, and 1 where that is less
/// than 1 or the spacing is not positive.
pub open spec fn tile_count(extent: u32, spacing: int) -> int {
    if spacing <= 0 {
        1
    } else {
        max(1, ceil_div(extent * SPACING_UNIT, spacing))
    }
}

/// The geometry that `layout` computes for an image of `width` by `height`
/// pixels. A negative vertical grid shift moves the first row above the
/// image, so one more row is laid to keep the bottom covered.
pub open spec fn is_layout_of(g: TileGeometry, width: u32, height: u32, c: WatermarkConfig) -> bool {
    let fh = font_height_of(height, c);
    let sx = fh * c.font_width_ratio;
    let sy = fh * 1000;
    &&& g.font_height == fh
    &&& g.scale_x == sx
    &&& g.scale_y == sy
    &&& g.shadow_offset_x == clamp_i32(round_div(sx * c.shadow_offset_ratio, SPACING_UNIT as int))
    &&& g.shadow_offset_y == clamp_i32(round_div(sy * c.shadow_offset_ratio, SPACING_UNIT as int))
    &&& g.spacing_x == sx * c.char_spacing_x_ratio
    &&& g.spacing_y == sy * c.char_spacing_y_ratio
    &&& g.columns == tile_count(width, g.spacing_x as int)
    &&& g.rows == tile_count(height, g.spacing_y as int) + (if c.global_offset_y_ratio < 0 { 1int } else { 0 })
    &&& g.offset_x == g.spacing_x * c.global_offset_x_ratio
    &&& g.offset_y == g.spacing_y * c.global_offset_y_ratio
}

/// Largest magnitude of a spacing, in billionths of a pixel.
pub const SPACING_LIMIT: i128 = 0x1_0000_0000_0000_0000_0000_0000;

/// Largest magnitude of a grid shift, in trillionths of a pixel.
pub const OFFSET_LIMIT: i128 = 0x100_0000_0000_0000_0000_0000_0000_0000;

/// Largest number of rows or columns.
pub const COUNT_LIMIT: u64 = 0x8000_0000_0000_0000;

/// Largest extent of a row or column of tiles, in billionths of a pixel.
pub const EXTENT_LIMIT: i128 = 0x1_0000_0000_0000_0000;

impl TileGeometry {
    /// Magnitude bounds that every layout of a well-formed configuration
    /// meets, and that keep anchor arithmetic within `i128`.
    pub open spec fn bounded(&self) -> bool {
        &&& -SPACING_LIMIT <= self.spacing_x <= SPACING_LIMIT
        &&& -SPACING_LIMIT <= self.spacing_y <= SPACING_LIMIT
        &&& -OFFSET_LIMIT <= self.offset_x <= OFFSET_LIMIT
        &&& -OFFSET_LIMIT <= self.offset_y <= OFFSET_LIMIT
        &&& 1 <= self.columns <= COUNT_LIMIT
        &&& 1 <= self.rows <= COUNT_LIMIT
        &&& (self.columns == 1 || (self.spacing_x > 0 && (self.columns - 1) * self.spacing_x
            <= EXTENT_LIMIT))
        &&& (self.rows <= 2 || (self.spacing_y > 0 && (self.rows - 2) * self.spacing_y
            <= EXTENT_LIMIT))
    }
}

/// Largest magnitude of a font height, in thousandths of a pixel.
pub const FONT_LIMIT: i128 = 0x1_0000_0000 * 1_000_000;

/// Largest magnitude of a glyph scale, in millionths of a pixel.
pub const SCALE_LIMIT: i128 = 0x1_0000_0000 * 1_000_000 * 1_000_000;

proof fn lemma_mul_bounded(a: int, b: int, la: int, lb: int)
    requires
        -la <= a <= la,
        -lb <= b <= lb,
    ensures
        -la * lb <= a * b <= la * lb,
{
    assert(-la * lb <= a * b <= la * lb) by (nonlinear_arith)
        requires
            -la <= a <= la,
            -lb <= b <= lb,
    ;
}

/// `n / d` rounded to nearest, halves away from zero.
pub(crate) fn round_div_exec(n: i128, d: i128) -> (r: i128)
    requires
        0 < d <= ANCHOR_UNIT,
        -OFFSET_LIMIT * 8 <= n <= OFFSET_LIMIT * 8,
    ensures
        r == round_div(n as int, d as int),
        -OFFSET_LIMIT * 8 <= r <= OFFSET_LIMIT * 8,
{
    let m: i128 = if n >= 0 { n } else { -n };
    let q: i128 = (2 * m + d) / (2 * d);
    assert(0 <= q <= m) by (nonlinear_arith)
        requires
            q == (2 * m + d) / (2 * d),
            m >= 0,
            d >= 1,
    ;
    if n >= 0 {
        q
    } else {
        -q
    }
}

/// `v` saturated to the range of `i32`.
pub(crate) fn clamp_to_i32(v: i128) -> (r: i32)
    ensures
        r == clamp_i32(v as int),
{
    if v > i32::MAX as i128 {
        i32::MAX
    } else if v < i32::MIN as i128 {
        i32::MIN
    } else {
        v as i32
    }
}

/// Number of tiles covering `extent` pixels at the given spacing (see `tile_count`).
fn count_tiles(extent: u32, spacing: i128) -> (r: u64)
    requires
        -SPACING_LIMIT <= spacing <= SPACING_LIMIT,
    ensures
        r == tile_count(extent, spacing as int),
        1 <= r <= 0x1_0000_0000 * SPACING_UNIT,
        r == 1 || (spacing > 0 && (r - 1) * spacing < extent * SPACING_UNIT),
{
    if spacing <= 0 {
        1
    } else {
        let n: i128 = extent as i128 * SPACING_UNIT;
        let q: i128 = (n + spacing - 1) / spacing;
        proof {
            let qi = q as int;
            let ni = n as int;
            let si = spacing as int;
            assert(qi == (ni + si - 1) / si);
            assert(qi * si <= ni + si - 1) by (nonlinear_arith)
                requires
                    qi == (ni + si - 1) / si,
                    si > 0,
            ;
            assert(qi <= ni) by (nonlinear_arith)
                requires
                    qi == (ni + si - 1) / si,
                    si >= 1,
                    ni >= 0,
            ;
            assert((qi - 1) * si < ni) by (nonlinear_arith)
                requires
                    qi * si <= ni + si - 1,
            ;
        }
        if q < 1 {
            1
        } else {
            q as u64
        }
    }
}

/// Computes the tiling geometry for an image of `width` by `height` pixels.
pub fn layout(width: u32, height: u32, config: &WatermarkConfig) -> (g: TileGeometry)
    requires
        config.wf(),
    ensures
        is_layout_of(g, width, height, *config),
        g.bounded(),
        g.columns >= 1,
        g.rows >= 1,
{
    let c = config;
    proof {
        lemma_mul_bounded(height as int, c.font_height_ratio as int, 0x1_0000_0000, RATIO_LIMIT as int);
    }
    let by_height: i128 = height as i128 * c.font_height_ratio as i128;
    let fh: i128 = if by_height >= c.font_height_min as i128 {
        by_height
    } else {
        c.font_height_min as i128
    };
    proof {
        lemma_mul_bounded(fh as int, c.font_width_ratio as int, FONT_LIMIT as int, RATIO_LIMIT as int);
    }
    let sx: i128 = fh * c.font_width_ratio as i128;
    let sy: i128 = fh * 1000;
    proof {
        lemma_mul_bounded(sx as int, c.shadow_offset_ratio as int, SCALE_LIMIT as int, RATIO_LIMIT as int);
        lemma_mul_bounded(sy as int, c.shadow_offset_ratio as int, SCALE_LIMIT as int, RATIO_LIMIT as int);
        lemma_mul_bounded(sx as int, c.char_spacing_x_ratio as int, SCALE_LIMIT as int, RATIO_LIMIT as int);
        lemma_mul_bounded(sy as int, c.char_spacing_y_ratio as int, SCALE_LIMIT as int, RATIO_LIMIT as int);
    }
    let shadow_x: i128 = sx * c.shadow_offset_ratio as i128;
    let shadow_y: i128 = sy * c.shadow_offset_ratio as i128;
    let spacing_x: i128 = sx * c.char_spacing_x_ratio as i128;
    let spacing_y: i128 = sy * c.char_spacing_y_ratio as i128;
    proof {
        lemma_mul_bounded(spacing_x as int, c.global_offset_x_ratio as int, SPACING_LIMIT as int, RATIO_LIMIT as int);
        lemma_mul_bounded(spacing_y as int, c.global_offset_y_ratio as int, SPACING_LIMIT as int, RATIO_LIMIT as int);
    }
    let offset_x: i128 = spacing_x * c.global_offset_x_ratio as i128;
    let offset_y: i128 = spacing_y * c.global_offset_y_ratio as i128;
    let columns: u64 = count_tiles(width, spacing_x);
    let base_rows: u64 = count_tiles(height, spacing_y);
    let rows: u64 = if c.global_offset_y_ratio < 0 { base_rows + 1 } else { base_rows };
    proof {
        assert(width * SPACING_UNIT <= EXTENT_LIMIT);
        assert(height * SPACING_UNIT <= EXTENT_LIMIT);
        if rows > 2 {
            assert((rows - 2) * spacing_y <= (base_rows - 1) * spacing_y) by (nonlinear_arith)
                requires
                    rows - 2 <= base_rows - 1,
                    spacing_y > 0,
            ;
        }
    }
    TileGeometry {
        font_height: fh,
        scale_x: sx,
        scale_y: sy,
        shadow_offset_x: clamp_to_i32(round_div_exec(shadow_x, SPACING_UNIT)),
        shadow_offset_y: clamp_to_i32(round_div_exec(shadow_y, SPACING_UNIT)),
        spacing_x,
        spacing_y,
        columns,
        rows,
        offset_x,
        offset_y,
    }
}

} // verus!
