//! Process-wide settings. Ratios are fixed-point numbers in thousandths
//! (`1100` stands for 1.1), so that every quantity derived from them can be
//! computed exactly.

use vstd::prelude::*;

verus! {

/// Largest magnitude of a fixed-point ratio (1000.0).
pub const RATIO_LIMIT: i64 = 1_000_000;

/// An RGBA colour with 8-bit channels.
#[derive(Clone, Copy, Debug, PartialEq, Eq, Structural)]
pub struct Color {
    pub r: u8,
    pub g: u8,
    pub b: u8,
    pub a: u8,
}

/// The settings that shape a watermark.
#[derive(Clone, Copy, Debug, PartialEq, Eq, Structural)]
pub struct WatermarkConfig {
    /// Font height as a share of the image height, in thousandths.
    pub font_height_ratio: i64,
    /// Smallest font height, in thousandths of a pixel.
    pub font_height_min: i64,
    /// Glyph width as a share of the font height, in thousandths.
    pub font_width_ratio: i64,
    pub watermark_color: Color,
    pub shadow_color: Color,
    /// Shadow displacement as a share of the glyph scale, in thousandths.
    pub shadow_offset_ratio: i64,
    /// Horizontal distance between tiles as a share of the glyph width, in thousandths.
    pub char_spacing_x_ratio: i64,
    /// Vertical distance between tiles as a share of the glyph height, in thousandths.
    pub char_spacing_y_ratio: i64,
    /// Shift of the whole grid as a share of the horizontal spacing, in thousandths.
    pub global_offset_x_ratio: i64,
    /// Shift of the whole grid as a share of the vertical spacing, in thousandths.
    pub global_offset_y_ratio: i64,
    /// JPEG quality of the output, 1 to 100.
    pub jpeg_quality: u8,
}

pub open spec fn ratio_in_range(v: i64) -> bool {
    -RATIO_LIMIT <= v <= RATIO_LIMIT
}

impl WatermarkConfig {
    /// Every fixed-point setting lies within `RATIO_LIMIT` and the quality
    /// within 1 to 100.
    pub open spec fn wf(&self) -> bool {
        &&& ratio_in_range(self.font_height_ratio)
        &&& ratio_in_range(self.font_height_min)
        &&& ratio_in_range(self.font_width_ratio)
        &&& ratio_in_range(self.shadow_offset_ratio)
        &&& ratio_in_range(self.char_spacing_x_ratio)
        &&& ratio_in_range(self.char_spacing_y_ratio)
        &&& ratio_in_range(self.global_offset_x_ratio)
        &&& ratio_in_range(self.global_offset_y_ratio)
        &&& 1 <= self.jpeg_quality <= 100
    }

    /// Whether the settings are within range (see `wf`).
    pub fn is_valid(&self) -> (r: bool)
        ensures
            r == self.wf(),
    {
        -RATIO_LIMIT <= self.font_height_ratio && self.font_height_ratio <= RATIO_LIMIT
            && -RATIO_LIMIT <= self.font_height_min && self.font_height_min <= RATIO_LIMIT
            && -RATIO_LIMIT <= self.font_width_ratio && self.font_width_ratio <= RATIO_LIMIT
            && -RATIO_LIMIT <= self.shadow_offset_ratio && self.shadow_offset_ratio <= RATIO_LIMIT
            && -RATIO_LIMIT <= self.char_spacing_x_ratio && self.char_spacing_x_ratio
            <= RATIO_LIMIT && -RATIO_LIMIT <= self.char_spacing_y_ratio
            && self.char_spacing_y_ratio <= RATIO_LIMIT && -RATIO_LIMIT
            <= self.global_offset_x_ratio && self.global_offset_x_ratio <= RATIO_LIMIT
            && -RATIO_LIMIT <= self.global_offset_y_ratio && self.global_offset_y_ratio
            <= RATIO_LIMIT && 1 <= self.jpeg_quality && self.jpeg_quality <= 100
    }
}

impl Default for WatermarkConfig {
    /// Font at a tenth of the image height (at least 10 px), glyphs 0.6 as
    /// wide as tall, translucent white text with a translucent black shadow
    /// displaced by 0.065 of the glyph scale, tiles 1.1 glyph widths apart
    /// and 0.4 glyph heights apart, the grid shifted by (-0.5, -1.2)
    /// spacings, JPEG quality 90.
    fn default() -> (c: Self)
        ensures
            c.wf(),
            c.font_height_ratio == 100,
            c.font_height_min == 10_000,
            c.font_width_ratio == 600,
            c.watermark_color == (Color { r: 255, g: 255, b: 255, a: 46 }),
            c.shadow_color == (Color { r: 0, g: 0, b: 0, a: 46 }),
            c.shadow_offset_ratio == 65,
            c.char_spacing_x_ratio == 1100,
            c.char_spacing_y_ratio == 400,
            c.global_offset_x_ratio == -500,
            c.global_offset_y_ratio == -1200,
            c.jpeg_quality == 90,
    {
        WatermarkConfig {
            font_height_ratio: 100,
            font_height_min: 10_000,
            font_width_ratio: 600,
            watermark_color: Color { r: 255, g: 255, b: 255, a: 46 },
            shadow_color: Color { r: 0, g: 0, b: 0, a: 46 },
            shadow_offset_ratio: 65,
            char_spacing_x_ratio: 1100,
            char_spacing_y_ratio: 400,
            global_offset_x_ratio: -500,
            global_offset_y_ratio: -1200,
            jpeg_quality: 90,
        }
    }
}

/// All settings of the service: where it listens, the font, the watermark
/// and the object store that holds the images.
pub struct Config {
    pub host: String,
    pub port: u16,
    /// Worker threads; 0 means one per processor.
    pub workers: usize,
    pub log_level: String,
    pub font_path: String,
    pub watermark: WatermarkConfig,
    pub minio_endpoint: String,
    pub minio_access_key: String,
    pub minio_secret_key: String,
    pub minio_secure: bool,
}

/// A setting that has no default and is missing.
#[derive(Clone, Copy, Debug, PartialEq, Eq, Structural)]
pub enum ConfigError {
    MissingEndpoint,
    MissingAccessKey,
    MissingSecretKey,
    MissingSecure,
}

} // verus!
