//! Tiled text watermarks: layout of a staggered glyph grid over an image,
//! alpha compositing of a rendered overlay onto the image, and the JPEG
//! round trip around them.

pub mod blend;
pub mod config;
pub mod error;
pub mod raster;
pub mod request;
pub mod settings;
pub mod layout;
pub mod location;
pub mod tiles;
pub mod watermark;
