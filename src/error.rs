//! The ways a watermarking request can fail.

use vstd::prelude::*;

verus! {

/// Why a watermark could not be applied. Each failure ends the request it
/// belongs to; none is retried by the library.
#[derive(Clone, Copy, Debug, PartialEq, Eq, Structural)]
pub enum WatermarkError {
    /// The input bytes are not an image that can be decoded.
    Decode,
    /// No font could be loaded to draw the text with.
    Font,
    /// The composited image could not be encoded as JPEG.
    Encode,
}

} // verus!
