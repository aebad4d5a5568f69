//! Alpha compositing ("over") of an RGBA overlay onto an opaque base image.

use vstd::prelude::*;

verus! {

/// `fg * a + bg * (1 - a)` with `a = alpha / 255`, rounded to the nearest
/// integer.
///
/// The exact value is `n / 255` with `n = fg * alpha + bg * (255 - alpha)`.
/// As 255 is odd, `n / 255` never lies halfway between two integers, so
/// adding 127 before the division rounds to nearest.
pub open spec fn blended(fg: u8, bg: u8, alpha: u8) -> int {
    (fg * alpha + bg * (255 - alpha) + 127) / 255
}

/// The byte at index `i` of a base image after the overlay has been merged
/// onto it: colour channels are blended with the overlay pixel's alpha, the
/// alpha channel becomes opaque.
pub open spec fn merged_byte(base: Seq<u8>, overlay: Seq<u8>, i: int) -> u8 {
    if i % 4 == 3 {
        255u8
    } else {
        blended(overlay[i], base[i], overlay[i - i % 4 + 3]) as u8
    }
}

/// A base image after the overlay has been merged onto it.
pub open spec fn merged(base: Seq<u8>, overlay: Seq<u8>) -> Seq<u8> {
    Seq::new(base.len(), |i: int| merged_byte(base, overlay, i))
}

/// The blended value is the integer nearest to the exact one.
pub proof fn lemma_blended_is_nearest(fg: u8, bg: u8, alpha: u8)
    ensures
        0 <= blended(fg, bg, alpha) <= 255,
        255 * blended(fg, bg, alpha) - 127 <= fg * alpha + bg * (255 - alpha)
            <= 255 * blended(fg, bg, alpha) + 127,
{
    assert(fg * alpha + bg * (255 - alpha) <= 255 * 255) by (nonlinear_arith)
        requires
            fg <= 255,
            bg <= 255,
            0 <= alpha <= 255,
    ;
    assert(fg * alpha + bg * (255 - alpha) >= 0) by (nonlinear_arith)
        requires
            fg >= 0,
            bg >= 0,
            0 <= alpha <= 255,
    ;
}

/// A fully opaque overlay pixel replaces the channel with its own colour; a
/// fully transparent one leaves the channel as it was.
pub proof fn lemma_blend_extremes(fg: u8, bg: u8)
    ensures
        blended(fg, bg, 255) == fg,
        blended(fg, bg, 0) == bg,
{
}

/// Blending is never a no-op where the overlay's weight visibly differs from
/// the background: once `alpha * |fg - bg|` reaches half a step (128 / 255),
/// the channel moves. In particular, compositing the same overlay again onto
/// an already watermarked channel `bg` changes it under that condition.
pub proof fn lemma_blend_moves_background(fg: u8, bg: u8, alpha: u8)
    requires
        alpha * (fg - bg) >= 128 || alpha * (bg - fg) >= 128,
    ensures
        blended(fg, bg, alpha) != bg,
{
    let n = fg * alpha + bg * (255 - alpha);
    assert(n == 255 * bg + alpha * (fg - bg)) by (nonlinear_arith)
        requires
            n == fg * alpha + bg * (255 - alpha),
    ;
    if alpha * (fg - bg) >= 128 {
        assert(n + 127 >= 255 * (bg + 1));
    } else {
        assert(alpha * (fg - bg) <= -128) by (nonlinear_arith)
            requires
                alpha * (bg - fg) >= 128,
        ;
        assert(n + 127 < 255 * bg);
    }
}

/// Blends one colour channel (see `blended`).
pub fn blend_channel(fg: u8, bg: u8, alpha: u8) -> (r: u8)
    ensures
        r as int == blended(fg, bg, alpha),
{
    proof {
        lemma_blended_is_nearest(fg, bg, alpha);
    }
    let n: u32 = fg as u32 * alpha as u32 + bg as u32 * (255 - alpha as u32);
    ((n + 127) / 255) as u8
}

/// Merges an RGBA overlay onto an RGBA base image of the same size, pixel by
/// pixel: each colour channel of the base becomes the blend of the overlay's
/// channel over it, weighted by the overlay pixel's alpha, and the base's
/// alpha channel becomes opaque.
pub fn merge_overlay(base: &mut Vec<u8>, overlay: &Vec<u8>)
    requires
        old(base)@.len() == overlay@.len(),
        overlay@.len() % 4 == 0,
    ensures
        final(base)@ == merged(old(base)@, overlay@),
        forall|i: int|
            0 <= i < overlay@.len() ==> #[trigger] final(base)@[i] == merged_byte(
                old(base)@,
                overlay@,
                i,
            ),
{
    let ghost before = base@;
    let len: usize = overlay.len();
    let pixels: usize = len / 4;
    let mut p: usize = 0;
    while p < pixels
        invariant
            pixels * 4 == len,
            len == overlay@.len(),
            before.len() == overlay@.len(),
            base@.len() == overlay@.len(),
            p <= pixels,
            forall|i: int| 0 <= i < 4 * p ==> #[trigger] base@[i] == merged_byte(before, overlay@, i),
            forall|i: int| 4 * p <= i < overlay@.len() ==> #[trigger] base@[i] == before[i],
        decreases pixels - p,
    {
        let at: usize = 4 * p;
        let alpha: u8 = overlay[at + 3];
        let r: u8 = blend_channel(overlay[at], base[at], alpha);
        let g: u8 = blend_channel(overlay[at + 1], base[at + 1], alpha);
        let b: u8 = blend_channel(overlay[at + 2], base[at + 2], alpha);
        base[at] = r;
        base[at + 1] = g;
        base[at + 2] = b;
        base[at + 3] = 255;
        assert forall|i: int| at <= i < at + 4 implies #[trigger] base@[i] == merged_byte(
            before,
            overlay@,
            i,
        ) by {
            assert(i - i % 4 == at);
        }
        p = p + 1;
    }
    assert(base@ =~= merged(before, overlay@));
}

} // verus!
