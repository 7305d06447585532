//! What a window shows of a framebuffer.
use vstd::prelude::*;

use super::framebuffer::FrameBuffer;

verus! {

/// The `0RGB` word of the pixel whose bytes are blue, green, red.
pub open spec fn spec_pixel_word(b: u8, g: u8, r: u8) -> u32 {
    ((r as u32) << 16u32) | ((g as u32) << 8u32) | (b as u32)
}

/// The framebuffer's pixels as `0RGB` words, one per whole 4-byte pixel
/// (alpha dropped), in order; a trailing partial pixel is ignored.
pub fn framebuffer_pixels(framebuffer: &FrameBuffer) -> (pixels: Vec<u32>)
    ensures
        pixels@.len() == framebuffer.data@.len() / 4,
        forall|i: int|
            0 <= i < pixels@.len() ==> #[trigger] pixels@[i] == spec_pixel_word(
                framebuffer.data@[4 * i],
                framebuffer.data@[4 * i + 1],
                framebuffer.data@[4 * i + 2],
            ),
{
    let data = &framebuffer.data;
    let len = data.len();
    let n = len / 4;
    let mut pixels: Vec<u32> = Vec::new();
    let mut i: usize = 0;
    while i < n
        invariant
            i <= n,
            n == data@.len() / 4,
            len == data@.len(),
            pixels@.len() == i,
            forall|k: int|
                0 <= k < i ==> #[trigger] pixels@[k] == spec_pixel_word(
                    data@[4 * k],
                    data@[4 * k + 1],
                    data@[4 * k + 2],
                ),
        decreases n - i,
    {
        assert(4 * i + 3 < data@.len()) by (nonlinear_arith)
            requires
                i < n,
                n == data@.len() / 4,
        ;
        let b = data[4 * i] as u32;
        let g = data[4 * i + 1] as u32;
        let r = data[4 * i + 2] as u32;
        pixels.push((r << 16u32) | (g << 8u32) | b);
        i += 1;
    }
    pixels
}

} // verus!
