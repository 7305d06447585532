//! The software framebuffer: 4 bytes (B, G, R, A) per pixel, row by row.
use vstd::prelude::*;

verus! {

#[derive(Debug)]
pub struct FrameBuffer {
    pub width: u32,
    pub height: u32,
    pub data: Vec<u8>,
    pub dirty: bool,
}

/// Byte `c` (0 = blue, 1 = green, 2 = red, 3 = alpha) of the test pattern at
/// pixel `p` of a framebuffer `width` pixels wide: blue follows the column,
/// green the row (both modulo 256), red is 120 and alpha opaque.
pub open spec fn test_pattern_byte(width: int, p: int, c: int) -> u8 {
    if c == 0 {
        ((p % width) % 256) as u8
    } else if c == 1 {
        ((p / width) % 256) as u8
    } else if c == 2 {
        120u8
    } else {
        255u8
    }
}

impl FrameBuffer {
    /// A black framebuffer of `width` x `height` pixels, marked dirty. The
    /// byte size must fit in 32 bits.
    pub fn new(width: u32, height: u32) -> (f: Self)
        requires
            width * height * 4 <= u32::MAX,
        ensures
            f.width == width,
            f.height == height,
            f.data@ == Seq::new((width * height * 4) as nat, |i: int| 0u8),
            f.dirty,
    {
        assert(width * height <= width * height * 4) by (nonlinear_arith)
            requires
                width * height * 4 <= u32::MAX,
        ;
        let size = (width * height * 4) as usize;
        let data = vec![0u8; size];
        assert(data@ =~= Seq::new((width * height * 4) as nat, |i: int| 0u8));
        Self { width, height, data, dirty: true }
    }

    /// Copies as much of `src` as fits over the start of the pixels and
    /// marks the framebuffer dirty.
    pub fn update(&mut self, src: &[u8])
        ensures
            ({
                let n = if old(self).data@.len() < src@.len() {
                    old(self).data@.len() as int
                } else {
                    src@.len() as int
                };
                final(self).data@ == src@.subrange(0, n) + old(self).data@.subrange(
                    n,
                    old(self).data@.len() as int,
                )
            }),
            final(self).dirty,
            final(self).width == old(self).width,
            final(self).height == old(self).height,
    {
        let len = if self.data.len() < src.len() {
            self.data.len()
        } else {
            src.len()
        };
        let ghost before = self.data@;
        let mut i: usize = 0;
        while i < len
            invariant
                i <= len,
                len <= src@.len(),
                len <= before.len(),
                self.data@.len() == before.len(),
                self.width == old(self).width,
                self.height == old(self).height,
                forall|j: int| 0 <= j < i ==> self.data@[j] == src@[j],
                forall|j: int| i <= j < before.len() ==> self.data@[j] == before[j],
            decreases len - i,
        {
            self.data.set(i, src[i]);
            i += 1;
        }
        assert(self.data@ =~= src@.subrange(0, len as int) + before.subrange(
            len as int,
            before.len() as int,
        ));
        self.dirty = true;
    }

    /// Paints the test pattern over every pixel; bytes past the last pixel
    /// are left alone.
    pub fn fill_test_pattern(&mut self)
        requires
            old(self).width * old(self).height * 4 <= u32::MAX,
            old(self).data@.len() >= old(self).width * old(self).height * 4,
        ensures
            final(self).width == old(self).width,
            final(self).height == old(self).height,
            final(self).dirty == old(self).dirty,
            final(self).data@.len() == old(self).data@.len(),
            forall|p: int, c: int|
                0 <= p < old(self).width * old(self).height && 0 <= c < 4
                    ==> #[trigger] final(self).data@[4 * p + c]
                    == test_pattern_byte(old(self).width as int, p, c),
            forall|i: int|
                old(self).width * old(self).height * 4 <= i < old(self).data@.len()
                    ==> #[trigger] final(self).data@[i] == old(self).data@[i],
    {
        let w = self.width;
        let h = self.height;
        let ghost before = self.data@;
        let ghost total = w * h;
        assert(w * h <= w * h * 4) by (nonlinear_arith)
            requires
                w * h * 4 <= u32::MAX,
        ;
        let mut y: u32 = 0;
        let mut row: u32 = 0;
        while y < h
            invariant
                w == self.width,
                h == self.height,
                self.dirty == old(self).dirty,
                total == w * h,
                total * 4 <= u32::MAX,
                before.len() >= total * 4,
                y <= h,
                row == y * w,
                row <= total,
                self.data@.len() == before.len(),
                forall|p: int, c: int|
                    0 <= p < row && 0 <= c < 4 ==> #[trigger] self.data@[4 * p + c]
                        == test_pattern_byte(w as int, p, c),
                forall|i: int| 4 * row <= i < before.len() ==> #[trigger] self.data@[i] == before[i],
            decreases h - y,
        {
            assert(row + w <= total) by (nonlinear_arith)
                requires
                    row == y * w,
                    y < h,
                    total == w * h,
            ;
            let mut x: u32 = 0;
            while x < w
                invariant
                    w == self.width,
                    h == self.height,
                    self.dirty == old(self).dirty,
                    total == w * h,
                    total * 4 <= u32::MAX,
                    before.len() >= total * 4,
                    y < h,
                    row == y * w,
                    row + w <= total,
                    x <= w,
                    self.data@.len() == before.len(),
                    forall|p: int, c: int|
                        0 <= p < row + x && 0 <= c < 4 ==> #[trigger] self.data@[4 * p + c]
                            == test_pattern_byte(w as int, p, c),
                    forall|i: int|
                        4 * (row + x) <= i < before.len() ==> #[trigger] self.data@[i] == before[i],
                decreases w - x,
            {
                let p = row + x;
                let index = (p * 4) as usize;
                proof {
                    vstd::arithmetic::div_mod::lemma_fundamental_div_mod_converse(
                        p as int,
                        w as int,
                        y as int,
                        x as int,
                    );
                }
                self.data.set(index, (x % 256) as u8);
                self.data.set(index + 1, (y % 256) as u8);
                self.data.set(index + 2, 120u8);
                self.data.set(index + 3, 255u8);
                proof {
                    assert forall|q: int, c: int|
                        0 <= q < row + x + 1 && 0 <= c < 4 implies #[trigger] self.data@[4 * q + c]
                        == test_pattern_byte(w as int, q, c) by {
                        if q < p {
                            assert(4 * q + c < 4 * p);
                        }
                    }
                }
                x += 1;
            }
            proof {
                assert((y + 1) * w == y * w + w) by (nonlinear_arith);
            }
            row = row + w;
            y += 1;
        }
        assert(row == total) by (nonlinear_arith)
            requires
                row == y * w,
                y == h,
                total == w * h,
        ;
    }

    pub fn clear_dirty(&mut self)
        ensures
            !final(self).dirty,
            final(self).width == old(self).width,
            final(self).height == old(self).height,
            final(self).data@ == old(self).data@,
    {
        self.dirty = false;
    }

    pub fn is_dirty(&self) -> (r: bool)
        ensures
            r == self.dirty,
    {
        self.dirty
    }

    pub fn pixels_mut(&mut self) -> (r: &mut [u8])
        ensures
            r@ == old(self).data@,
            final(r)@ == final(self).data@,
            final(self).width == old(self).width,
            final(self).height == old(self).height,
            final(self).dirty == old(self).dirty,
    {
        self.data.as_mut_slice()
    }
}

} // verus!
