//! The software framebuffer: a fixed 320 x 200 grid of packed pixels.

use vstd::prelude::*;

verus! {

/// Screen width in columns.
pub const WIDTH: usize = 320;

/// Screen height in rows.
pub const HEIGHT: usize = 200;

/// Row-major framebuffer of `0x00RRGGBB` pixel words; the top-left pixel
/// is `(0, 0)`, `x` grows right and `y` grows down.
#[derive(Debug, PartialEq, Eq)]
pub struct Frame {
    pub pixels: Vec<u32>,
}

impl Frame {
    /// One word per pixel.
    pub open spec fn wf(self) -> bool {
        self.pixels.len() == 64000
    }

    /// The pixel word at `(x, y)`.
    pub open spec fn spec_pixel(self, x: int, y: int) -> u32 {
        self.pixels@[y * 320 + x]
    }

    /// An all-black frame.
    pub fn new() -> (r: Frame)
        ensures
            r.wf(),
            forall|i: int| 0 <= i < 64000 ==> r.pixels@[i] == 0,
    {
        let mut pixels: Vec<u32> = Vec::new();
        let mut i: usize = 0;
        while i < 64000
            invariant
                i <= 64000,
                pixels.len() == i,
                forall|j: int| 0 <= j < i ==> pixels@[j] == 0,
            decreases 64000 - i,
        {
            pixels.push(0);
            i += 1;
        }
        Frame { pixels }
    }

    /// Write one pixel.
    pub fn set(&mut self, x: usize, y: usize, color: u32)
        requires
            old(self).wf(),
            x < 320,
            y < 200,
        ensures
            final(self).wf(),
            final(self).pixels@ == old(self).pixels@.update(y * 320 + x, color),
    {
        self.pixels.set(y * 320 + x, color);
    }

    /// Read one pixel.
    pub fn get(&self, x: usize, y: usize) -> (r: u32)
        requires
            self.wf(),
            x < 320,
            y < 200,
        ensures
            r == self.spec_pixel(x as int, y as int),
    {
        self.pixels[y * 320 + x]
    }
}

} // verus!
