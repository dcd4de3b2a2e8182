//! The grid of packed pixels that a frame is written to.
//!
//! A point is plotted in two moves: the current draw colour is set, then the
//! point is written in that colour.

use vstd::prelude::*;

verus! {

pub struct Framebuffer {
    pub width: usize,
    pub height: usize,
    /// The pixels, row by row from the top.
    pub buffer: Vec<u32>,
    pub background_color: u32,
    pub current_color: u32,
}

impl Framebuffer {
    /// The buffer holds one pixel for each place of the grid.
    pub open spec fn well_formed(&self) -> bool {
        self.buffer@.len() == self.width * self.height
    }

    /// The place of pixel `(x, y)` in the buffer.
    pub open spec fn slot(&self, x: int, y: int) -> int {
        y * self.width + x
    }

    /// A framebuffer of the given size, every pixel black.  Returns `None`
    /// exactly when the number of pixels does not fit the machine.
    pub fn new(width: usize, height: usize) -> (r: Option<Framebuffer>)
        ensures
            r is Some <==> width * height <= usize::MAX,
            r matches Some(fb) ==> {
                &&& fb.well_formed()
                &&& fb.width == width
                &&& fb.height == height
                &&& fb.background_color == 0
                &&& fb.current_color == 0xff_ffff
                &&& forall|i: int| 0 <= i < width * height ==> fb.buffer@[i] == 0
            },
    {
        match width.checked_mul(height) {
            None => None,
            Some(count) => {
                let mut buffer: Vec<u32> = Vec::new();
                let mut i: usize = 0;
                while i < count
                    invariant
                        i <= count,
                        buffer@.len() == i,
                        forall|j: int| 0 <= j < i ==> buffer@[j] == 0,
                    decreases count - i,
                {
                    buffer.push(0);
                    i = i + 1;
                }
                Some(
                    Framebuffer {
                        width,
                        height,
                        buffer,
                        background_color: 0,
                        current_color: 0xff_ffff,
                    },
                )
            },
        }
    }

    pub fn set_background_color(&mut self, color: u32)
        ensures
            *final(self) == (Framebuffer { background_color: color, ..*old(self) }),
    {
        self.background_color = color;
    }

    pub fn set_current_color(&mut self, color: u32)
        ensures
            *final(self) == (Framebuffer { current_color: color, ..*old(self) }),
    {
        self.current_color = color;
    }

    /// Paints every pixel in the background colour.
    pub fn clear(&mut self)
        ensures
            final(self).width == old(self).width,
            final(self).height == old(self).height,
            final(self).background_color == old(self).background_color,
            final(self).current_color == old(self).current_color,
            final(self).buffer@.len() == old(self).buffer@.len(),
            forall|i: int|
                0 <= i < final(self).buffer@.len() ==> final(self).buffer@[i]
                    == old(self).background_color,
    {
        let n: usize = self.buffer.len();
        let mut i: usize = 0;
        while i < n
            invariant
                i <= n,
                n == self.buffer@.len(),
                self.width == old(self).width,
                self.height == old(self).height,
                self.background_color == old(self).background_color,
                self.current_color == old(self).current_color,
                self.buffer@.len() == old(self).buffer@.len(),
                forall|j: int| 0 <= j < i ==> self.buffer@[j] == self.background_color,
            decreases n - i,
        {
            let color = self.background_color;
            self.buffer.set(i, color);
            i = i + 1;
        }
    }

    /// Writes the pixel `(x, y)` in the current draw colour.  A point outside
    /// the grid is not written.
    pub fn point(&mut self, x: usize, y: usize)
        requires
            old(self).well_formed(),
        ensures
            final(self).width == old(self).width,
            final(self).height == old(self).height,
            final(self).background_color == old(self).background_color,
            final(self).current_color == old(self).current_color,
            final(self).buffer@ == (if x < old(self).width && y < old(self).height {
                old(self).buffer@.update(old(self).slot(x as int, y as int), old(self).current_color)
            } else {
                old(self).buffer@
            }),
    {
        if x < self.width && y < self.height {
            let len: usize = self.buffer.len();
            proof {
                lemma_slot_in_range(self.width as int, self.height as int, x as int, y as int);
                assert(self.width * self.height == len);
            }
            let index: usize = y * self.width + x;
            let color = self.current_color;
            self.buffer.set(index, color);
        }
    }
}

/// A place inside the grid has its slot inside the buffer.
pub proof fn lemma_slot_in_range(width: int, height: int, x: int, y: int)
    requires
        0 <= x < width,
        0 <= y < height,
    ensures
        0 <= y * width + x < width * height,
        0 <= y * width <= width * height,
{
    assert(y * width + x < width * height && 0 <= y * width <= width * height) by (nonlinear_arith)
        requires
            0 <= x < width,
            0 <= y < height,
    ;
}

} // verus!
