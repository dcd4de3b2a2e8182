//! The serial pass that ends a frame: the colours that were computed for the
//! pixels, each on its own, are written to the framebuffer one by one.
//!
//! Pixels are numbered row by row from the top left.  The pass sets the
//! current draw colour and then plots the point, in that order, once for
//! every pixel.

use vstd::prelude::*;
use crate::color::Color;
use crate::framebuffer::Framebuffer;

verus! {

/// The column and the row of the pixel with the given number, in a grid of
/// the given width.
pub fn pixel_position(index: usize, width: usize) -> (p: (usize, usize))
    requires
        width > 0,
    ensures
        p.0 == index % width,
        p.1 == index / width,
        p.0 < width,
        p.1 * width + p.0 == index,
{
    let x: usize = index % width;
    let y: usize = index / width;
    proof {
        vstd::arithmetic::div_mod::lemma_fundamental_div_mod(index as int, width as int);
        vstd::arithmetic::mul::lemma_mul_is_commutative(width as int, index as int / width as int);
    }
    (x, y)
}

/// Two pixels with different numbers lie at different places, so the
/// colours of a frame never overwrite one another.
pub proof fn law_positions_are_distinct(i: int, j: int, width: int)
    requires
        width > 0,
        0 <= i,
        0 <= j,
        i != j,
    ensures
        i % width != j % width || i / width != j / width,
{
    vstd::arithmetic::div_mod::lemma_fundamental_div_mod(i, width);
    vstd::arithmetic::div_mod::lemma_fundamental_div_mod(j, width);
}

/// The number of pixels that a pass writes: all that have both a colour and
/// a place.
pub open spec fn written(framebuffer: Framebuffer, pixels: Seq<Color>) -> int {
    if pixels.len() <= framebuffer.buffer@.len() {
        pixels.len() as int
    } else {
        framebuffer.buffer@.len() as int
    }
}

/// Writes the colours of a frame to the framebuffer.
///
/// Pixel `i` takes the packed form of `pixels[i]`.  Where there are fewer
/// colours than pixels the remaining pixels keep what they held, and colours
/// beyond the grid are not written.  The current draw colour ends as that of
/// the last pixel written.
pub fn render(framebuffer: &mut Framebuffer, pixels: &Vec<Color>)
    requires
        old(framebuffer).well_formed(),
    ensures
        final(framebuffer).well_formed(),
        final(framebuffer).width == old(framebuffer).width,
        final(framebuffer).height == old(framebuffer).height,
        final(framebuffer).background_color == old(framebuffer).background_color,
        final(framebuffer).buffer@.len() == old(framebuffer).buffer@.len(),
        forall|i: int|
            0 <= i < written(*old(framebuffer), pixels@) ==> final(framebuffer).buffer@[i]
                == pixels@[i].hex(),
        forall|i: int|
            written(*old(framebuffer), pixels@) <= i < old(framebuffer).buffer@.len()
                ==> final(framebuffer).buffer@[i] == old(framebuffer).buffer@[i],
        final(framebuffer).current_color == (if written(*old(framebuffer), pixels@) == 0 {
            old(framebuffer).current_color
        } else {
            pixels@[written(*old(framebuffer), pixels@) - 1].hex() as u32
        }),
{
    let places: usize = framebuffer.buffer.len();
    let count: usize = if pixels.len() <= places {
        pixels.len()
    } else {
        places
    };
    let width: usize = framebuffer.width;
    let mut index: usize = 0;
    while index < count
        invariant
            index <= count,
            count == written(*old(framebuffer), pixels@),
            count <= pixels@.len(),
            count <= places,
            places == old(framebuffer).buffer@.len(),
            width == old(framebuffer).width,
            framebuffer.well_formed(),
            framebuffer.width == old(framebuffer).width,
            framebuffer.height == old(framebuffer).height,
            framebuffer.background_color == old(framebuffer).background_color,
            framebuffer.buffer@.len() == old(framebuffer).buffer@.len(),
            forall|i: int| 0 <= i < index ==> framebuffer.buffer@[i] == pixels@[i].hex(),
            forall|i: int|
                index <= i < places ==> framebuffer.buffer@[i] == old(framebuffer).buffer@[i],
            framebuffer.current_color == (if index == 0 {
                old(framebuffer).current_color
            } else {
                pixels@[index - 1].hex() as u32
            }),
        decreases count - index,
    {
        proof {
            if width == 0 {
                assert(framebuffer.width * framebuffer.height == 0) by (nonlinear_arith)
                    requires
                        framebuffer.width == 0,
                ;
            }
        }
        let (x, y) = pixel_position(index, width);
        proof {
            assert(y < framebuffer.height) by (nonlinear_arith)
                requires
                    y * width + x == index,
                    index < width * framebuffer.height,
                    0 <= x,
                    width > 0,
            ;
        }
        framebuffer.set_current_color(pixels[index].to_hex());
        framebuffer.point(x, y);
        index = index + 1;
    }
}

} // verus!
