//! The geometry of the display: how the framebuffer maps onto a window.

use vstd::prelude::*;

verus! {

/// Window pixels along each side of the square that shows one pixel of the
/// framebuffer.
pub const SCALE_FACTOR: u32 = 20;

/// Width of the window in window pixels.
pub const SCREEN_WIDTH: u32 = 64 * SCALE_FACTOR;

/// Height of the window in window pixels.
pub const SCREEN_HEIGHT: u32 = 32 * SCALE_FACTOR;

/// A filled square of the window: its top left corner, its size and its
/// colour as red, green and blue.
#[derive(Clone, Copy, Debug, PartialEq, Eq)]
pub struct Block {
    pub x: i32,
    pub y: i32,
    pub width: u32,
    pub height: u32,
    pub color: (u8, u8, u8),
}

/// White for a pixel that is on, black for one that is off.
pub open spec fn color_of(value: bool) -> (u8, u8, u8) {
    if value {
        (255u8, 255u8, 255u8)
    } else {
        (0u8, 0u8, 0u8)
    }
}

/// The square of the window that shows the pixel `(x, y)` of the
/// framebuffer, in the colour of a pixel that is on or off as `value` says.
pub open spec fn block_of(x: int, y: int, value: bool) -> Block {
    Block {
        x: (x * 20) as i32,
        y: (y * 20) as i32,
        width: 20,
        height: 20,
        color: color_of(value),
    }
}

/// The colour of a pixel as red, green and blue: white when it is on, black
/// when it is off.
pub fn color(value: bool) -> (rgb: (u8, u8, u8))
    ensures
        rgb == color_of(value),
{
    match value {
        true => (255, 255, 255),
        false => (0, 0, 0),
    }
}

/// What to paint for a frame: one square for each pixel of the framebuffer,
/// column by column from the left and from the top down in each column.
pub fn blocks(pixels: &[[bool; 32]; 64]) -> (frame: Vec<Block>)
    ensures
        frame@.len() == 64 * 32,
        forall|x: int, y: int|
            0 <= x < 64 && 0 <= y < 32 ==> frame@[x * 32 + y] == block_of(x, y, pixels@[x]@[y]),
{
    let mut frame: Vec<Block> = Vec::new();
    for x in 0..64usize
        invariant
            frame@.len() == x * 32,
            forall|px: int, py: int|
                0 <= px < x && 0 <= py < 32 ==> frame@[px * 32 + py] == block_of(
                    px,
                    py,
                    pixels@[px]@[py],
                ),
    {
        for y in 0..32usize
            invariant
                x < 64,
                frame@.len() == x * 32 + y,
                forall|px: int, py: int|
                    0 <= px < x && 0 <= py < 32 ==> frame@[px * 32 + py] == block_of(
                        px,
                        py,
                        pixels@[px]@[py],
                    ),
                forall|py: int|
                    0 <= py < y ==> frame@[x * 32 + py] == block_of(
                        x as int,
                        py,
                        pixels@[x as int]@[py],
                    ),
        {
            let left = (x as u32) * SCALE_FACTOR;
            let top = (y as u32) * SCALE_FACTOR;
            frame.push(
                Block {
                    x: left as i32,
                    y: top as i32,
                    width: SCALE_FACTOR,
                    height: SCALE_FACTOR,
                    color: color(pixels[x][y]),
                },
            );
        }
    }
    frame
}

} // verus!
