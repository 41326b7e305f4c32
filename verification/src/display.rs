//! What a host has to paint to show the screen.

use vstd::prelude::*;
use crate::chip::Chip8;
use crate::machine::{SCREEN_HEIGHT, SCREEN_WIDTH};

verus! {

/// A rectangle on the host's canvas: its top left corner and its size.
#[derive(Debug, Clone, Copy, PartialEq, Eq)]
pub struct Rectangle {
    pub x: i32,
    pub y: i32,
    pub width: u32,
    pub height: u32,
}

/// The pixels of the screen as pairs of column and row, column by column
/// from the left, each column from the top.
pub open spec fn pixel_positions() -> Seq<(int, int)> {
    Seq::new(
        (SCREEN_WIDTH * SCREEN_HEIGHT) as nat,
        |at: int| (at / SCREEN_HEIGHT as int, at % SCREEN_HEIGHT as int),
    )
}

/// The square that shows the pixel in column `x` and row `y` where a pixel
/// is `pixel_ratio` canvas units wide and high.
pub open spec fn pixel_square(x: int, y: int, pixel_ratio: u16) -> Rectangle {
    Rectangle {
        x: (x * pixel_ratio) as i32,
        y: (y * pixel_ratio) as i32,
        width: pixel_ratio as u32,
        height: pixel_ratio as u32,
    }
}

/// The squares of the lit pixels of `screen`, in the order of
/// `pixel_positions`.
pub open spec fn lit_squares(screen: Seq<Seq<bool>>, pixel_ratio: u16) -> Seq<Rectangle> {
    pixel_positions().filter(|at: (int, int)| screen[at.0][at.1]).map_values(
        |at: (int, int)| pixel_square(at.0, at.1, pixel_ratio),
    )
}

/// One square for each lit pixel of the machine's screen, and none for the
/// others.
pub fn lit_rectangles(chip8: &Chip8, pixel_ratio: u16) -> (rectangles: Vec<Rectangle>)
    ensures
        rectangles@ == lit_squares(chip8@.screen, pixel_ratio),
{
    let graphics = chip8.graphics();
    let ghost lit = |at: (int, int)| chip8@.screen[at.0][at.1];
    let ghost square = |at: (int, int)| pixel_square(at.0, at.1, pixel_ratio);
    let mut rectangles: Vec<Rectangle> = Vec::new();
    let mut i: usize = 0;
    proof {
        reveal(Seq::filter);
        assert(pixel_positions().take(0) =~= Seq::empty());
        assert(rectangles@ =~= pixel_positions().take(0).filter(lit).map_values(square));
    }
    while i < SCREEN_WIDTH
        invariant
            i <= SCREEN_WIDTH,
            lit == |at: (int, int)| chip8@.screen[at.0][at.1],
            square == |at: (int, int)| pixel_square(at.0, at.1, pixel_ratio),
            forall|x: int, y: int|
                0 <= x < SCREEN_WIDTH && 0 <= y < SCREEN_HEIGHT ==> #[trigger] graphics@[x]@[y]
                    == chip8@.screen[x][y],
            rectangles@ == pixel_positions().take(i * SCREEN_HEIGHT).filter(lit).map_values(square),
        decreases SCREEN_WIDTH - i,
    {
        let mut j: usize = 0;
        while j < SCREEN_HEIGHT
            invariant
                i < SCREEN_WIDTH,
                j <= SCREEN_HEIGHT,
                lit == |at: (int, int)| chip8@.screen[at.0][at.1],
                square == |at: (int, int)| pixel_square(at.0, at.1, pixel_ratio),
                forall|x: int, y: int|
                    0 <= x < SCREEN_WIDTH && 0 <= y < SCREEN_HEIGHT ==> #[trigger] graphics@[x]@[y]
                        == chip8@.screen[x][y],
                rectangles@ == pixel_positions().take(i * SCREEN_HEIGHT + j).filter(lit).map_values(
                    square,
                ),
            decreases SCREEN_HEIGHT - j,
        {
            let ghost at = i * SCREEN_HEIGHT + j;
            let ghost seen = pixel_positions().take(at);
            proof {
                reveal(Seq::filter);
                let next = pixel_positions().take(at + 1);
                assert(next.drop_last() =~= seen);
                assert(next.last() == (i as int, j as int));
                assert(graphics@[i as int]@[j as int] == chip8@.screen[i as int][j as int]);
                if lit((i as int, j as int)) {
                    assert(next.filter(lit) == seen.filter(lit).push((i as int, j as int)));
                    assert(next.filter(lit).map_values(square) =~= seen.filter(lit).map_values(
                        square,
                    ).push(pixel_square(i as int, j as int, pixel_ratio)));
                } else {
                    assert(next.filter(lit) == seen.filter(lit));
                }
            }
            assert(0 <= i * pixel_ratio <= i32::MAX && 0 <= j * pixel_ratio <= i32::MAX)
                by (nonlinear_arith)
                requires
                    i < 64,
                    j < 32,
                    pixel_ratio <= 0xFFFF,
            ;
            if graphics[i][j] {
                rectangles.push(
                    Rectangle {
                        x: i as i32 * pixel_ratio as i32,
                        y: j as i32 * pixel_ratio as i32,
                        width: pixel_ratio as u32,
                        height: pixel_ratio as u32,
                    },
                );
            }
            j += 1;
        }
        i += 1;
    }
    assert(pixel_positions().take((SCREEN_WIDTH * SCREEN_HEIGHT) as int) =~= pixel_positions());
    rectangles
}

} // verus!
