//! The 64 by 32 monochrome display and the sprite blit that draws on it.

use vstd::prelude::*;

verus! {

/// Pixels in a row.
pub const DISPLAY_WIDTH: usize = 64;

/// Rows on the display.
pub const DISPLAY_HEIGHT: usize = 32;

/// Pixels on the display.
pub const PIXEL_COUNT: usize = 2048;

/// Pixels in a sprite row: one byte, the most significant bit leftmost.
pub const SPRITE_WIDTH: u8 = 8;

/// Whether a sprite row has its pixel in column `col` set, column 0 being the
/// most significant bit.
pub open spec fn sprite_bit(row_bits: u8, col: int) -> bool {
    row_bits & (0x80u8 >> (col as u8)) != 0
}

/// Whether the sprite drawn at (`x0`, `y0`) has a set pixel on the display
/// position (`px`, `py`). Sprite pixel (`row`, `col`) lands `col` to the right and
/// `row` below the start position, both counted around the edges of the display,
/// so the position is hit from the sprite pixel that lies that far back.
pub open spec fn sprite_covers(sprite: Seq<u8>, x0: int, y0: int, px: int, py: int) -> bool {
    let col = (px - x0) % (DISPLAY_WIDTH as int);
    let row = (py - y0) % (DISPLAY_HEIGHT as int);
    row < sprite.len() && col < SPRITE_WIDTH && sprite_bit(sprite[row], col)
}

/// Whether the sprite drawn at (`x0`, `y0`) has a set pixel on the display cell
/// with row-major index `k`.
pub open spec fn covered_at(sprite: Seq<u8>, x0: int, y0: int, k: int) -> bool {
    sprite_covers(sprite, x0, y0, k % (DISPLAY_WIDTH as int), k / (DISPLAY_WIDTH as int))
}

/// The display after the sprite is drawn at (`x0`, `y0`): every cell under a set
/// sprite pixel is flipped, every other cell stays.
pub open spec fn blit(pixels: Seq<bool>, sprite: Seq<u8>, x0: int, y0: int) -> Seq<bool> {
    Seq::new(pixels.len(), |k: int| pixels[k] != covered_at(sprite, x0, y0, k))
}

/// Whether drawing the sprite at (`x0`, `y0`) turns a lit pixel off.
pub open spec fn collides(pixels: Seq<bool>, sprite: Seq<u8>, x0: int, y0: int) -> bool {
    exists|k: int| 0 <= k < pixels.len() && pixels[k] && #[trigger] covered_at(sprite, x0, y0, k)
}

/// Like `covered_at`, for the part of the sprite that comes before pixel
/// (`row`, `col`) in reading order.
spec fn covered_before(
    sprite: Seq<u8>,
    x0: int,
    y0: int,
    k: int,
    row: int,
    col: int,
) -> bool {
    let c = (k % (DISPLAY_WIDTH as int) - x0) % (DISPLAY_WIDTH as int);
    let r = (k / (DISPLAY_WIDTH as int) - y0) % (DISPLAY_HEIGHT as int);
    (r < row || (r == row && c < col)) && covered_at(sprite, x0, y0, k)
}

/// Sprite pixel (`row`, `col`) decides the cell `col` to the right of and `row`
/// below the start position, taken modulo the display's width and height.
pub proof fn lemma_sprite_lands(sprite: Seq<u8>, x0: int, y0: int, row: int, col: int)
    requires
        0 <= row < sprite.len() <= DISPLAY_HEIGHT,
        0 <= col < SPRITE_WIDTH,
    ensures
        sprite_covers(
            sprite,
            x0,
            y0,
            (x0 % (DISPLAY_WIDTH as int) + col) % (DISPLAY_WIDTH as int),
            (y0 % (DISPLAY_HEIGHT as int) + row) % (DISPLAY_HEIGHT as int),
        ) == sprite_bit(sprite[row], col),
{
    let px = (x0 % (DISPLAY_WIDTH as int) + col) % (DISPLAY_WIDTH as int);
    let py = (y0 % (DISPLAY_HEIGHT as int) + row) % (DISPLAY_HEIGHT as int);
    assert((px - x0) % (DISPLAY_WIDTH as int) == col);
    assert((py - y0) % (DISPLAY_HEIGHT as int) == row);
}

/// Drawing the same sprite twice at the same position restores the display.
pub proof fn lemma_blit_twice(pixels: Seq<bool>, sprite: Seq<u8>, x0: int, y0: int)
    ensures
        blit(blit(pixels, sprite, x0, y0), sprite, x0, y0) == pixels,
{
    assert(blit(blit(pixels, sprite, x0, y0), sprite, x0, y0) =~= pixels);
}

/// A collision is reported exactly when some pixel that was lit is dark after
/// the draw.
pub proof fn lemma_collision_turns_off(pixels: Seq<bool>, sprite: Seq<u8>, x0: int, y0: int)
    ensures
        collides(pixels, sprite, x0, y0) <==> exists|k: int|
            0 <= k < pixels.len() && #[trigger] pixels[k] && !blit(pixels, sprite, x0, y0)[k],
{
    if collides(pixels, sprite, x0, y0) {
        let k = choose|k: int|
            0 <= k < pixels.len() && pixels[k] && #[trigger] covered_at(sprite, x0, y0, k);
        assert(pixels[k] && !blit(pixels, sprite, x0, y0)[k]);
    }
    if exists|k: int|
        0 <= k < pixels.len() && #[trigger] pixels[k] && !blit(pixels, sprite, x0, y0)[k] {
        let k = choose|k: int|
            0 <= k < pixels.len() && #[trigger] pixels[k] && !blit(pixels, sprite, x0, y0)[k];
        assert(covered_at(sprite, x0, y0, k));
    }
}

/// The display: one flag per pixel, row by row from the top left.
pub struct Display {
    pixels: [bool; PIXEL_COUNT],
}

impl Display {
    /// The pixels in row-major order: pixel (`x`, `y`) is entry `y * 64 + x`, and
    /// `true` is lit.
    pub closed spec fn view(&self) -> Seq<bool> {
        self.pixels@
    }

    /// The display always has `PIXEL_COUNT` pixels.
    pub proof fn lemma_len(&self)
        ensures
            self@.len() == PIXEL_COUNT,
    {
    }

    /// A dark display.
    pub fn new() -> (d: Display)
        ensures
            d@ == Seq::new(PIXEL_COUNT as nat, |k: int| false),
    {
        let d = Display { pixels: [false;PIXEL_COUNT] };
        assert(d.pixels@ =~= Seq::new(PIXEL_COUNT as nat, |k: int| false));
        d
    }

    /// Turns every pixel off.
    pub fn clear(&mut self)
        ensures
            final(self)@ == Seq::new(PIXEL_COUNT as nat, |k: int| false),
    {
        let mut k: usize = 0;
        while k < PIXEL_COUNT
            invariant
                k <= PIXEL_COUNT,
                forall|j: int| 0 <= j < k ==> self.pixels@[j] == false,
            decreases PIXEL_COUNT - k,
        {
            self.pixels[k] = false;
            k += 1;
        }
        assert(self.pixels@ =~= Seq::new(PIXEL_COUNT as nat, |k: int| false));
    }

    /// Whether the pixel in column `x` of row `y` is lit.
    pub fn pixel(&self, x: usize, y: usize) -> (lit: bool)
        requires
            x < DISPLAY_WIDTH,
            y < DISPLAY_HEIGHT,
        ensures
            lit == self@[y * DISPLAY_WIDTH + x],
    {
        self.pixels[y * DISPLAY_WIDTH + x]
    }

    /// Draws a sprite, one byte per row, with its top left corner at column
    /// `x mod 64` of row `y mod 32`. Set sprite pixels flip the pixel they land
    /// on; what reaches past the right or the bottom edge comes back in at the
    /// opposite edge. The result tells whether a lit pixel was turned off.
    pub fn draw(&mut self, x: u8, y: u8, sprite: &[u8]) -> (collision: bool)
        requires
            sprite@.len() <= DISPLAY_HEIGHT,
        ensures
            final(self)@ == blit(old(self)@, sprite@, x as int, y as int),
            collision == collides(old(self)@, sprite@, x as int, y as int),
    {
        let ghost before = self.pixels@;
        let ghost x0 = x as int;
        let ghost y0 = y as int;
        let left: usize = (x % 64) as usize;
        let top: usize = (y % 32) as usize;
        let height: usize = sprite.len();
        let mut collision = false;
        let mut row: usize = 0;
        while row < height
            invariant
                row <= height,
                height == sprite@.len(),
                height <= DISPLAY_HEIGHT,
                before.len() == PIXEL_COUNT,
                x0 == x,
                y0 == y,
                left == x % 64,
                top == y % 32,
                forall|k: int|
                    0 <= k < PIXEL_COUNT ==> self.pixels@[k] == (before[k] != covered_before(
                        sprite@,
                        x0,
                        y0,
                        k,
                        row as int,
                        0,
                    )),
                collision == exists|k: int|
                    0 <= k < PIXEL_COUNT && before[k] && #[trigger] covered_before(
                        sprite@,
                        x0,
                        y0,
                        k,
                        row as int,
                        0,
                    ),
            decreases height - row,
        {
            let bits = sprite[row];
            let py: usize = (top + row) % 32;
            let mut col: u8 = 0;
            while col < 8
                invariant
                    col <= 8,
                    row < height,
                    height == sprite@.len(),
                    height <= DISPLAY_HEIGHT,
                    before.len() == PIXEL_COUNT,
                    x0 == x,
                    y0 == y,
                    left == x % 64,
                    top == y % 32,
                    py == (top + row) % 32,
                    bits == sprite@[row as int],
                    forall|k: int|
                        0 <= k < PIXEL_COUNT ==> self.pixels@[k] == (before[k] != covered_before(
                            sprite@,
                            x0,
                            y0,
                            k,
                            row as int,
                            col as int,
                        )),
                    collision == exists|k: int|
                        0 <= k < PIXEL_COUNT && before[k] && #[trigger] covered_before(
                            sprite@,
                            x0,
                            y0,
                            k,
                            row as int,
                            col as int,
                        ),
                decreases 8 - col,
            {
                let mask: u8 = 0x80u8 >> col;
                let px: usize = (left + col as usize) % 64;
                let idx: usize = py * 64 + px;
                let ghost prior = self.pixels@;
                let ghost prior_collision = collision;
                proof {
                    lemma_cell_of_sprite_pixel(x0, y0, row as int, col as int, idx as int);
                }
                if bits & mask != 0 {
                    if self.pixels[idx] {
                        collision = true;
                    }
                    self.pixels[idx] = !self.pixels[idx];
                }
                proof {
                    assert(sprite_bit(bits, col as int) == (bits & mask != 0));
                    assert forall|k: int| 0 <= k < PIXEL_COUNT implies self.pixels@[k] == (before[k]
                        != covered_before(sprite@, x0, y0, k, row as int, col + 1)) by {
                        lemma_cell_is_unique(x0, y0, row as int, col as int, idx as int, k);
                    }
                    if collision {
                        if prior_collision {
                            let k = choose|k: int|
                                0 <= k < PIXEL_COUNT && before[k] && #[trigger] covered_before(
                                    sprite@,
                                    x0,
                                    y0,
                                    k,
                                    row as int,
                                    col as int,
                                );
                            assert(covered_before(sprite@, x0, y0, k, row as int, col + 1));
                        } else {
                            let cell = idx as int;
                            assert(covered_before(sprite@, x0, y0, cell, row as int, col + 1));
                        }
                    } else {
                        assert forall|k: int|
                            0 <= k < PIXEL_COUNT && before[k] implies !covered_before(
                            sprite@,
                            x0,
                            y0,
                            k,
                            row as int,
                            col + 1,
                        ) by {
                            lemma_cell_is_unique(x0, y0, row as int, col as int, idx as int, k);
                            assert(!covered_before(sprite@, x0, y0, k, row as int, col as int));
                        }
                    }
                }
                col += 1;
            }
            proof {
                assert forall|k: int| 0 <= k < PIXEL_COUNT implies covered_before(
                    sprite@,
                    x0,
                    y0,
                    k,
                    row as int,
                    8,
                ) == covered_before(sprite@, x0, y0, k, row + 1, 0) by {}
            }
            row += 1;
        }
        proof {
            assert forall|k: int| 0 <= k < PIXEL_COUNT implies covered_before(
                sprite@,
                x0,
                y0,
                k,
                height as int,
                0,
            ) == covered_at(sprite@, x0, y0, k) by {}
            assert(self.pixels@ =~= blit(before, sprite@, x0, y0));
        }
        collision
    }
}

/// The cell that sprite pixel (`row`, `col`) lands on lies on the display, and
/// looking back from it finds that sprite pixel.
proof fn lemma_cell_of_sprite_pixel(x0: int, y0: int, row: int, col: int, idx: int)
    requires
        0 <= row < DISPLAY_HEIGHT,
        0 <= col < SPRITE_WIDTH,
        idx == ((y0 % 32 + row) % 32) * 64 + (x0 % 64 + col) % 64,
    ensures
        0 <= idx < PIXEL_COUNT,
        (idx % 64 - x0) % 64 == col,
        (idx / 64 - y0) % 32 == row,
{
    let px = (x0 % 64 + col) % 64;
    let py = (y0 % 32 + row) % 32;
    assert(idx % 64 == px && idx / 64 == py);
    assert((px - x0) % 64 == col);
    assert((py - y0) % 32 == row);
}

/// No other cell looks back to sprite pixel (`row`, `col`).
proof fn lemma_cell_is_unique(x0: int, y0: int, row: int, col: int, idx: int, k: int)
    requires
        0 <= row < DISPLAY_HEIGHT,
        0 <= col < SPRITE_WIDTH,
        idx == ((y0 % 32 + row) % 32) * 64 + (x0 % 64 + col) % 64,
        0 <= k < PIXEL_COUNT,
    ensures
        ((k % 64 - x0) % 64 == col && (k / 64 - y0) % 32 == row) <==> k == idx,
{
    let px = (x0 % 64 + col) % 64;
    let py = (y0 % 32 + row) % 32;
    lemma_cell_of_sprite_pixel(x0, y0, row, col, idx);
    assert(idx % 64 == px && idx / 64 == py);
    assert((k % 64 - x0) % 64 == col ==> k % 64 == px);
    assert((k / 64 - y0) % 32 == row ==> k / 64 == py);
    assert(k == (k / 64) * 64 + k % 64);
}

} // verus!
