//! The 64x32 monochrome frame buffer and its XOR sprite blitter.

use vstd::prelude::*;
use crate::constants::{SCREEN_HEIGHT, SCREEN_WIDTH};
use crate::text::push_char;

verus! {

/// The pixel grid together with the flag that asks the host to present it.
pub struct Display {
    /// `pixels[y][x]` is `true` where the pixel in column `x` of row `y` is on.
    pub pixels: [[bool; SCREEN_WIDTH]; SCREEN_HEIGHT],
    /// Set by every operation that writes to the grid; cleared by the host
    /// once the frame has been presented.
    pub needs_redraw: bool,
}

/// Number of pixels on the display.
pub open spec fn grid_len() -> nat {
    2048
}

/// Whether bit `bit` of a sprite row is set, counting from the left (bit 0 is
/// the most significant one).
pub open spec fn bit_set(byte: u8, bit: int) -> bool {
    (byte >> ((7 - bit) as u8)) & 1u8 == 1u8
}

/// Whether a sprite row whose leftmost bit lands in column `x0` has a set bit
/// over column `px`, columns wrapping at the right edge.
pub open spec fn row_covers(byte: u8, x0: int, px: int) -> bool {
    let bit = (px - x0) % 64;
    bit < 8 && bit_set(byte, bit)
}

/// The grid after one sprite row has been XORed into row `y`.
#[verifier::opaque]
pub open spec fn draw_row(grid: Seq<bool>, byte: u8, x0: int, y: int) -> Seq<bool> {
    Seq::new(
        grid_len(),
        |i: int|
            if i / 64 == y && row_covers(byte, x0, i % 64) {
                !grid[i]
            } else {
                grid[i]
            },
    )
}

/// Whether bit `bit` of a sprite row drawn into row `y` is set and lands on
/// a pixel whose state is `wanted`.
pub open spec fn bit_meets(grid: Seq<bool>, byte: u8, x0: int, y: int, bit: int, wanted: bool) -> bool {
    bit_set(byte, bit) && grid[y * 64 + (x0 + bit) % 64] == wanted
}

/// Whether XORing one sprite row into row `y` meets a pixel that is on.
#[verifier::opaque]
pub open spec fn row_collides(grid: Seq<bool>, byte: u8, x0: int, y: int) -> bool {
    exists|bit: int| 0 <= bit < 8 && #[trigger] bit_meets(grid, byte, x0, y, bit, true)
}

/// Whether XORing one sprite row into row `y` meets a pixel that is off.
#[verifier::opaque]
pub open spec fn row_lights(grid: Seq<bool>, byte: u8, x0: int, y: int) -> bool {
    exists|bit: int| 0 <= bit < 8 && #[trigger] bit_meets(grid, byte, x0, y, bit, false)
}

/// The grid after the first `n` rows of `sprite` have been drawn with the
/// sprite's origin at `(x0, y0)`; rows wrap at the bottom edge.
pub open spec fn draw_rows(grid: Seq<bool>, sprite: Seq<u8>, x0: int, y0: int, n: nat) -> Seq<bool>
    decreases n,
{
    if n == 0 {
        grid
    } else {
        draw_row(
            draw_rows(grid, sprite, x0, y0, (n - 1) as nat),
            sprite[n - 1],
            x0,
            (y0 + n - 1) % 32,
        )
    }
}

/// Whether any of the first `n` rows of `sprite` turns off a pixel that was
/// on at the moment the row was drawn.
pub open spec fn rows_collide(grid: Seq<bool>, sprite: Seq<u8>, x0: int, y0: int, n: nat) -> bool
    decreases n,
{
    if n == 0 {
        false
    } else {
        rows_collide(grid, sprite, x0, y0, (n - 1) as nat) || row_collides(
            draw_rows(grid, sprite, x0, y0, (n - 1) as nat),
            sprite[n - 1],
            x0,
            (y0 + n - 1) % 32,
        )
    }
}

/// Whether any of the first `n` rows of `sprite` turns on a pixel that was
/// off at the moment the row was drawn.
pub open spec fn rows_light(grid: Seq<bool>, sprite: Seq<u8>, x0: int, y0: int, n: nat) -> bool
    decreases n,
{
    if n == 0 {
        false
    } else {
        rows_light(grid, sprite, x0, y0, (n - 1) as nat) || row_lights(
            draw_rows(grid, sprite, x0, y0, (n - 1) as nat),
            sprite[n - 1],
            x0,
            (y0 + n - 1) % 32,
        )
    }
}

/// The grid after `sprite` has been drawn at `(x, y)`: the origin is taken
/// modulo the grid size and every pixel of the sprite wraps as well.
pub open spec fn drawn(grid: Seq<bool>, x: u8, y: u8, sprite: Seq<u8>) -> Seq<bool> {
    draw_rows(grid, sprite, x as int % 64, y as int % 32, sprite.len())
}

/// Whether drawing `sprite` at `(x, y)` erases any pixel.
pub open spec fn collides(grid: Seq<bool>, x: u8, y: u8, sprite: Seq<u8>) -> bool {
    rows_collide(grid, sprite, x as int % 64, y as int % 32, sprite.len())
}

/// Whether drawing `sprite` at `(x, y)` lights any pixel.
pub open spec fn lights(grid: Seq<bool>, x: u8, y: u8, sprite: Seq<u8>) -> bool {
    rows_light(grid, sprite, x as int % 64, y as int % 32, sprite.len())
}

/// The colour the host shows for a pixel.
pub open spec fn colour(on: bool) -> u32 {
    if on {
        0xFFFFFF
    } else {
        0x000000
    }
}

/// The character that shows a pixel in a text dump: a full block for a
/// pixel that is on, a blank for one that is off.
pub open spec fn pixel_char(on: bool) -> char {
    if on {
        '\u{2588}'
    } else {
        ' '
    }
}

/// A line of a text dump that frames the picture at the top or the bottom:
/// a corner, sixty-four horizontal bars, a corner, and a line feed.
pub open spec fn frame_line(left: char, right: char) -> Seq<char> {
    seq![left] + Seq::new(64, |x: int| '\u{2500}') + seq![right, '\n']
}

/// Row `y` of a text dump: the pixels of the row between two vertical bars,
/// and a line feed.
pub open spec fn text_row(grid: Seq<bool>, y: int) -> Seq<char> {
    seq!['\u{2502}'] + Seq::new(64, |x: int| pixel_char(grid[y * 64 + x])) + seq!['\u{2502}', '\n']
}

/// The first `n` rows of a text dump, one behind the other.
pub open spec fn text_rows(grid: Seq<bool>, n: nat) -> Seq<char>
    decreases n,
{
    if n == 0 {
        Seq::empty()
    } else {
        text_rows(grid, (n - 1) as nat) + text_row(grid, n - 1)
    }
}

/// The picture as text in a frame of box-drawing characters, one line per
/// row.
pub open spec fn text_dump(grid: Seq<bool>) -> Seq<char> {
    frame_line('\u{250C}', '\u{2510}') + text_rows(grid, 32) + frame_line('\u{2514}', '\u{2518}')
}

impl View for Display {
    type V = Seq<bool>;

    /// The grid in row-major order: pixel `(x, y)` is element `y * 64 + x`.
    open spec fn view(&self) -> Seq<bool> {
        Seq::new(grid_len(), |i: int| self.pixels@[i / 64]@[i % 64])
    }
}

impl Display {
    /// A blank display that asks to be presented once.
    pub fn new() -> (display: Display)
        ensures
            display@ == Seq::new(grid_len(), |i: int| false),
            display.needs_redraw,
    {
        let display = Display {
            pixels: [[false; SCREEN_WIDTH]; SCREEN_HEIGHT],
            needs_redraw: true,
        };
        assert(display@ =~= Seq::new(grid_len(), |i: int| false));
        display
    }

    /// Turns every pixel off.
    pub fn clear(&mut self)
        ensures
            final(self)@ == Seq::new(grid_len(), |i: int| false),
            final(self).needs_redraw,
    {
        self.pixels = [[false; SCREEN_WIDTH]; SCREEN_HEIGHT];
        self.needs_redraw = true;
        assert(self@ =~= Seq::new(grid_len(), |i: int| false));
    }

    /// XORs `sprite` into the grid with its top-left corner at `(x, y)` and
    /// reports whether a pixel was erased.
    #[verifier::rlimit(30)]
    pub fn draw_sprite(&mut self, x: u8, y: u8, sprite: &[u8]) -> (collision: bool)
        ensures
            final(self)@ == drawn(old(self)@, x, y, sprite@),
            collision == collides(old(self)@, x, y, sprite@),
            final(self).needs_redraw,
    {
        let x0: usize = x as usize % SCREEN_WIDTH;
        let y0: usize = y as usize % SCREEN_HEIGHT;
        let mut collision: bool = false;
        let mut row: usize = 0;
        let mut y_pos: usize = y0;
        while row < sprite.len()
            invariant
                row <= sprite.len(),
                x0 == x as int % 64,
                y0 == y as int % 32,
                y_pos == (y0 + row) % 32,
                self@ == draw_rows(old(self)@, sprite@, x0 as int, y0 as int, row as nat),
                collision == rows_collide(old(self)@, sprite@, x0 as int, y0 as int, row as nat),
            decreases sprite.len() - row,
        {
            let ghost before = self@;
            let byte: u8 = sprite[row];
            let hit: bool = self.draw_sprite_row(byte, x0, y_pos);
            assert(draw_rows(old(self)@, sprite@, x0 as int, y0 as int, (row + 1) as nat)
                == draw_row(before, byte, x0 as int, y_pos as int));
            assert(rows_collide(old(self)@, sprite@, x0 as int, y0 as int, (row + 1) as nat) == (
            collision || row_collides(before, byte, x0 as int, y_pos as int)));
            collision = collision || hit;
            row += 1;
            y_pos = if y_pos + 1 == SCREEN_HEIGHT {
                0
            } else {
                y_pos + 1
            };
        }
        self.needs_redraw = true;
        collision
    }

    /// XORs one sprite row into row `y_pos`, starting at column `x0`.
    #[verifier::rlimit(30)]
    fn draw_sprite_row(&mut self, byte: u8, x0: usize, y_pos: usize) -> (collision: bool)
        requires
            x0 < 64,
            y_pos < 32,
        ensures
            final(self)@ == draw_row(old(self)@, byte, x0 as int, y_pos as int),
            collision == row_collides(old(self)@, byte, x0 as int, y_pos as int),
            final(self).needs_redraw == old(self).needs_redraw,
    {
        let mut collision: bool = false;
        let mut bit: u8 = 0;
        while bit < 8
            invariant
                bit <= 8,
                x0 < 64,
                y_pos < 32,
                self.needs_redraw == old(self).needs_redraw,
                forall|i: int|
                    0 <= i < 2048 ==> #[trigger] self@[i] == (if i / 64 == y_pos && (i % 64 - x0) % 64
                        < bit && bit_set(byte, (i % 64 - x0) % 64) {
                        !old(self)@[i]
                    } else {
                        old(self)@[i]
                    }),
                collision == (exists|b: int|
                    0 <= b < bit && #[trigger] bit_meets(
                        old(self)@,
                        byte,
                        x0 as int,
                        y_pos as int,
                        b,
                        true,
                    )),
            decreases 8 - bit,
        {
            let x_pos: usize = (x0 + bit as usize) % SCREEN_WIDTH;
            let ghost before = self@;
            let ghost cell = (y_pos * 64 + x_pos) as int;
            proof {
                lemma_cell_of_bit(x0 as int, y_pos as int, bit as int);
            }
            assert(cell % 64 == x_pos);
            assert(before[cell] == old(self)@[cell]);
            assert(bit_meets(old(self)@, byte, x0 as int, y_pos as int, bit as int, true) == (bit_set(
                byte,
                bit as int,
            ) && before[cell]));
            if (byte >> (7 - bit)) & 1 == 1 {
                assert(bit_set(byte, bit as int));
                let current: bool = self.pixels[y_pos][x_pos];
                assert(current == before[cell]);
                if current {
                    collision = true;
                }
                self.pixels[y_pos][x_pos] = !current;
                assert forall|i: int| 0 <= i < 2048 implies #[trigger] self@[i] == (if i == cell {
                    !before[i]
                } else {
                    before[i]
                }) by {
                    if i / 64 == y_pos && i % 64 == x_pos {
                        assert(i == cell);
                    }
                }
            } else {
                assert(!bit_set(byte, bit as int));
            }
            assert forall|i: int| 0 <= i < 2048 implies #[trigger] self@[i] == (if i / 64 == y_pos
                && (i % 64 - x0) % 64 < bit + 1 && bit_set(byte, (i % 64 - x0) % 64) {
                !old(self)@[i]
            } else {
                old(self)@[i]
            }) by {
                assert(before[i] == (if i / 64 == y_pos && (i % 64 - x0) % 64 < bit && bit_set(
                    byte,
                    (i % 64 - x0) % 64,
                ) {
                    !old(self)@[i]
                } else {
                    old(self)@[i]
                }));
                if i / 64 == y_pos && (i % 64 - x0) % 64 == bit {
                    lemma_bit_of_cell(x0 as int, y_pos as int, i);
                    assert(i == cell);
                }
            }
            bit += 1;
        }
        proof {
            reveal(draw_row);
            reveal(row_collides);
        }
        assert(self@ =~= draw_row(old(self)@, byte, x0 as int, y_pos as int));
        collision
    }

    /// The picture as text, for a look at the display without a window.
    pub fn debug_text(&self) -> (text: String)
        ensures
            text@ == text_dump(self@),
    {
        let mut text = String::new();
        push_frame_line(&mut text, '\u{250C}', '\u{2510}');
        let ghost top = text@;
        assert(top =~= frame_line('\u{250C}', '\u{2510}'));
        let mut y: usize = 0;
        while y < SCREEN_HEIGHT
            invariant
                y <= 32,
                text@ == top + text_rows(self@, y as nat),
            decreases 32 - y,
        {
            let ghost before = text@;
            push_char(&mut text, '\u{2502}');
            let mut x: usize = 0;
            while x < SCREEN_WIDTH
                invariant
                    y < 32,
                    x <= 64,
                    text@ == before + seq!['\u{2502}'] + Seq::new(
                        x as nat,
                        |k: int| pixel_char(self@[y * 64 + k]),
                    ),
                decreases 64 - x,
            {
                let on: bool = self.pixels[y][x];
                assert(self@[y * 64 + x] == on);
                push_char(&mut text, if on { '\u{2588}' } else { ' ' });
                assert(text@ =~= before + seq!['\u{2502}'] + Seq::new(
                    (x + 1) as nat,
                    |k: int| pixel_char(self@[y * 64 + k]),
                ));
                x += 1;
            }
            push_char(&mut text, '\u{2502}');
            push_char(&mut text, '\n');
            assert(text@ =~= before + text_row(self@, y as int));
            assert(text@ =~= top + text_rows(self@, (y + 1) as nat));
            y += 1;
        }
        let ghost body = text@;
        push_frame_line(&mut text, '\u{2514}', '\u{2518}');
        assert(text@ =~= text_dump(self@));
        text
    }

    /// One 24-bit colour per pixel in row-major order: white where the pixel
    /// is on, black where it is off.
    pub fn to_buffer(&self) -> (buffer: Vec<u32>)
        ensures
            buffer@ == self@.map_values(|on: bool| colour(on)),
    {
        let mut buffer: Vec<u32> = Vec::new();
        let mut y: usize = 0;
        while y < SCREEN_HEIGHT
            invariant
                y <= 32,
                buffer@ == self@.subrange(0, y * 64).map_values(|on: bool| colour(on)),
            decreases 32 - y,
        {
            let mut x: usize = 0;
            while x < SCREEN_WIDTH
                invariant
                    y < 32,
                    x <= 64,
                    buffer@ == self@.subrange(0, y * 64 + x).map_values(|on: bool| colour(on)),
                decreases 64 - x,
            {
                let on: bool = self.pixels[y][x];
                let ghost before = buffer@;
                buffer.push(if on { 0xFFFFFF } else { 0x000000 });
                assert(self@[y * 64 + x] == on);
                assert(buffer@ =~= self@.subrange(0, y * 64 + x + 1).map_values(
                    |on: bool| colour(on),
                ));
                x += 1;
            }
            y += 1;
        }
        assert(self@.subrange(0, 2048) =~= self@);
        buffer
    }
}


/// Appends a line that frames a text dump at the top or the bottom.
fn push_frame_line(text: &mut String, left: char, right: char)
    ensures
        final(text)@ == old(text)@ + frame_line(left, right),
{
    push_char(text, left);
    let mut x: usize = 0;
    while x < SCREEN_WIDTH
        invariant
            x <= 64,
            text@ == old(text)@ + seq![left] + Seq::new(x as nat, |k: int| '\u{2500}'),
        decreases 64 - x,
    {
        push_char(text, '\u{2500}');
        assert(text@ =~= old(text)@ + seq![left] + Seq::new((x + 1) as nat, |k: int| '\u{2500}'));
        x += 1;
    }
    push_char(text, right);
    push_char(text, '\n');
    assert(text@ =~= old(text)@ + frame_line(left, right));
}

/// Whether row `k` of `sprite` has a set bit over cell `p` of the grid.
pub open spec fn row_hits(sprite: Seq<u8>, x0: int, y0: int, k: int, p: int) -> bool {
    p / 64 == (y0 + k) % 32 && row_covers(sprite[k], x0, p % 64)
}

/// Whether the first `n` rows of `sprite` toggle cell `p` an odd number of times.
pub open spec fn toggled(sprite: Seq<u8>, x0: int, y0: int, n: nat, p: int) -> bool
    decreases n,
{
    if n == 0 {
        false
    } else {
        toggled(sprite, x0, y0, (n - 1) as nat, p) != row_hits(sprite, x0, y0, n - 1, p)
    }
}

/// Whether one of the first `n` rows of `sprite` finds cell `p` in state
/// `wanted` at the moment it toggles it, when the cell starts out as `start`.
pub open spec fn finds(
    wanted: bool,
    start: bool,
    sprite: Seq<u8>,
    x0: int,
    y0: int,
    n: nat,
    p: int,
) -> bool
    decreases n,
{
    if n == 0 {
        false
    } else {
        finds(wanted, start, sprite, x0, y0, (n - 1) as nat, p) || (row_hits(
            sprite,
            x0,
            y0,
            n - 1,
            p,
        ) && (start != toggled(sprite, x0, y0, (n - 1) as nat, p)) == wanted)
    }
}

proof fn lemma_draw_rows_cells(grid: Seq<bool>, sprite: Seq<u8>, x0: int, y0: int, n: nat)
    requires
        grid.len() == grid_len(),
        0 <= x0 < 64,
    ensures
        draw_rows(grid, sprite, x0, y0, n).len() == grid_len(),
        forall|p: int|
            0 <= p < 2048 ==> #[trigger] draw_rows(grid, sprite, x0, y0, n)[p] == (grid[p]
                != toggled(sprite, x0, y0, n, p)),
    decreases n,
{
    reveal(draw_row);
    if n > 0 {
        lemma_draw_rows_cells(grid, sprite, x0, y0, (n - 1) as nat);
    }
}

/// Whether cell `p` lies in row `y` under a set bit of the sprite row and is
/// in state `wanted`.
pub open spec fn cell_meets(grid: Seq<bool>, byte: u8, x0: int, y: int, p: int, wanted: bool) -> bool {
    p / 64 == y && row_covers(byte, x0, p % 64) && grid[p] == wanted
}

/// Column arithmetic: the cell under bit `bit` of a row that starts in
/// column `x0`, and the way back from the cell to the bit.
proof fn lemma_cell_of_bit(x0: int, y: int, bit: int)
    requires
        0 <= x0 < 64,
        0 <= y < 32,
        0 <= bit < 8,
    ensures
        ({
            let p = y * 64 + (x0 + bit) % 64;
            0 <= p < 2048 && p / 64 == y && (p % 64 - x0) % 64 == bit
        }),
{
    let column = (x0 + bit) % 64;
    if x0 + bit < 64 {
        assert(column == x0 + bit);
    } else {
        assert(column == x0 + bit - 64);
    }
    let p = y * 64 + column;
    assert(p / 64 == y && p % 64 == column);
}

/// Column arithmetic: the bit over a cell of row `y` that a row starting in
/// column `x0` covers, and the way back from the bit to the cell.
proof fn lemma_bit_of_cell(x0: int, y: int, p: int)
    requires
        0 <= x0 < 64,
        0 <= p < 2048,
        p / 64 == y,
        (p % 64 - x0) % 64 < 8,
    ensures
        ({
            let bit = (p % 64 - x0) % 64;
            0 <= bit < 8 && y * 64 + (x0 + bit) % 64 == p
        }),
{
    let column = p % 64;
    let bit = (column - x0) % 64;
    if column >= x0 {
        assert(bit == column - x0);
    } else {
        assert(bit == column - x0 + 64);
    }
    assert((x0 + bit) % 64 == column);
    assert(p == y * 64 + column);
}

#[verifier::rlimit(30)]
proof fn lemma_row_finds(wanted: bool, grid: Seq<bool>, byte: u8, x0: int, y: int)
    requires
        grid.len() == grid_len(),
        0 <= x0 < 64,
        0 <= y < 32,
    ensures
        (exists|bit: int| 0 <= bit < 8 && #[trigger] bit_meets(grid, byte, x0, y, bit, wanted)) <==> (
        exists|p: int| 0 <= p < 2048 && #[trigger] cell_meets(grid, byte, x0, y, p, wanted)),
{
    if exists|bit: int| 0 <= bit < 8 && #[trigger] bit_meets(grid, byte, x0, y, bit, wanted) {
        let bit = choose|bit: int| 0 <= bit < 8 && #[trigger] bit_meets(grid, byte, x0, y, bit, wanted);
        let p = y * 64 + (x0 + bit) % 64;
        lemma_cell_of_bit(x0, y, bit);
        assert(cell_meets(grid, byte, x0, y, p, wanted));
    }
    if exists|p: int| 0 <= p < 2048 && #[trigger] cell_meets(grid, byte, x0, y, p, wanted) {
        let p = choose|p: int| 0 <= p < 2048 && #[trigger] cell_meets(grid, byte, x0, y, p, wanted);
        let bit = (p % 64 - x0) % 64;
        lemma_bit_of_cell(x0, y, p);
        assert(bit_meets(grid, byte, x0, y, bit, wanted));
    }
}

#[verifier::rlimit(30)]
proof fn lemma_rows_find(wanted: bool, grid: Seq<bool>, sprite: Seq<u8>, x0: int, y0: int, n: nat)
    requires
        grid.len() == grid_len(),
        0 <= x0 < 64,
        0 <= y0 < 32,
    ensures
        (if wanted {
            rows_collide(grid, sprite, x0, y0, n)
        } else {
            rows_light(grid, sprite, x0, y0, n)
        }) <==> (exists|p: int|
            0 <= p < 2048 && #[trigger] finds(wanted, grid[p], sprite, x0, y0, n, p)),
    decreases n,
{
    reveal(row_collides);
    reveal(row_lights);
    if n > 0 {
        let m = (n - 1) as nat;
        let before = draw_rows(grid, sprite, x0, y0, m);
        let y = (y0 + n - 1) % 32;
        lemma_rows_find(wanted, grid, sprite, x0, y0, m);
        lemma_draw_rows_cells(grid, sprite, x0, y0, m);
        lemma_row_finds(wanted, before, sprite[n - 1], x0, y);
        let here = if wanted {
            row_collides(before, sprite[n - 1], x0, y)
        } else {
            row_lights(before, sprite[n - 1], x0, y)
        };
        let earlier = if wanted {
            rows_collide(grid, sprite, x0, y0, m)
        } else {
            rows_light(grid, sprite, x0, y0, m)
        };
        if earlier {
            let p = choose|p: int|
                0 <= p < 2048 && #[trigger] finds(wanted, grid[p], sprite, x0, y0, m, p);
            assert(finds(wanted, grid[p], sprite, x0, y0, n, p));
        }
        if here {
            let p = choose|p: int|
                0 <= p < 2048 && #[trigger] cell_meets(before, sprite[n - 1], x0, y, p, wanted);
            assert(row_hits(sprite, x0, y0, n - 1, p));
            assert(finds(wanted, grid[p], sprite, x0, y0, n, p));
        }
        if exists|p: int| 0 <= p < 2048 && #[trigger] finds(wanted, grid[p], sprite, x0, y0, n, p) {
            let p = choose|p: int|
                0 <= p < 2048 && #[trigger] finds(wanted, grid[p], sprite, x0, y0, n, p);
            if !finds(wanted, grid[p], sprite, x0, y0, m, p) {
                assert(cell_meets(before, sprite[n - 1], x0, y, p, wanted));
                assert(here);
            }
        }
    }
}

proof fn lemma_finds_flipped(wanted: bool, start: bool, sprite: Seq<u8>, x0: int, y0: int, n: nat, p: int)
    ensures
        finds(wanted, !start, sprite, x0, y0, n, p) == finds(!wanted, start, sprite, x0, y0, n, p),
    decreases n,
{
    if n > 0 {
        lemma_finds_flipped(wanted, start, sprite, x0, y0, (n - 1) as nat, p);
    }
}

proof fn lemma_finds_parity(start: bool, sprite: Seq<u8>, x0: int, y0: int, n: nat, p: int)
    ensures
        !toggled(sprite, x0, y0, n, p) ==> finds(true, start, sprite, x0, y0, n, p) == finds(
            false,
            start,
            sprite,
            x0,
            y0,
            n,
            p,
        ),
        toggled(sprite, x0, y0, n, p) ==> (finds(true, start, sprite, x0, y0, n, p) || !start) == (
        finds(false, start, sprite, x0, y0, n, p) || start),
    decreases n,
{
    if n > 0 {
        lemma_finds_parity(start, sprite, x0, y0, (n - 1) as nat, p);
    }
}

/// Drawing keeps the size of the grid.
pub proof fn lemma_drawn_len(grid: Seq<bool>, x: u8, y: u8, sprite: Seq<u8>)
    requires
        grid.len() == grid_len(),
    ensures
        drawn(grid, x, y, sprite).len() == grid_len(),
{
    lemma_draw_rows_cells(grid, sprite, x as int % 64, y as int % 32, sprite.len());
}

/// Drawing a sprite twice at the same place restores the grid: the blitter
/// is its own inverse, for sprites of any height.
pub proof fn lemma_draw_twice_restores(grid: Seq<bool>, x: u8, y: u8, sprite: Seq<u8>)
    requires
        grid.len() == grid_len(),
    ensures
        drawn(drawn(grid, x, y, sprite), x, y, sprite) == grid,
{
    let x0 = x as int % 64;
    let y0 = y as int % 32;
    let once = drawn(grid, x, y, sprite);
    lemma_draw_rows_cells(grid, sprite, x0, y0, sprite.len());
    lemma_draw_rows_cells(once, sprite, x0, y0, sprite.len());
    assert(drawn(once, x, y, sprite) =~= grid);
}

/// The second of two identical draws reports a collision exactly when the
/// first one lit a pixel, that is, when one of its rows met a pixel that was
/// off at that moment.
pub proof fn lemma_second_draw_collides_iff_first_lit(grid: Seq<bool>, x: u8, y: u8, sprite: Seq<u8>)
    requires
        grid.len() == grid_len(),
    ensures
        collides(drawn(grid, x, y, sprite), x, y, sprite) == lights(grid, x, y, sprite),
{
    let x0 = x as int % 64;
    let y0 = y as int % 32;
    let n = sprite.len();
    let once = drawn(grid, x, y, sprite);
    lemma_draw_rows_cells(grid, sprite, x0, y0, n);
    lemma_rows_find(true, once, sprite, x0, y0, n);
    lemma_rows_find(false, grid, sprite, x0, y0, n);
    assert forall|p: int| 0 <= p < 2048 implies #[trigger] finds(
        true,
        once[p],
        sprite,
        x0,
        y0,
        n,
        p,
    ) == finds(false, grid[p], sprite, x0, y0, n, p) by {
        lemma_finds_parity(grid[p], sprite, x0, y0, n, p);
        lemma_finds_flipped(true, grid[p], sprite, x0, y0, n, p);
    }
    if collides(once, x, y, sprite) {
        let p = choose|p: int| 0 <= p < 2048 && #[trigger] finds(true, once[p], sprite, x0, y0, n, p);
        assert(finds(false, grid[p], sprite, x0, y0, n, p));
    }
    if lights(grid, x, y, sprite) {
        let p = choose|p: int|
            0 <= p < 2048 && #[trigger] finds(false, grid[p], sprite, x0, y0, n, p);
        assert(finds(true, once[p], sprite, x0, y0, n, p));
    }
}

} // verus!
