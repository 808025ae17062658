//! The framebuffer: sprite drawing with collision detection, and the frame
//! that a window shows.
//!
//! A sprite is a run of bytes in memory starting at `I`, one byte per row,
//! the most significant bit leftmost. Drawing toggles the framebuffer cell
//! under each set bit; the cell of column `col` of row `row` of a sprite at
//! `(x, y)` is `x + col + (y + row) * 64`, with no wrapping at the edges.

use vstd::prelude::*;
use crate::machine::{
    Emulator, State, FLAG_REGISTER, MEMORY_SIZE, SCREEN_CELLS, SCREEN_HEIGHT, SCREEN_WIDTH,
};

verus! {

/// Number of columns of a sprite.
pub const SPRITE_WIDTH: u8 = 8;

/// Width of the window frame in pixels.
pub const WIDTH: usize = 640;

/// Height of the window frame in pixels.
pub const HEIGHT: usize = 320;

/// Number of pixels of the window frame.
pub const FRAME_PIXELS: usize = 204800;

/// Side of the square of window pixels that shows one framebuffer cell.
pub const SCALE: usize = 10;

/// Colour of a lit pixel in the window frame.
pub const LIT: u32 = 0xffffff;

/// Colour of a dark pixel in the window frame.
pub const DARK: u32 = 0;

/// Whether column `col` of a sprite row is set; column 0 is the leftmost.
pub open spec fn sprite_bit(row: u8, col: int) -> bool {
    row & (0x80u8 >> (col as u8)) != 0
}

/// The framebuffer cell under column `col` of row `row` of a sprite at `(x, y)`.
pub open spec fn cell_index(x: int, y: int, row: int, col: int) -> int {
    x + col + (y + row) * SCREEN_WIDTH
}

/// The window frame that shows a framebuffer: every cell becomes a square of
/// `SCALE` by `SCALE` pixels, lit or dark. The frame holds its pixels row by
/// row from the top left.
pub open spec fn frame_of(bitmap: Seq<bool>) -> Seq<u32> {
    Seq::new(
        FRAME_PIXELS as nat,
        |p: int|
            {
                let x = p % (WIDTH as int);
                let y = p / (WIDTH as int);
                if bitmap[y / (SCALE as int) * SCREEN_WIDTH + x / (SCALE as int)] {
                    LIT
                } else {
                    DARK
                }
            },
    )
}

impl State {
    /// Whether the sprite at `I` has the pixel at `(row, col)` set.
    pub open spec fn sprite_pixel(self, row: int, col: int) -> bool {
        sprite_bit(self.memory[self.index_register + row], col)
    }

    /// Whether the sprite of `height` rows at `(x, y)` has a set pixel over
    /// the framebuffer cell `cell`.
    pub open spec fn covers(self, x: int, y: int, height: int, cell: int) -> bool {
        let offset = cell - cell_index(x, y, 0, 0);
        let row = offset / (SCREEN_WIDTH as int);
        let col = offset % (SCREEN_WIDTH as int);
        &&& 0 <= offset
        &&& row < height
        &&& col < SPRITE_WIDTH
        &&& self.sprite_pixel(row, col)
    }

    /// Whether the sprite of `height` rows at `(x, y)` can be drawn: all its
    /// rows lie in memory and all its set pixels lie over the framebuffer.
    pub open spec fn sprite_fits(self, x: int, y: int, height: int) -> bool {
        &&& height > 0 ==> self.index_register + height <= MEMORY_SIZE
        &&& forall|row: int, col: int|
            0 <= row < height && 0 <= col < SPRITE_WIDTH && #[trigger] self.sprite_pixel(row, col)
                ==> cell_index(x, y, row, col) < SCREEN_CELLS
    }

    /// Whether the sprite of `height` rows at `I` has a set pixel at all.
    pub open spec fn sprite_has_pixel(self, height: int) -> bool {
        exists|row: int, col: int|
            0 <= row < height && 0 <= col < SPRITE_WIDTH && #[trigger] self.sprite_pixel(row, col)
    }

    /// Whether drawing the sprite of `height` rows at `(x, y)` hits a pixel
    /// that is already lit.
    pub open spec fn collides(self, x: int, y: int, height: int) -> bool {
        exists|cell: int|
            0 <= cell < self.bitmap.len() && self.bitmap[cell] && #[trigger] self.covers(
                x,
                y,
                height,
                cell,
            )
    }

    /// The state after drawing the sprite of `height` rows at `(x, y)`: every
    /// cell under a set pixel is toggled, `V[F]` tells whether a lit pixel
    /// was hit, and a redraw is due.
    pub open spec fn draw(self, x: int, y: int, height: int) -> State {
        State {
            bitmap: Seq::new(
                self.bitmap.len(),
                |cell: int| self.bitmap[cell] != self.covers(x, y, height, cell),
            ),
            registers: self.registers.update(
                FLAG_REGISTER as int,
                if self.collides(x, y, height) {
                    1u8
                } else {
                    0u8
                },
            ),
            should_draw: true,
            ..self
        }
    }
}

/// `covers`, for a sprite of which only the first `rows` rows and the first
/// `cols` columns of the row after them count.
spec fn covers_part(s: State, x: int, y: int, rows: int, cols: int, cell: int) -> bool {
    let offset = cell - cell_index(x, y, 0, 0);
    let row = offset / (SCREEN_WIDTH as int);
    let col = offset % (SCREEN_WIDTH as int);
    &&& 0 <= offset
    &&& col < SPRITE_WIDTH
    &&& (row < rows || (row == rows && col < cols))
    &&& s.sprite_pixel(row, col)
}

/// `collides`, for the same part of a sprite.
spec fn collides_part(s: State, x: int, y: int, rows: int, cols: int) -> bool {
    exists|cell: int|
        0 <= cell < s.bitmap.len() && s.bitmap[cell] && #[trigger] covers_part(
            s,
            x,
            y,
            rows,
            cols,
            cell,
        )
}

/// One more column of a row adds the cell under that column, if its pixel
/// is set, and no other cell.
proof fn lemma_covers_column(s: State, x: int, y: int, row: int, col: int, cell: int)
    requires
        0 <= row,
        0 <= col < SPRITE_WIDTH,
    ensures
        covers_part(s, x, y, row, col + 1, cell) == (covers_part(s, x, y, row, col, cell) || (cell
            == cell_index(x, y, row, col) && s.sprite_pixel(row, col))),
{
}

/// One more column of a row adds a collision exactly if its pixel is set
/// over a lit cell.
proof fn lemma_collides_column(s: State, x: int, y: int, row: int, col: int)
    requires
        0 <= row,
        0 <= col < SPRITE_WIDTH,
    ensures
        ({
            let target = cell_index(x, y, row, col);
            collides_part(s, x, y, row, col + 1) == (collides_part(s, x, y, row, col) || (
            s.sprite_pixel(row, col) && 0 <= target < s.bitmap.len() && s.bitmap[target]))
        }),
{
    let target = cell_index(x, y, row, col);
    if collides_part(s, x, y, row, col) {
        let hit = choose|hit: int|
            0 <= hit < s.bitmap.len() && s.bitmap[hit] && #[trigger] covers_part(
                s,
                x,
                y,
                row,
                col,
                hit,
            );
        lemma_covers_column(s, x, y, row, col, hit);
        assert(covers_part(s, x, y, row, col + 1, hit));
    }
    if s.sprite_pixel(row, col) && 0 <= target < s.bitmap.len() && s.bitmap[target] {
        lemma_covers_column(s, x, y, row, col, target);
        assert(covers_part(s, x, y, row, col + 1, target));
    }
    if collides_part(s, x, y, row, col + 1) {
        let hit = choose|hit: int|
            0 <= hit < s.bitmap.len() && s.bitmap[hit] && #[trigger] covers_part(
                s,
                x,
                y,
                row,
                col + 1,
                hit,
            );
        lemma_covers_column(s, x, y, row, col, hit);
        assert(covers_part(s, x, y, row, col, hit) || hit == target);
    }
}

/// A row with all its columns is the start of the next row.
proof fn lemma_row_done(s: State, x: int, y: int, row: int)
    ensures
        forall|cell: int|
            covers_part(s, x, y, row, SPRITE_WIDTH as int, cell) == covers_part(
                s,
                x,
                y,
                row + 1,
                0,
                cell,
            ),
        collides_part(s, x, y, row, SPRITE_WIDTH as int) == collides_part(s, x, y, row + 1, 0),
{
    assert forall|cell: int|
        covers_part(s, x, y, row, SPRITE_WIDTH as int, cell) == covers_part(
            s,
            x,
            y,
            row + 1,
            0,
            cell,
        ) by {}
    if collides_part(s, x, y, row, SPRITE_WIDTH as int) {
        let hit = choose|hit: int|
            0 <= hit < s.bitmap.len() && s.bitmap[hit] && #[trigger] covers_part(
                s,
                x,
                y,
                row,
                SPRITE_WIDTH as int,
                hit,
            );
        assert(covers_part(s, x, y, row + 1, 0, hit));
    }
    if collides_part(s, x, y, row + 1, 0) {
        let hit = choose|hit: int|
            0 <= hit < s.bitmap.len() && s.bitmap[hit] && #[trigger] covers_part(
                s,
                x,
                y,
                row + 1,
                0,
                hit,
            );
        assert(covers_part(s, x, y, row, SPRITE_WIDTH as int, hit));
    }
}

/// All rows of a sprite are the sprite.
proof fn lemma_rows_done(s: State, x: int, y: int, height: int)
    ensures
        forall|cell: int|
            covers_part(s, x, y, height, 0, cell) == s.covers(x, y, height, cell),
        collides_part(s, x, y, height, 0) == s.collides(x, y, height),
{
    assert forall|cell: int|
        covers_part(s, x, y, height, 0, cell) == s.covers(x, y, height, cell) by {}
    if collides_part(s, x, y, height, 0) {
        let hit = choose|hit: int|
            0 <= hit < s.bitmap.len() && s.bitmap[hit] && #[trigger] covers_part(
                s,
                x,
                y,
                height,
                0,
                hit,
            );
        assert(s.covers(x, y, height, hit));
    }
    if s.collides(x, y, height) {
        let hit = choose|hit: int|
            0 <= hit < s.bitmap.len() && s.bitmap[hit] && #[trigger] s.covers(x, y, height, hit);
        assert(covers_part(s, x, y, height, 0, hit));
    }
}

/// Tells whether column `col` of a sprite row is set.
fn bit_is_set(row: u8, col: u8) -> (set: bool)
    requires
        col < SPRITE_WIDTH,
    ensures
        set == sprite_bit(row, col as int),
{
    row & (0x80u8 >> col) != 0
}

/// Tells whether the cell under `(row, col)` of a sprite at `(x, y)` lies in
/// the framebuffer.
fn cell_in_range(x: usize, y: usize, row: usize, col: usize) -> (inside: bool)
    ensures
        inside == (cell_index(x as int, y as int, row as int, col as int) < SCREEN_CELLS),
{
    if y >= SCREEN_HEIGHT || row >= SCREEN_HEIGHT - y {
        return false;
    }
    let base: usize = (y + row) * SCREEN_WIDTH;
    if x >= SCREEN_CELLS - base {
        return false;
    }
    col < SCREEN_CELLS - base - x
}

impl Emulator {
    /// Tells whether the sprite of `height` rows at `(x, y)` can be drawn.
    pub fn sprite_fits(&self, x: usize, y: usize, height: usize) -> (fits: bool)
        ensures
            fits == self@.sprite_fits(x as int, y as int, height as int),
    {
        if height > 0 && (height > MEMORY_SIZE || self.index_register as usize > MEMORY_SIZE
            - height) {
            return false;
        }
        let mut row: usize = 0;
        while row < height
            invariant
                row <= height,
                height > 0 ==> self.index_register + height <= MEMORY_SIZE,
                forall|r: int, c: int|
                    0 <= r < row && 0 <= c < SPRITE_WIDTH && #[trigger] self@.sprite_pixel(r, c)
                        ==> cell_index(x as int, y as int, r, c) < SCREEN_CELLS,
            decreases height - row,
        {
            let pixels = self.memory[self.index_register as usize + row];
            let mut col: u8 = 0;
            while col < SPRITE_WIDTH
                invariant
                    col <= SPRITE_WIDTH,
                    row < height,
                    self.index_register + height <= MEMORY_SIZE,
                    pixels == self@.memory[self@.index_register + row],
                    forall|r: int, c: int|
                        (0 <= r < row || (r == row && c < col)) && 0 <= c < SPRITE_WIDTH
                            && #[trigger] self@.sprite_pixel(r, c) ==> cell_index(
                            x as int,
                            y as int,
                            r,
                            c,
                        ) < SCREEN_CELLS,
                decreases SPRITE_WIDTH - col,
            {
                if bit_is_set(pixels, col) && !cell_in_range(x, y, row, col as usize) {
                    assert(self@.sprite_pixel(row as int, col as int));
                    return false;
                }
                col += 1;
            }
            row += 1;
        }
        true
    }

    /// Draws the sprite of `height` rows that starts at `I` with its top left
    /// corner at `(x, y)`.
    pub fn draw(&mut self, x: usize, y: usize, height: usize)
        requires
            old(self)@.sprite_fits(x as int, y as int, height as int),
        ensures
            final(self)@ == old(self)@.draw(x as int, y as int, height as int),
    {
        let ghost before = self@;
        let ghost left = x as int;
        let ghost top = y as int;
        let mut changed = false;
        let mut row: usize = 0;
        while row < height
            invariant
                row <= height,
                left == x,
                top == y,
                before.bitmap.len() == SCREEN_CELLS,
                before.sprite_fits(left, top, height as int),
                self@ == (State { bitmap: self@.bitmap, ..before }),
                forall|cell: int|
                    0 <= cell < SCREEN_CELLS ==> self@.bitmap[cell] == (before.bitmap[cell]
                        != covers_part(before, left, top, row as int, 0, cell)),
                changed == collides_part(before, left, top, row as int, 0),
            decreases height - row,
        {
            let pixels = self.memory[self.index_register as usize + row];
            let mut col: u8 = 0;
            while col < SPRITE_WIDTH
                invariant
                    col <= SPRITE_WIDTH,
                    row < height,
                    left == x,
                    top == y,
                    before.bitmap.len() == SCREEN_CELLS,
                    before.sprite_fits(left, top, height as int),
                    pixels == before.memory[before.index_register + row],
                    self@ == (State { bitmap: self@.bitmap, ..before }),
                    forall|cell: int|
                        0 <= cell < SCREEN_CELLS ==> self@.bitmap[cell] == (before.bitmap[cell]
                            != covers_part(before, left, top, row as int, col as int, cell)),
                    changed == collides_part(before, left, top, row as int, col as int),
                decreases SPRITE_WIDTH - col,
            {
                proof {
                    lemma_collides_column(before, left, top, row as int, col as int);
                    assert forall|cell: int|
                        covers_part(before, left, top, row as int, col + 1, cell) == (covers_part(
                            before,
                            left,
                            top,
                            row as int,
                            col as int,
                            cell,
                        ) || (cell == cell_index(left, top, row as int, col as int)
                            && before.sprite_pixel(row as int, col as int))) by {
                        lemma_covers_column(before, left, top, row as int, col as int, cell);
                    }
                }
                if bit_is_set(pixels, col) {
                    assert(before.sprite_pixel(row as int, col as int));
                    let cell: usize = x + col as usize + (y + row) * SCREEN_WIDTH;
                    if self.bitmap[cell] {
                        changed = true;
                    }
                    self.bitmap[cell] = !self.bitmap[cell];
                }
                col += 1;
            }
            proof {
                lemma_row_done(before, left, top, row as int);
            }
            row += 1;
        }
        proof {
            lemma_rows_done(before, left, top, height as int);
        }
        self.registers[FLAG_REGISTER] = if changed {
            1
        } else {
            0
        };
        self.should_draw = true;
    }

    /// Scales the framebuffer up to the frame that a window shows.
    pub fn draw_graphics(&self) -> (frame: Vec<u32>)
        ensures
            frame@ == frame_of(self@.bitmap),
    {
        let mut frame: Vec<u32> = Vec::with_capacity(FRAME_PIXELS);
        let mut y: usize = 0;
        while y < HEIGHT
            invariant
                y <= HEIGHT,
                frame@.len() == y * WIDTH,
                forall|p: int| 0 <= p < frame@.len() ==> frame@[p] == frame_of(self@.bitmap)[p],
            decreases HEIGHT - y,
        {
            let y_coord: usize = y / SCALE;
            let mut x: usize = 0;
            while x < WIDTH
                invariant
                    x <= WIDTH,
                    y < HEIGHT,
                    y_coord == y / SCALE,
                    frame@.len() == y * WIDTH + x,
                    forall|p: int|
                        0 <= p < frame@.len() ==> frame@[p] == frame_of(self@.bitmap)[p],
                decreases WIDTH - x,
            {
                let index: usize = y_coord * SCREEN_WIDTH + x / SCALE;
                let colour = if self.bitmap[index] {
                    LIT
                } else {
                    DARK
                };
                frame.push(colour);
                x += 1;
            }
            y += 1;
        }
        frame
    }

    /// Hands out the frame to show if a sprite was drawn since the last one
    /// was handed out, and nothing otherwise.
    pub fn present(&mut self) -> (frame: Option<Vec<u32>>)
        ensures
            frame is Some <==> old(self)@.should_draw,
            frame matches Some(pixels) ==> pixels@ == frame_of(old(self)@.bitmap),
            final(self)@ == (State { should_draw: false, ..old(self)@ }),
    {
        if self.should_draw {
            self.should_draw = false;
            Some(self.draw_graphics())
        } else {
            None
        }
    }
}

/// Drawing a sprite twice at the same place restores the framebuffer: the
/// second draw may be made wherever the first may, and toggles back what the
/// first toggled.
pub proof fn lemma_draw_twice(s: State, x: int, y: int, height: int)
    requires
        s.wf(),
        s.sprite_fits(x, y, height),
    ensures
        s.draw(x, y, height).wf(),
        s.draw(x, y, height).sprite_fits(x, y, height),
        s.draw(x, y, height).draw(x, y, height).bitmap == s.bitmap,
{
    let once = s.draw(x, y, height);
    assert forall|row: int, col: int|
        once.sprite_pixel(row, col) == s.sprite_pixel(row, col) by {}
    assert(once.draw(x, y, height).bitmap =~= s.bitmap);
}

/// On a blank framebuffer the first draw of a sprite hits nothing and clears
/// the flag register. The second draw at the same place leaves the
/// framebuffer blank again, and sets the flag register to 1 if the sprite has
/// a set pixel and to 0 if it has none.
pub proof fn lemma_draw_twice_on_blank(s: State, x: int, y: int, height: int)
    requires
        s.wf(),
        0 <= x,
        0 <= y,
        s.sprite_fits(x, y, height),
        forall|cell: int| 0 <= cell < SCREEN_CELLS ==> !s.bitmap[cell],
    ensures
        ({
            let once = s.draw(x, y, height);
            let twice = once.draw(x, y, height);
            &&& once.registers[FLAG_REGISTER as int] == 0
            &&& s.sprite_has_pixel(height) ==> twice.registers[FLAG_REGISTER as int] == 1
            &&& !s.sprite_has_pixel(height) ==> twice.registers[FLAG_REGISTER as int] == 0
            &&& forall|cell: int| 0 <= cell < SCREEN_CELLS ==> !twice.bitmap[cell]
        }),
{
    let once = s.draw(x, y, height);
    lemma_draw_twice(s, x, y, height);
    assert forall|row: int, col: int|
        once.sprite_pixel(row, col) == s.sprite_pixel(row, col) by {}
    if s.sprite_has_pixel(height) {
        let (row, col) = choose|row: int, col: int|
            0 <= row < height && 0 <= col < SPRITE_WIDTH && #[trigger] s.sprite_pixel(row, col);
        let cell = cell_index(x, y, row, col);
        assert(once.covers(x, y, height, cell));
        assert(once.bitmap[cell]);
    } else {
        assert forall|cell: int| 0 <= cell < SCREEN_CELLS implies !once.covers(
            x,
            y,
            height,
            cell,
        ) by {
            let offset = cell - cell_index(x, y, 0, 0);
            if once.covers(x, y, height, cell) {
                assert(s.sprite_pixel(
                    offset / (SCREEN_WIDTH as int),
                    offset % (SCREEN_WIDTH as int),
                ));
            }
        }
    }
}

} // verus!
