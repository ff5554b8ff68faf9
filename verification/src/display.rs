//! The display compositor: a 64 by 32 framebuffer of 8-bit intensity cells,
//! with XOR sprite drawing, collision reporting, and a per-frame fade that
//! emulates phosphor persistence.
//!
//! A cell holds 0 when off, 0xFF when fully lit, and an intermediate value
//! while fading.  The framebuffer is row-major: the cell at column `x` of row
//! `y` sits at index `y * DISPLAY_WIDTH + x`.

use vstd::prelude::*;

verus! {

pub const DISPLAY_WIDTH: usize = 64;

pub const DISPLAY_HEIGHT: usize = 32;

pub const DISPLAY_AREA: usize = 64 * 32;

/// How much a fading cell's intensity drops per rendered frame.
pub const PIXEL_FADE_RATE: u8 = 8;

/// The framebuffer.
pub struct Display {
    pub data: [u8; DISPLAY_AREA],
}

impl View for Display {
    type V = Seq<u8>;

    open spec fn view(&self) -> Seq<u8> {
        self.data@
    }
}

/// The value of a cell after an XOR flip: a fully lit cell starts to fade (and
/// that flip is a collision), any other cell becomes fully lit.
pub open spec fn flip_cell(c: u8) -> u8 {
    if c == 0xFF {
        (0xFF - PIXEL_FADE_RATE) as u8
    } else {
        0xFF
    }
}

/// The value of a cell after one fade step: an intensity strictly between off
/// and fully lit drops by the fade rate, floored at zero; off and fully lit
/// cells keep their value.
pub open spec fn fade_cell(c: u8) -> u8 {
    if 0 < c && c < 0xFF {
        if c >= PIXEL_FADE_RATE {
            (c - PIXEL_FADE_RATE) as u8
        } else {
            0u8
        }
    } else {
        c
    }
}

/// Whether bit `j` (most significant first) of a sprite row byte is set.
pub open spec fn sprite_bit(line: u8, j: int) -> bool {
    line & (0x80u8 >> (j as u8)) != 0
}

/// Whether a sprite drawn with its top-left corner at column `x0` of row `y0`
/// writes the framebuffer cell at flat index `k`.  Rows below the bottom edge
/// and columns past the right edge are clipped, never wrapped.
pub open spec fn draws_at(x0: int, y0: int, sprite: Seq<u8>, k: int) -> bool {
    let row = k / 64;
    let col = k % 64;
    &&& y0 <= row < y0 + sprite.len()
    &&& x0 <= col < x0 + 8
    &&& sprite_bit(sprite[row - y0], col - x0)
}

/// The framebuffer after a sprite is XOR-blitted at (`x0`, `y0`): every cell
/// the sprite writes is flipped, every other cell keeps its value.
pub open spec fn draw_fb(fb: Seq<u8>, x0: int, y0: int, sprite: Seq<u8>) -> Seq<u8> {
    Seq::new(
        fb.len(),
        |k: int|
            if draws_at(x0, y0, sprite, k) {
                flip_cell(fb[k])
            } else {
                fb[k]
            },
    )
}

/// Whether a sprite XOR-blitted at (`x0`, `y0`) turns some fully lit cell off:
/// the collision the flags register reports.
pub open spec fn draw_collision(fb: Seq<u8>, x0: int, y0: int, sprite: Seq<u8>) -> bool {
    exists|k: int| 0 <= k < fb.len() && draws_at(x0, y0, sprite, k) && #[trigger] fb[k] == 0xFF
}

/// Whether the cell at flat index `k` has already been written by a sprite
/// blit that has finished the first `i` rows and, within row `i`, the first
/// `j` columns.
spec fn draws_at_before(x0: int, y0: int, sprite: Seq<u8>, i: int, j: int, k: int) -> bool {
    let row = k / 64;
    let col = k % 64;
    &&& draws_at(x0, y0, sprite, k)
    &&& (row - y0 < i || (row - y0 == i && col - x0 < j))
}

/// Whether a partial blit (rows before `i`, then columns before `j` of row
/// `i`) has turned some fully lit cell of `fb` off.
spec fn partial_collision(fb: Seq<u8>, x0: int, y0: int, sprite: Seq<u8>, i: int, j: int) -> bool {
    exists|k: int|
        0 <= k < fb.len() && draws_at_before(x0, y0, sprite, i, j, k) && #[trigger] fb[k] == 0xFF
}

proof fn lemma_flat_index(row: int, col: int)
    by (nonlinear_arith)
    requires
        0 <= row < 32,
        0 <= col < 64,
    ensures
        (row * 64 + col) / 64 == row,
        (row * 64 + col) % 64 == col,
        0 <= row * 64 + col < 2048,
{
}

proof fn lemma_cell_decompose(k: int)
    requires
        0 <= k < 2048,
    ensures
        k == (k / 64) * 64 + (k % 64),
        0 <= k % 64 < 64,
        0 <= k / 64 < 32,
{
    vstd::arithmetic::div_mod::lemma_fundamental_div_mod(k, 64);
    vstd::arithmetic::div_mod::lemma_mod_bound(k, 64);
}

/// Extending a partial blit by one column reaches exactly the cells already
/// reached, plus the current cell when its sprite bit is set.
proof fn lemma_step_predicate(x0: int, y0: int, s: Seq<u8>, i: int, j: int)
    requires
        0 <= x0 < 64,
        0 <= y0 < 32,
        0 <= i < s.len(),
        y0 + i < 32,
        0 <= j < 8,
        x0 + j < 64,
    ensures
        forall|k: int|
            0 <= k < 2048 ==> (draws_at_before(x0, y0, s, i, j + 1, k) <==> (draws_at_before(
                x0,
                y0,
                s,
                i,
                j,
                k,
            ) || (k == (y0 + i) * 64 + (x0 + j) && sprite_bit(s[i], j)))),
{
    let ko = (y0 + i) * 64 + (x0 + j);
    lemma_flat_index(y0 + i, x0 + j);
    assert forall|k: int| 0 <= k < 2048 implies (draws_at_before(x0, y0, s, i, j + 1, k) <==> (
    draws_at_before(x0, y0, s, i, j, k) || (k == ko && sprite_bit(s[i], j)))) by {
        lemma_cell_decompose(k);
    }
}

/// A row whose columns are exhausted (all eight, or the right edge reached)
/// covers the same cells as the finished row.
proof fn lemma_row_done(x0: int, y0: int, s: Seq<u8>, i: int, j: int)
    requires
        0 <= x0 < 64,
        0 <= y0 < 32,
        0 <= i < s.len(),
        y0 + i < 32,
        j == 8 || x0 + j == 64,
        0 <= j <= 8,
    ensures
        forall|k: int|
            0 <= k < 2048 ==> (draws_at_before(x0, y0, s, i, j, k) <==> draws_at_before(
                x0,
                y0,
                s,
                i + 1,
                0,
                k,
            )),
{
    assert forall|k: int| 0 <= k < 2048 implies (draws_at_before(x0, y0, s, i, j, k)
        <==> draws_at_before(x0, y0, s, i + 1, 0, k)) by {
        lemma_cell_decompose(k);
    }
}

/// A blit whose rows are exhausted (the whole sprite, or the bottom edge
/// reached) covers exactly the cells the sprite draws.
proof fn lemma_rows_done(x0: int, y0: int, s: Seq<u8>, i: int)
    requires
        0 <= x0 < 64,
        0 <= y0 < 32,
        0 <= i <= s.len(),
        i == s.len() || y0 + i == 32,
    ensures
        forall|k: int|
            0 <= k < 2048 ==> (draws_at_before(x0, y0, s, i, 0, k) <==> draws_at(x0, y0, s, k)),
{
    assert forall|k: int| 0 <= k < 2048 implies (draws_at_before(x0, y0, s, i, 0, k) <==> draws_at(
        x0,
        y0,
        s,
        k,
    )) by {
        lemma_cell_decompose(k);
    }
}

/// Partial collision after one more column: the collision seen so far, or a
/// set sprite bit landing on a fully lit cell.
proof fn lemma_collision_step(fb: Seq<u8>, x0: int, y0: int, s: Seq<u8>, i: int, j: int)
    requires
        fb.len() == 2048,
        0 <= x0 < 64,
        0 <= y0 < 32,
        0 <= i < s.len(),
        y0 + i < 32,
        0 <= j < 8,
        x0 + j < 64,
    ensures
        partial_collision(fb, x0, y0, s, i, j + 1) == (partial_collision(fb, x0, y0, s, i, j) || (
        sprite_bit(s[i], j) && fb[(y0 + i) * 64 + (x0 + j)] == 0xFF)),
{
    let ko = (y0 + i) * 64 + (x0 + j);
    lemma_flat_index(y0 + i, x0 + j);
    lemma_step_predicate(x0, y0, s, i, j);
    if partial_collision(fb, x0, y0, s, i, j + 1) {
        let w = choose|k: int|
            0 <= k < fb.len() && draws_at_before(x0, y0, s, i, j + 1, k) && #[trigger] fb[k]
                == 0xFF;
        assert(partial_collision(fb, x0, y0, s, i, j) || (sprite_bit(s[i], j) && fb[ko] == 0xFF));
    }
    if partial_collision(fb, x0, y0, s, i, j) {
        let w = choose|k: int|
            0 <= k < fb.len() && draws_at_before(x0, y0, s, i, j, k) && #[trigger] fb[k] == 0xFF;
        assert(draws_at_before(x0, y0, s, i, j + 1, w));
        assert(partial_collision(fb, x0, y0, s, i, j + 1));
    }
    if sprite_bit(s[i], j) && fb[ko] == 0xFF {
        assert(draws_at_before(x0, y0, s, i, j + 1, ko));
        assert(partial_collision(fb, x0, y0, s, i, j + 1));
    }
}

/// Partial collisions agree wherever the partial blits cover the same cells.
proof fn lemma_collision_congruent(
    fb: Seq<u8>,
    x0: int,
    y0: int,
    s: Seq<u8>,
    i1: int,
    j1: int,
    i2: int,
    j2: int,
)
    requires
        fb.len() == 2048,
        forall|k: int|
            0 <= k < 2048 ==> (draws_at_before(x0, y0, s, i1, j1, k) <==> draws_at_before(
                x0,
                y0,
                s,
                i2,
                j2,
                k,
            )),
    ensures
        partial_collision(fb, x0, y0, s, i1, j1) == partial_collision(fb, x0, y0, s, i2, j2),
{
    if partial_collision(fb, x0, y0, s, i1, j1) {
        let w = choose|k: int|
            0 <= k < fb.len() && draws_at_before(x0, y0, s, i1, j1, k) && #[trigger] fb[k] == 0xFF;
        assert(draws_at_before(x0, y0, s, i2, j2, w));
        assert(partial_collision(fb, x0, y0, s, i2, j2));
    }
    if partial_collision(fb, x0, y0, s, i2, j2) {
        let w = choose|k: int|
            0 <= k < fb.len() && draws_at_before(x0, y0, s, i2, j2, k) && #[trigger] fb[k] == 0xFF;
        assert(draws_at_before(x0, y0, s, i1, j1, w));
        assert(partial_collision(fb, x0, y0, s, i1, j1));
    }
}

/// A finished blit's partial collision is the sprite's collision.
proof fn lemma_collision_final(fb: Seq<u8>, x0: int, y0: int, s: Seq<u8>, i: int)
    requires
        fb.len() == 2048,
        0 <= x0 < 64,
        0 <= y0 < 32,
        0 <= i <= s.len(),
        i == s.len() || y0 + i == 32,
    ensures
        partial_collision(fb, x0, y0, s, i, 0) == draw_collision(fb, x0, y0, s),
{
    lemma_rows_done(x0, y0, s, i);
    if partial_collision(fb, x0, y0, s, i, 0) {
        let w = choose|k: int|
            0 <= k < fb.len() && draws_at_before(x0, y0, s, i, 0, k) && #[trigger] fb[k] == 0xFF;
        assert(draws_at(x0, y0, s, w));
        assert(draw_collision(fb, x0, y0, s));
    }
    if draw_collision(fb, x0, y0, s) {
        let w = choose|k: int|
            0 <= k < fb.len() && draws_at(x0, y0, s, k) && #[trigger] fb[k] == 0xFF;
        assert(draws_at_before(x0, y0, s, i, 0, w));
        assert(partial_collision(fb, x0, y0, s, i, 0));
    }
}

impl Display {
    /// A framebuffer with every cell off.
    pub fn new() -> (d: Display)
        ensures
            d@.len() == DISPLAY_AREA,
            forall|k: int| 0 <= k < DISPLAY_AREA ==> d@[k] == 0,
    {
        Display { data: [0; DISPLAY_AREA] }
    }

    /// Turns every cell off.
    pub fn clear(&mut self)
        ensures
            final(self)@.len() == DISPLAY_AREA,
            forall|k: int| 0 <= k < DISPLAY_AREA ==> final(self)@[k] == 0,
    {
        self.data = [0; DISPLAY_AREA];
    }

    /// Applies one fade step to every cell.
    pub fn fade_pixels(&mut self)
        ensures
            final(self)@.len() == DISPLAY_AREA,
            forall|k: int|
                0 <= k < DISPLAY_AREA ==> final(self)@[k] == fade_cell(old(self)@[k]),
    {
        let mut i: usize = 0;
        while i < DISPLAY_AREA
            invariant
                i <= DISPLAY_AREA,
                self@.len() == DISPLAY_AREA,
                forall|k: int| 0 <= k < i ==> self@[k] == fade_cell(old(self)@[k]),
                forall|k: int| i <= k < DISPLAY_AREA ==> self@[k] == old(self)@[k],
            decreases DISPLAY_AREA - i,
        {
            let pixel = self.data[i];
            if pixel > 0 && pixel < 0xFF {
                self.data[i] = if pixel >= PIXEL_FADE_RATE {
                    pixel - PIXEL_FADE_RATE
                } else {
                    0
                };
            }
            i = i + 1;
        }
    }

    /// XOR-blits a sprite onto the framebuffer with its top-left corner at
    /// (`x_coord` mod 64, `y_coord` mod 32).  Each sprite byte is one 8-pixel
    /// row, most significant bit leftmost; rows and columns falling off the
    /// bottom or right edge are clipped, not wrapped.  Reports whether any
    /// cell went from fully lit toward off (a collision).
    pub fn draw_sprite(&mut self, x_coord: u8, y_coord: u8, sprite: &[u8]) -> (collision: bool)
        ensures
            final(self)@ == draw_fb(
                old(self)@,
                x_coord as int % 64,
                y_coord as int % 32,
                sprite@,
            ),
            collision == draw_collision(
                old(self)@,
                x_coord as int % 64,
                y_coord as int % 32,
                sprite@,
            ),
    {
        let mut has_collision = false;
        let x0 = (x_coord as usize) % DISPLAY_WIDTH;
        let y0 = (y_coord as usize) % DISPLAY_HEIGHT;
        let ghost s = sprite@;
        let mut i: usize = 0;
        while i < sprite.len() && i < DISPLAY_HEIGHT - y0
            invariant
                x0 == x_coord as int % 64,
                y0 == y_coord as int % 32,
                x0 < DISPLAY_WIDTH,
                y0 < DISPLAY_HEIGHT,
                i <= s.len(),
                y0 + i <= DISPLAY_HEIGHT,
                s == sprite@,
                self@.len() == DISPLAY_AREA,
                forall|k: int|
                    0 <= k < DISPLAY_AREA ==> self@[k] == (if draws_at_before(
                        x0 as int,
                        y0 as int,
                        s,
                        i as int,
                        0,
                        k,
                    ) {
                        flip_cell(old(self)@[k])
                    } else {
                        old(self)@[k]
                    }),
                has_collision == partial_collision(old(self)@, x0 as int, y0 as int, s, i as int, 0),
            decreases s.len() - i,
        {
            let sprite_line = sprite[i];
            let y_index = y0 + i;
            let mut j: usize = 0;
            while j < 8 && x0 + j < DISPLAY_WIDTH
                invariant
                    x0 < DISPLAY_WIDTH,
                    y0 < DISPLAY_HEIGHT,
                    i < s.len(),
                    y_index == y0 + i,
                    y_index < DISPLAY_HEIGHT,
                    sprite_line == s[i as int],
                    s == sprite@,
                    j <= 8,
                    x0 + j <= DISPLAY_WIDTH,
                    self@.len() == DISPLAY_AREA,
                    forall|k: int|
                        0 <= k < DISPLAY_AREA ==> self@[k] == (if draws_at_before(
                            x0 as int,
                            y0 as int,
                            s,
                            i as int,
                            j as int,
                            k,
                        ) {
                            flip_cell(old(self)@[k])
                        } else {
                            old(self)@[k]
                        }),
                    has_collision == partial_collision(
                        old(self)@,
                        x0 as int,
                        y0 as int,
                        s,
                        i as int,
                        j as int,
                    ),
                decreases 8 - j,
            {
                let x_index = x0 + j;
                let ghost ko = (y_index * 64 + x_index) as int;
                proof {
                    lemma_flat_index(y_index as int, x_index as int);
                    lemma_step_predicate(x0 as int, y0 as int, s, i as int, j as int);
                    lemma_collision_step(
                        old(self)@,
                        x0 as int,
                        y0 as int,
                        s,
                        i as int,
                        j as int,
                    );
                    assert(!draws_at_before(x0 as int, y0 as int, s, i as int, j as int, ko));
                }
                let pixel_mask: u8 = 0x80u8 >> (j as u8);
                if sprite_line & pixel_mask != 0 {
                    proof {
                        assert(sprite_bit(s[i as int], j as int));
                    }
                    let flip = self.flip_pixel_at(x_index, y_index);
                    has_collision = has_collision || flip;
                } else {
                    proof {
                        assert(!sprite_bit(s[i as int], j as int));
                    }
                }
                j = j + 1;
            }
            proof {
                lemma_row_done(x0 as int, y0 as int, s, i as int, j as int);
                lemma_collision_congruent(
                    old(self)@,
                    x0 as int,
                    y0 as int,
                    s,
                    i as int,
                    j as int,
                    i as int + 1,
                    0,
                );
            }
            i = i + 1;
        }
        proof {
            lemma_rows_done(x0 as int, y0 as int, s, i as int);
            lemma_collision_final(old(self)@, x0 as int, y0 as int, s, i as int);
            assert(self@ =~= draw_fb(old(self)@, x0 as int, y0 as int, s));
        }
        has_collision
    }

    /// XOR-flips the cell at column `x` of row `y` and reports whether the
    /// flip turned a fully lit cell off.
    pub fn flip_pixel_at(&mut self, x: usize, y: usize) -> (collision: bool)
        requires
            x < DISPLAY_WIDTH,
            y < DISPLAY_HEIGHT,
        ensures
            final(self)@ == old(self)@.update(
                y * DISPLAY_WIDTH + x,
                flip_cell(old(self)@[y * DISPLAY_WIDTH + x]),
            ),
            collision == (old(self)@[y * DISPLAY_WIDTH + x] == 0xFF),
    {
        let data_index = y * DISPLAY_WIDTH + x;
        if self.data[data_index] == 0xFF {
            self.data[data_index] = 0xFF - PIXEL_FADE_RATE;
            true
        } else {
            self.data[data_index] = 0xFF;
            false
        }
    }
}

/// Whether a sprite drawn at (`x0`, `y0`) writes at least one framebuffer
/// cell after clipping.
pub open spec fn sprite_visible(x0: int, y0: int, sprite: Seq<u8>) -> bool {
    exists|k: int| 0 <= k < 2048 && #[trigger] draws_at(x0, y0, sprite, k)
}

/// Drawing on a clear framebuffer never reports a collision, and every cell
/// the sprite writes is fully lit afterwards; XOR-drawing the same sprite
/// again at the same position then reports a collision exactly when the
/// sprite writes at least one cell.
pub proof fn lemma_draw_twice(fb: Seq<u8>, x0: int, y0: int, sprite: Seq<u8>)
    requires
        fb.len() == 2048,
        forall|k: int| 0 <= k < 2048 ==> fb[k] == 0,
        0 <= x0 < 64,
        0 <= y0 < 32,
    ensures
        !draw_collision(fb, x0, y0, sprite),
        forall|k: int|
            0 <= k < 2048 && #[trigger] draws_at(x0, y0, sprite, k) ==> draw_fb(
                fb,
                x0,
                y0,
                sprite,
            )[k] == 0xFF,
        draw_collision(draw_fb(fb, x0, y0, sprite), x0, y0, sprite) <==> sprite_visible(
            x0,
            y0,
            sprite,
        ),
        forall|k: int|
            0 <= k < 2048 && #[trigger] draws_at(x0, y0, sprite, k) ==> draw_fb(
                draw_fb(fb, x0, y0, sprite),
                x0,
                y0,
                sprite,
            )[k] == (0xFF - PIXEL_FADE_RATE) as u8,
{
    let fb1 = draw_fb(fb, x0, y0, sprite);
    if sprite_visible(x0, y0, sprite) {
        let w = choose|k: int| 0 <= k < 2048 && #[trigger] draws_at(x0, y0, sprite, k);
        assert(fb1[w] == 0xFF);
        assert(draw_collision(fb1, x0, y0, sprite));
    }
    if draw_collision(fb1, x0, y0, sprite) {
        let w = choose|k: int|
            0 <= k < fb1.len() && draws_at(x0, y0, sprite, k) && #[trigger] fb1[k] == 0xFF;
        assert(0 <= w < 2048 && draws_at(x0, y0, sprite, w));
        assert(sprite_visible(x0, y0, sprite));
    }
}

/// Sprite drawing clips instead of wrapping: a cell in a column left of the
/// draw position or past its eight-column span, or in a row above the draw
/// position or below the sprite's last row, keeps its value.
pub proof fn lemma_draw_clips(fb: Seq<u8>, x0: int, y0: int, sprite: Seq<u8>, k: int)
    requires
        fb.len() == 2048,
        0 <= k < 2048,
        k % 64 < x0 || k % 64 >= x0 + 8 || k / 64 < y0 || k / 64 >= y0 + sprite.len(),
    ensures
        draw_fb(fb, x0, y0, sprite)[k] == fb[k],
{
}

} // verus!
