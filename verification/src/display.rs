//! The display surface: a grid of pixels that are lit or dark.
//!
//! The grid is 64 by 32 pixels, or 128 by 64 in high resolution. Drawing
//! flips pixels, so drawing a sprite twice at one place removes it again.
//! The origin is the top left corner; `x` grows to the right and `y`
//! downwards.

use vstd::arithmetic::div_mod::{lemma_fundamental_div_mod_converse, lemma_small_mod};
use vstd::prelude::*;

verus! {

/// The width of the grid in low resolution.
pub const LOW_WIDTH: usize = 64;

/// The height of the grid in low resolution.
pub const LOW_HEIGHT: usize = 32;

/// The width of the grid in high resolution.
pub const HIGH_WIDTH: usize = 128;

/// The height of the grid in high resolution.
pub const HIGH_HEIGHT: usize = 64;

/// The most rows that a sprite has.
pub const SPRITE_ROWS: usize = 16;

/// The display as plain values: the mode and the rows of pixels from the top
/// down, each from left to right.
pub struct DisplayView {
    pub high_res: bool,
    pub rows: Seq<Seq<bool>>,
}

/// The bit of `byte` that column `col` of a sprite row shows: the leftmost
/// column is the most significant bit.
pub open spec fn byte_bit(byte: u8, col: u8) -> bool {
    byte & (0x80u8 >> col) != 0
}

/// The number of columns of a sprite: 16 for a wide one, else 8.
pub open spec fn sprite_width(wide: bool) -> int {
    if wide {
        16
    } else {
        8
    }
}

/// The number of rows of a sprite: a wide one has two bytes in a row, any
/// other has one.
pub open spec fn sprite_height(sprite: Seq<u8>, wide: bool) -> int {
    if wide {
        sprite.len() as int / 2
    } else {
        sprite.len() as int
    }
}

/// Whether the sprite has a set bit at column `col` of row `row`.
pub open spec fn sprite_bit(sprite: Seq<u8>, wide: bool, col: int, row: int) -> bool {
    &&& 0 <= col < sprite_width(wide)
    &&& 0 <= row < sprite_height(sprite, wide)
    &&& if wide {
        byte_bit(sprite[2 * row + col / 8], (col % 8) as u8)
    } else {
        byte_bit(sprite[row], col as u8)
    }
}

impl DisplayView {
    pub open spec fn width(self) -> int {
        if self.high_res {
            HIGH_WIDTH as int
        } else {
            LOW_WIDTH as int
        }
    }

    pub open spec fn height(self) -> int {
        if self.high_res {
            HIGH_HEIGHT as int
        } else {
            LOW_HEIGHT as int
        }
    }

    /// The column that `x` falls on when the columns go round.
    pub open spec fn wrap_x(self, x: int) -> int {
        if self.high_res {
            x % 128
        } else {
            x % 64
        }
    }

    /// The row that `y` falls on when the rows go round.
    pub open spec fn wrap_y(self, y: int) -> int {
        if self.high_res {
            y % 64
        } else {
            y % 32
        }
    }

    /// The rows are as many and as long as the mode says.
    pub open spec fn wf(self) -> bool {
        &&& self.rows.len() == self.height()
        &&& forall|y: int|
            0 <= y < self.height() ==> (#[trigger] self.rows[y]).len() == self.width()
    }

    pub open spec fn on_screen(self, x: int, y: int) -> bool {
        0 <= x < self.width() && 0 <= y < self.height()
    }

    /// Whether the pixel in column `x` of row `y` is lit.
    pub open spec fn lit(self, x: int, y: int) -> bool {
        self.rows[y][x]
    }

    /// The display of the given mode for which `pixel` says what is lit.
    pub open spec fn of(high_res: bool, pixel: spec_fn(int, int) -> bool) -> DisplayView {
        let mode = DisplayView { high_res, rows: Seq::empty() };
        DisplayView {
            high_res,
            rows: Seq::new(
                mode.height() as nat,
                |y: int| Seq::new(mode.width() as nat, |x: int| pixel(x, y)),
            ),
        }
    }

    /// The dark display of the given mode.
    pub open spec fn blank(high_res: bool) -> DisplayView {
        Self::of(high_res, |x: int, y: int| false)
    }

    /// The display with the pixel at (`x`, `y`) flipped.
    pub open spec fn toggled(self, x: int, y: int) -> DisplayView {
        Self::of(self.high_res, |px: int, py: int| self.lit(px, py) != (px == x && py == y))
    }

    /// The display moved down by `n` rows; dark rows come in at the top.
    pub open spec fn scrolled_down(self, n: int) -> DisplayView {
        Self::of(self.high_res, |x: int, y: int| y >= n && self.lit(x, y - n))
    }

    /// The display moved right by four columns; dark columns come in at the left.
    pub open spec fn scrolled_right(self) -> DisplayView {
        Self::of(self.high_res, |x: int, y: int| x >= 4 && self.lit(x - 4, y))
    }

    /// The display moved left by four columns; dark columns come in at the right.
    pub open spec fn scrolled_left(self) -> DisplayView {
        Self::of(self.high_res, |x: int, y: int| x + 4 < self.width() && self.lit(x + 4, y))
    }

    /// Whether a sprite drawn from (`ox`, `oy`) has a set bit on the pixel
    /// (`x`, `y`). The sprite wraps round at the right and the bottom edge.
    pub open spec fn covered(
        self,
        ox: int,
        oy: int,
        sprite: Seq<u8>,
        wide: bool,
        x: int,
        y: int,
    ) -> bool {
        sprite_bit(
            sprite,
            wide,
            (x - ox + self.width()) % self.width(),
            (y - oy + self.height()) % self.height(),
        )
    }

    /// The display after a sprite was drawn from (`ox`, `oy`): every pixel
    /// under a set bit of the sprite is flipped.
    pub open spec fn drawn(self, ox: int, oy: int, sprite: Seq<u8>, wide: bool) -> DisplayView {
        Self::of(
            self.high_res,
            |x: int, y: int| self.lit(x, y) != self.covered(ox, oy, sprite, wide, x, y),
        )
    }

    /// Whether drawing the sprite from (`ox`, `oy`) turns a lit pixel dark.
    pub open spec fn collides(self, ox: int, oy: int, sprite: Seq<u8>, wide: bool) -> bool {
        exists|x: int, y: int|
            self.on_screen(x, y) && self.lit(x, y) && #[trigger] self.covered(
                ox,
                oy,
                sprite,
                wide,
                x,
                y,
            )
    }
}

/// Whether the drawing loop, standing at column `at_col` of row `at_row` of
/// a sprite, has already handled column `col` of row `row`.
spec fn handled(col: int, row: int, at_col: int, at_row: int) -> bool {
    row < at_row || (row == at_row && col < at_col)
}

/// The distance from `origin` to `position` on a ring of `size` places.
spec fn ring_offset(position: int, origin: int, size: int) -> int {
    (position - origin + size) % size
}

/// Where a drawing stands: the display before it, the origin, the sprite and
/// the sprite position that the loop handles next.
struct Drawing {
    before: DisplayView,
    ox: int,
    oy: int,
    sprite: Seq<u8>,
    wide: bool,
    at_col: int,
    at_row: int,
}

impl Drawing {
    spec fn wf(self) -> bool {
        &&& self.before.wf()
        &&& 0 <= self.ox < self.before.width()
        &&& 0 <= self.oy < self.before.height()
        &&& sprite_height(self.sprite, self.wide) <= SPRITE_ROWS
        &&& 0 <= self.at_col <= sprite_width(self.wide)
        &&& 0 <= self.at_row <= sprite_height(self.sprite, self.wide)
    }

    spec fn at(self, at_col: int, at_row: int) -> Drawing {
        Drawing { at_col, at_row, ..self }
    }

    /// The pixel that the sprite position handled next falls on.
    spec fn target(self) -> (int, int) {
        (self.before.wrap_x(self.ox + self.at_col), self.before.wrap_y(self.oy + self.at_row))
    }

    /// Whether the sprite position handled next has a set bit.
    spec fn bit(self) -> bool {
        sprite_bit(self.sprite, self.wide, self.at_col, self.at_row)
    }

    /// Whether the part of the sprite handled so far covers (`x`, `y`).
    spec fn covered(self, x: int, y: int) -> bool {
        self.before.covered(self.ox, self.oy, self.sprite, self.wide, x, y) && handled(
            ring_offset(x, self.ox, self.before.width()),
            ring_offset(y, self.oy, self.before.height()),
            self.at_col,
            self.at_row,
        )
    }

    /// Whether the part of the sprite handled so far covers the pixel
    /// (`x`, `y`), lit before the drawing.
    spec fn hit(self, x: int, y: int) -> bool {
        self.before.on_screen(x, y) && self.before.lit(x, y) && self.covered(x, y)
    }

    spec fn any_hit(self) -> bool {
        exists|x: int, y: int| #[trigger] self.hit(x, y)
    }

    /// Whether `current` is the display with the part handled so far drawn.
    spec fn shows(self, current: DisplayView) -> bool {
        &&& current.wf()
        &&& current.high_res == self.before.high_res
        &&& forall|x: int, y: int|
            self.before.on_screen(x, y) ==> current.lit(x, y) == (self.before.lit(x, y)
                != #[trigger] self.covered(x, y))
    }
}

/// On a ring, the place at distance `d` from `origin` is `(origin + d) % size`
/// and no other.
proof fn lemma_ring(size: int, origin: int, d: int, position: int)
    requires
        0 < size,
        0 <= origin < size,
        0 <= d < size,
        0 <= position < size,
    ensures
        0 <= (origin + d) % size < size,
        0 <= ring_offset(position, origin, size) < size,
        ring_offset(position, origin, size) == d <==> position == (origin + d) % size,
{
    let target = origin + d;
    if target < size {
        lemma_small_mod(target as nat, size as nat);
    } else {
        lemma_fundamental_div_mod_converse(
            target,
            size,
            1,
            target - size,
        );
    }
    let back = position - origin + size;
    if back < size {
        lemma_small_mod(back as nat, size as nat);
    } else {
        lemma_fundamental_div_mod_converse(back, size, 1, back - size);
    }
}

/// One step of a drawing: the pixel under the sprite position at hand is
/// flipped if its bit is set, and was a hit if it was lit.
proof fn lemma_draw_step(d: Drawing, current: DisplayView, next: DisplayView)
    requires
        d.wf(),
        d.at_col < sprite_width(d.wide),
        d.at_row < sprite_height(d.sprite, d.wide),
        d.shows(current),
        next == if d.bit() {
            current.toggled(d.target().0, d.target().1)
        } else {
            current
        },
    ensures
        d.before.on_screen(d.target().0, d.target().1),
        current.lit(d.target().0, d.target().1) == d.before.lit(d.target().0, d.target().1),
        d.at(d.at_col + 1, d.at_row).shows(next),
        d.at(d.at_col + 1, d.at_row).any_hit() == (d.any_hit() || (d.bit() && d.before.lit(
            d.target().0,
            d.target().1,
        ))),
{
    let w = d.before.width();
    let h = d.before.height();
    let (tx, ty) = d.target();
    let e = d.at(d.at_col + 1, d.at_row);
    assert(tx == (d.ox + d.at_col) % w && ty == (d.oy + d.at_row) % h);
    lemma_ring(w, d.ox, d.at_col, 0);
    lemma_ring(h, d.oy, d.at_row, 0);
    lemma_ring(w, d.ox, d.at_col, tx);
    lemma_ring(h, d.oy, d.at_row, ty);
    assert(!d.covered(tx, ty));
    assert forall|x: int, y: int| d.before.on_screen(x, y) implies #[trigger] e.covered(x, y) == (
    d.covered(x, y) || (d.bit() && x == tx && y == ty)) by {
        lemma_ring(w, d.ox, d.at_col, x);
        lemma_ring(h, d.oy, d.at_row, y);
    }
    assert forall|x: int, y: int| d.before.on_screen(x, y) implies next.lit(x, y) == (
    d.before.lit(x, y) != #[trigger] e.covered(x, y)) by {
        assert(current.lit(x, y) == (d.before.lit(x, y) != d.covered(x, y)));
    }
    if d.any_hit() {
        let (x, y) = choose|x: int, y: int| #[trigger] d.hit(x, y);
        assert(e.hit(x, y));
    }
    if d.bit() && d.before.lit(tx, ty) {
        assert(e.hit(tx, ty));
    }
    if e.any_hit() {
        let (x, y) = choose|x: int, y: int| #[trigger] e.hit(x, y);
        if !(x == tx && y == ty) {
            assert(d.hit(x, y));
        }
    }
}

/// The end of a sprite row is the start of the next one.
proof fn lemma_draw_next_row(d: Drawing, current: DisplayView)
    requires
        d.wf(),
        d.at_col == sprite_width(d.wide),
        d.at_row < sprite_height(d.sprite, d.wide),
        d.shows(current),
    ensures
        d.at(0, d.at_row + 1).shows(current),
        d.at(0, d.at_row + 1).any_hit() == d.any_hit(),
{
    let e = d.at(0, d.at_row + 1);
    assert forall|x: int, y: int| #[trigger] e.covered(x, y) == d.covered(x, y) by {}
    if d.any_hit() {
        let (x, y) = choose|x: int, y: int| #[trigger] d.hit(x, y);
        assert(e.hit(x, y));
    }
    if e.any_hit() {
        let (x, y) = choose|x: int, y: int| #[trigger] e.hit(x, y);
        assert(d.hit(x, y));
    }
}

/// Nothing is drawn before the first step.
proof fn lemma_draw_start(d: Drawing)
    requires
        d.wf(),
        d.at_col == 0,
        d.at_row == 0,
    ensures
        d.shows(d.before),
        !d.any_hit(),
{
}

/// After the last row the whole sprite is drawn.
proof fn lemma_draw_end(d: Drawing, current: DisplayView)
    requires
        d.wf(),
        d.at_col == 0,
        d.at_row == sprite_height(d.sprite, d.wide),
        d.shows(current),
    ensures
        current == d.before.drawn(d.ox, d.oy, d.sprite, d.wide),
        d.any_hit() == d.before.collides(d.ox, d.oy, d.sprite, d.wide),
{
    let whole = d.before.drawn(d.ox, d.oy, d.sprite, d.wide);
    assert forall|x: int, y: int| d.before.on_screen(x, y) implies current.rows[y][x]
        == whole.rows[y][x] by {
        assert(d.covered(x, y) == d.before.covered(d.ox, d.oy, d.sprite, d.wide, x, y));
    }
    assert forall|y: int| 0 <= y < d.before.height() implies #[trigger] current.rows[y]
        =~= whole.rows[y] by {
        assert forall|x: int| 0 <= x < d.before.width() implies current.rows[y][x]
            == whole.rows[y][x] by {
            assert(d.before.on_screen(x, y));
        }
    }
    assert(current.rows =~= whole.rows);
    if d.any_hit() {
        let (x, y) = choose|x: int, y: int| #[trigger] d.hit(x, y);
        assert(d.before.covered(d.ox, d.oy, d.sprite, d.wide, x, y));
    }
    if d.before.collides(d.ox, d.oy, d.sprite, d.wide) {
        let (x, y) = choose|x: int, y: int|
            d.before.on_screen(x, y) && d.before.lit(x, y) && #[trigger] d.before.covered(
                d.ox,
                d.oy,
                d.sprite,
                d.wide,
                x,
                y,
            );
        assert(d.hit(x, y));
    }
}

/// The bit of `byte` that column `col` of a sprite row shows.
pub fn bit_at(byte: u8, col: u8) -> (set: bool)
    requires
        col < 8,
    ensures
        set == byte_bit(byte, col),
{
    byte & (0x80u8 >> col) != 0
}

/// The display surface.
pub struct Display {
    high_res: bool,
    pixels: Vec<bool>,
}

impl View for Display {
    type V = DisplayView;

    closed spec fn view(&self) -> DisplayView {
        DisplayView::of(self.high_res, |x: int, y: int| self.pixels@[y * 128 + x])
    }
}

impl Display {
    #[verifier::type_invariant]
    spec fn sized(self) -> bool {
        self.pixels@.len() == 128 * 64
    }

    /// A dark display in low resolution.
    pub fn new() -> (r: Self)
        ensures
            r@ == DisplayView::blank(false),
            r@.wf(),
    {
        let r = Display { high_res: false, pixels: vec![false; 128 * 64] };
        assert(r@.rows =~~= DisplayView::blank(false).rows);
        r
    }

    /// Whether the display is in high resolution.
    pub fn is_high_res(&self) -> (high_res: bool)
        ensures
            high_res == self@.high_res,
            self@.wf(),
    {
        self.high_res
    }

    /// The number of columns.
    pub fn width(&self) -> (w: usize)
        ensures
            w == self@.width(),
            self@.wf(),
    {
        if self.high_res {
            HIGH_WIDTH
        } else {
            LOW_WIDTH
        }
    }

    /// The number of rows.
    pub fn height(&self) -> (h: usize)
        ensures
            h == self@.height(),
            self@.wf(),
    {
        if self.high_res {
            HIGH_HEIGHT
        } else {
            LOW_HEIGHT
        }
    }

    /// Whether the pixel at (`x`, `y`) is lit. Coordinates beyond the edge
    /// wrap round.
    pub fn pixel(&self, x: usize, y: usize) -> (lit: bool)
        ensures
            lit == self@.lit(self@.wrap_x(x as int), self@.wrap_y(y as int)),
    {
        proof {
            use_type_invariant(self);
        }
        let px: usize = self.wrap_x(x);
        let py: usize = self.wrap_y(y);
        self.pixels[py * 128 + px]
    }

    /// The column that `x` falls on when the columns go round.
    pub fn wrap_x(&self, x: usize) -> (px: usize)
        ensures
            px == self@.wrap_x(x as int),
            px < self@.width(),
    {
        if self.high_res {
            x % HIGH_WIDTH
        } else {
            x % LOW_WIDTH
        }
    }

    /// The row that `y` falls on when the rows go round.
    pub fn wrap_y(&self, y: usize) -> (py: usize)
        ensures
            py == self@.wrap_y(y as int),
            py < self@.height(),
    {
        if self.high_res {
            y % HIGH_HEIGHT
        } else {
            y % LOW_HEIGHT
        }
    }

    /// Flips the pixel at (`x`, `y`) and says whether it was lit before.
    /// Coordinates beyond the edge wrap round.
    pub fn set_pixel(&mut self, x: usize, y: usize) -> (was_set: bool)
        ensures
            final(self)@.wf(),
            was_set == old(self)@.lit(old(self)@.wrap_x(x as int), old(self)@.wrap_y(y as int)),
            final(self)@ == old(self)@.toggled(
                old(self)@.wrap_x(x as int),
                old(self)@.wrap_y(y as int),
            ),
    {
        proof {
            use_type_invariant(&*self);
        }
        let px: usize = self.wrap_x(x);
        let py: usize = self.wrap_y(y);
        let was_set: bool = self.pixels[py * 128 + px];
        self.pixels[py * 128 + px] = !was_set;
        assert(self@.rows =~~= old(self)@.toggled(px as int, py as int).rows);
        was_set
    }

    /// Turns every pixel dark.
    pub fn clear(&mut self)
        ensures
            final(self)@ == DisplayView::blank(old(self)@.high_res),
            final(self)@.wf(),
    {
        self.pixels = vec![false; 128 * 64];
        assert(self@.rows =~~= DisplayView::blank(self.high_res).rows);
    }

    /// Switches the resolution. The display comes up dark.
    pub fn set_high_res(&mut self, high_res: bool)
        ensures
            final(self)@ == DisplayView::blank(high_res),
            final(self)@.wf(),
    {
        *self = Display { high_res, pixels: vec![false; 128 * 64] };
        assert(self@.rows =~~= DisplayView::blank(high_res).rows);
    }

    /// Moves the picture down by `n` rows. What leaves at the bottom is lost.
    pub fn scroll_down(&mut self, n: u8)
        ensures
            final(self)@ == old(self)@.scrolled_down(n as int),
            final(self)@.wf(),
    {
        proof {
            use_type_invariant(&*self);
        }
        let mut pixels: Vec<bool> = Vec::new();
        let mut idx: usize = 0;
        while idx < 128 * 64
            invariant
                idx <= 128 * 64,
                self.pixels@.len() == 128 * 64,
                pixels@.len() == idx,
                forall|j: int|
                    0 <= j < idx ==> pixels@[j] == (j / 128 >= n && self.pixels@[j - 128 * n]),
            decreases 128 * 64 - idx,
        {
            let y: usize = idx / 128;
            let lit: bool = y >= n as usize && self.pixels[idx - 128 * (n as usize)];
            pixels.push(lit);
            idx += 1;
        }
        self.pixels = pixels;
        assert(self@.rows =~~= old(self)@.scrolled_down(n as int).rows);
    }

    /// Moves the picture right by four columns. What leaves at the right is lost.
    pub fn scroll_right(&mut self)
        ensures
            final(self)@ == old(self)@.scrolled_right(),
            final(self)@.wf(),
    {
        proof {
            use_type_invariant(&*self);
        }
        let mut pixels: Vec<bool> = Vec::new();
        let mut idx: usize = 0;
        while idx < 128 * 64
            invariant
                idx <= 128 * 64,
                self.pixels@.len() == 128 * 64,
                pixels@.len() == idx,
                forall|j: int| 0 <= j < idx ==> pixels@[j] == (j % 128 >= 4 && self.pixels@[j - 4]),
            decreases 128 * 64 - idx,
        {
            let x: usize = idx % 128;
            let lit: bool = x >= 4 && self.pixels[idx - 4];
            pixels.push(lit);
            idx += 1;
        }
        self.pixels = pixels;
        assert(self@.rows =~~= old(self)@.scrolled_right().rows);
    }

    /// Moves the picture left by four columns. What leaves at the left is lost.
    pub fn scroll_left(&mut self)
        ensures
            final(self)@ == old(self)@.scrolled_left(),
            final(self)@.wf(),
    {
        proof {
            use_type_invariant(&*self);
        }
        let w: usize = self.width();
        let mut pixels: Vec<bool> = Vec::new();
        let mut idx: usize = 0;
        while idx < 128 * 64
            invariant
                idx <= 128 * 64,
                w == self@.width(),
                self.pixels@.len() == 128 * 64,
                pixels@.len() == idx,
                forall|j: int|
                    0 <= j < idx ==> pixels@[j] == (j % 128 + 4 < w && self.pixels@[j + 4]),
            decreases 128 * 64 - idx,
        {
            let x: usize = idx % 128;
            let lit: bool = x + 4 < w && self.pixels[idx + 4];
            pixels.push(lit);
            idx += 1;
        }
        self.pixels = pixels;
        assert(self@.rows =~~= old(self)@.scrolled_left().rows);
    }

    /// Draws a sprite with its top left corner at (`x`, `y`), wrapped onto
    /// the screen, and says whether a lit pixel went dark. Each byte of the
    /// sprite is a row of eight pixels; a wide sprite has two bytes in a row.
    /// A set bit flips its pixel. What passes the right or the bottom edge
    /// comes back in at the opposite one.
    pub fn draw_sprite(&mut self, x: u8, y: u8, sprite: &[u8], wide: bool) -> (collision: bool)
        requires
            sprite_height(sprite@, wide) <= SPRITE_ROWS,
        ensures
            final(self)@.wf(),
            final(self)@ == old(self)@.drawn(
                old(self)@.wrap_x(x as int),
                old(self)@.wrap_y(y as int),
                sprite@,
                wide,
            ),
            collision == old(self)@.collides(
                old(self)@.wrap_x(x as int),
                old(self)@.wrap_y(y as int),
                sprite@,
                wide,
            ),
    {
        let w: usize = self.width();
        let h: usize = self.height();
        let ox: usize = self.wrap_x(x as usize);
        let oy: usize = self.wrap_y(y as usize);
        let rows: usize = if wide {
            sprite.len() / 2
        } else {
            sprite.len()
        };
        let cols: usize = if wide {
            16
        } else {
            8
        };
        let ghost start = Drawing {
            before: self@,
            ox: ox as int,
            oy: oy as int,
            sprite: sprite@,
            wide,
            at_col: 0,
            at_row: 0,
        };
        proof {
            lemma_draw_start(start);
        }
        let mut collision: bool = false;
        let mut row: usize = 0;
        while row < rows
            invariant
                row <= rows,
                rows == sprite_height(sprite@, wide),
                cols == sprite_width(wide),
                w == start.before.width(),
                h == start.before.height(),
                start.wf(),
                start.ox == ox,
                start.oy == oy,
                start.sprite == sprite@,
                start.wide == wide,
                start.at(0, row as int).shows(self@),
                collision == start.at(0, row as int).any_hit(),
            decreases rows - row,
        {
            let mut col: usize = 0;
            while col < cols
                invariant
                    col <= cols,
                    row < rows,
                    rows == sprite_height(sprite@, wide),
                    cols == sprite_width(wide),
                    w == start.before.width(),
                    h == start.before.height(),
                    start.wf(),
                    start.ox == ox,
                    start.oy == oy,
                    start.sprite == sprite@,
                    start.wide == wide,
                    start.at(col as int, row as int).shows(self@),
                    collision == start.at(col as int, row as int).any_hit(),
                decreases cols - col,
            {
                let byte: u8 = if wide {
                    sprite[2 * row + col / 8]
                } else {
                    sprite[row]
                };
                let set: bool = bit_at(byte, (col % 8) as u8);
                let ghost current = self@;
                if set {
                    let was_set: bool = self.set_pixel(ox + col, oy + row);
                    if was_set {
                        collision = true;
                    }
                }
                proof {
                    lemma_draw_step(start.at(col as int, row as int), current, self@);
                }
                col += 1;
            }
            proof {
                lemma_draw_next_row(start.at(col as int, row as int), self@);
            }
            row += 1;
        }
        proof {
            lemma_draw_end(start.at(0, row as int), self@);
        }
        collision
    }
}

impl Default for Display {
    fn default() -> (r: Self)
        ensures
            r@ == DisplayView::blank(false),
            r@.wf(),
    {
        Self::new()
    }
}

} // verus!
