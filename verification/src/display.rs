//! The 64x32 one-bit framebuffer, with clearing and XOR sprite compositing.

use vstd::prelude::*;
use vstd::arithmetic::div_mod::lemma_add_mod_noop;

verus! {

pub const WIDTH: usize = 64;

pub const HEIGHT: usize = 32;

pub const SPRITE_WIDTH: usize = 8;

pub const SPRITE_HEIGHT: usize = 40;

/// The built-in glyphs for the hexadecimal digits 0 to F, five bytes each.
pub const FONT_CHARS: [u8; 80] = [
    0xF0, 0x90, 0x90, 0x90, 0xF0,
    0x20, 0x60, 0x20, 0x20, 0x70,
    0xF0, 0x10, 0xF0, 0x80, 0xF0,
    0xF0, 0x10, 0xF0, 0x10, 0xF0,
    0x90, 0x90, 0xF0, 0x10, 0x10,
    0xF0, 0x80, 0xF0, 0x10, 0xF0,
    0xF0, 0x80, 0xF0, 0x90, 0xF0,
    0xF0, 0x10, 0x20, 0x40, 0x40,
    0xF0, 0x90, 0xF0, 0x90, 0xF0,
    0xF0, 0x90, 0xF0, 0x10, 0xF0,
    0xF0, 0x90, 0xF0, 0x90, 0x90,
    0xE0, 0x90, 0xE0, 0x90, 0xE0,
    0xF0, 0x80, 0x80, 0x80, 0xF0,
    0xE0, 0x90, 0x90, 0x90, 0xE0,
    0xF0, 0x80, 0xF0, 0x80, 0xF0,
    0xF0, 0x80, 0xF0, 0x80, 0x80,
];

/// The screen as a grid of lit/unlit pixels: 32 rows of 64 columns.
pub type Grid = Seq<Seq<bool>>;

/// A grid has 32 rows of 64 pixels each.
pub open spec fn grid_shaped(g: Grid) -> bool {
    g.len() == 32 && forall|y: int| 0 <= y < 32 ==> (#[trigger] g[y]).len() == 64
}

/// The all-dark grid.
pub open spec fn dark_grid() -> Grid {
    Seq::new(32, |y: int| Seq::new(64, |x: int| false))
}

/// How far `p` lies past `origin`, going round modulo `m`.
pub open spec fn wrap_offset(p: int, origin: int, m: int) -> int {
    (p - origin) % m
}

/// Bit `i` of a sprite row, counted from the left (most significant) end.
pub open spec fn sprite_bit(row: u8, i: u8) -> bool {
    (row >> ((7 - i) as u8)) & 1 == 1
}

/// The grid after one sprite row is composited with its left end at column
/// `x` of row `y`, both taken modulo the grid's size: the eight pixels under
/// the row are XORed with its bits, all others stay.
pub open spec fn draw_row(g: Grid, x: int, y: int, row: u8) -> Grid {
    Seq::new(
        32,
        |py: int|
            Seq::new(
                64,
                |px: int|
                    {
                        let d = wrap_offset(px, x, 64);
                        if py == y % 32 && d < 8 {
                            g[py][px] ^ sprite_bit(row, d as u8)
                        } else {
                            g[py][px]
                        }
                    },
            ),
    )
}

/// Whether a sprite row placed at (`x`, `y`) has a set bit over a lit pixel.
pub open spec fn row_hits(g: Grid, x: int, y: int, row: u8) -> bool {
    exists|i: int| 0 <= i < 8 && sprite_bit(row, i as u8) && #[trigger] g[y % 32][(x + i) % 64]
}

/// The grid after the rows of `sprite` are composited one after another,
/// row `j` at (`x`, `y + j`).
pub open spec fn drawn(g: Grid, x: int, y: int, sprite: Seq<u8>) -> Grid
    decreases sprite.len(),
{
    if sprite.len() == 0 {
        g
    } else {
        draw_row(drawn(g, x, y, sprite.drop_last()), x, y + sprite.len() - 1, sprite.last())
    }
}

/// Whether some row of `sprite`, at the moment it is composited, has a set
/// bit over a lit pixel.
pub open spec fn collides(g: Grid, x: int, y: int, sprite: Seq<u8>) -> bool
    decreases sprite.len(),
{
    if sprite.len() == 0 {
        false
    } else {
        collides(g, x, y, sprite.drop_last()) || row_hits(
            drawn(g, x, y, sprite.drop_last()),
            x,
            y + sprite.len() - 1,
            sprite.last(),
        )
    }
}

/// Whether pixel (`px`, `py`) lies under a sprite of `rows` rows placed at
/// (`x`, `y`), whatever the sprite's bits are.
pub open spec fn under_sprite(x: int, y: int, rows: int, px: int, py: int) -> bool {
    wrap_offset(px, x, 64) < 8 && (rows >= 32 || wrap_offset(py, y, 32) < rows)
}

/// Whether bit `i` of row `j` of `sprite`, placed at (`x`, `y`), is set
/// and lies over a lit pixel of `g`.
pub open spec fn overlap_at(g: Grid, x: int, y: int, sprite: Seq<u8>, i: int, j: int) -> bool {
    0 <= i < 8 && 0 <= j < sprite.len() && sprite_bit(sprite[j], i as u8) && g[(y + j) % 32][(x
        + i) % 64]
}

/// Whether `sprite`, placed at (`x`, `y`), has a set bit over pixel
/// (`px`, `py`).
pub open spec fn covers(x: int, y: int, sprite: Seq<u8>, px: int, py: int) -> bool {
    let j = wrap_offset(py, y, 32);
    let d = wrap_offset(px, x, 64);
    j < sprite.len() && d < 8 && sprite_bit(sprite[j], d as u8)
}

/// Row `p` is `n` rows below row `y`, wrapping at 32, exactly when
/// `p == (y + n) mod 32`.
proof fn lemma_row_offset(y: int, n: int, p: int)
    requires
        0 <= n < 32,
        0 <= p < 32,
    ensures
        (p == (y + n) % 32) <==> (wrap_offset(p, y, 32) == n),
{
}

/// Column `p` is `i` columns right of column `x`, wrapping at 64, exactly
/// when `p == (x + i) mod 64`.
proof fn lemma_column_offset(x: int, i: int, p: int)
    requires
        0 <= i < 64,
        0 <= p < 64,
    ensures
        (p == (x + i) % 64) <==> (wrap_offset(p, x, 64) == i),
{
}

/// Compositing keeps the grid's shape.
pub proof fn lemma_drawn_shaped(g: Grid, x: int, y: int, sprite: Seq<u8>)
    requires
        grid_shaped(g),
    ensures
        grid_shaped(drawn(g, x, y, sprite)),
    decreases sprite.len(),
{
    if sprite.len() > 0 {
        lemma_drawn_shaped(g, x, y, sprite.drop_last());
    }
}

/// A sprite of at most 32 rows touches no pixel twice, so each pixel ends
/// as its old value XOR the sprite bit that lies over it, wherever the
/// sprite is placed.
pub proof fn lemma_drawn_pixel(g: Grid, x: int, y: int, sprite: Seq<u8>, px: int, py: int)
    requires
        grid_shaped(g),
        sprite.len() <= 32,
        0 <= px < 64,
        0 <= py < 32,
    ensures
        drawn(g, x, y, sprite)[py][px] == (g[py][px] ^ covers(x, y, sprite, px, py)),
    decreases sprite.len(),
{
    if sprite.len() > 0 {
        let rest = sprite.drop_last();
        let n = sprite.len() - 1;
        lemma_drawn_pixel(g, x, y, rest, px, py);
        lemma_drawn_shaped(g, x, y, rest);
        let j = wrap_offset(py, y, 32);
        lemma_row_offset(y, n, py);
        if j < n {
            assert(rest[j] == sprite[j]);
        }
    }
}

/// For a sprite of at most 32 rows, the collision result is true exactly
/// when some pixel that was lit before the call lies under a set sprite
/// bit, wherever the sprite is placed.
pub proof fn lemma_collision_iff_overlap(g: Grid, x: int, y: int, sprite: Seq<u8>)
    requires
        grid_shaped(g),
        sprite.len() <= 32,
    ensures
        collides(g, x, y, sprite) <==> exists|i: int, j: int|
            overlap_at(g, x, y, sprite, i, j),
    decreases sprite.len(),
{
    if sprite.len() > 0 {
        let rest = sprite.drop_last();
        let n = sprite.len() - 1;
        let mid = drawn(g, x, y, rest);
        lemma_collision_iff_overlap(g, x, y, rest);
        let r = (y + n) % 32;
        assert forall|px: int| 0 <= px < 64 implies (#[trigger] mid[r][px]) == g[r][px] by {
            lemma_drawn_pixel(g, x, y, rest, px, r);
            lemma_row_offset(y, n, r);
        }
        if collides(g, x, y, sprite) {
            if collides(g, x, y, rest) {
                let (i, j) = choose|i: int, j: int| overlap_at(g, x, y, rest, i, j);
                assert(rest[j] == sprite[j]);
                assert(overlap_at(g, x, y, sprite, i, j));
            } else {
                let i = choose|i: int|
                    0 <= i < 8 && sprite_bit(sprite.last(), i as u8) && #[trigger] mid[(y + n)
                        % 32][(x + i) % 64];
                assert(mid[r][(x + i) % 64]);
                assert(overlap_at(g, x, y, sprite, i, n));
            }
        }
        if exists|i: int, j: int| overlap_at(g, x, y, sprite, i, j) {
            let (i, j) = choose|i: int, j: int| overlap_at(g, x, y, sprite, i, j);
            if j < n {
                assert(rest[j] == sprite[j]);
                assert(overlap_at(g, x, y, rest, i, j));
            } else {
                assert(mid[r][(x + i) % 64]);
            }
        }
    }
}

/// Only the row modulo 32 matters to where a sprite row lands.
pub proof fn lemma_row_wraps(g: Grid, x: int, y: int, row: u8)
    ensures
        draw_row(g, x, y % 32, row) == draw_row(g, x, y, row),
        row_hits(g, x, y % 32, row) == row_hits(g, x, y, row),
{
    assert((y % 32) % 32 == y % 32);
    assert(draw_row(g, x, y % 32, row) =~~= draw_row(g, x, y, row));
}

/// Compositing the first `j + 1` rows is compositing the first `j` and then
/// row `j`.
pub proof fn lemma_draw_next_row(g: Grid, x: int, y: int, sprite: Seq<u8>, j: int)
    requires
        0 <= j < sprite.len(),
    ensures
        drawn(g, x, y, sprite.take(j + 1)) == draw_row(
            drawn(g, x, y, sprite.take(j)),
            x,
            (y + j) % 32,
            sprite[j],
        ),
        collides(g, x, y, sprite.take(j + 1)) == (collides(g, x, y, sprite.take(j)) || row_hits(
            drawn(g, x, y, sprite.take(j)),
            x,
            (y + j) % 32,
            sprite[j],
        )),
{
    let s1 = sprite.take(j + 1);
    assert(s1.drop_last() =~= sprite.take(j));
    assert(s1.last() == sprite[j]);
    assert(s1.len() == j + 1);
    lemma_row_wraps(drawn(g, x, y, sprite.take(j)), x, y + j, sprite[j]);
}

/// `(a + b) mod m`, computed without overflow.
fn wrapped_sum(a: usize, b: usize, m: usize) -> (r: usize)
    requires
        0 < m <= 64,
    ensures
        r == (a + b) % (m as int),
{
    proof {
        lemma_add_mod_noop(a as int, b as int, m as int);
    }
    (a % m + b % m) % m
}

/// The framebuffer: one cell per pixel, row by row, 1 for lit and 0 for
/// dark.
pub struct Display {
    pub vram: [[u8; 64]; 32],
}

impl View for Display {
    type V = Grid;

    /// A pixel is lit exactly when its cell holds 1.
    open spec fn view(&self) -> Grid {
        Seq::new(32, |y: int| Seq::new(64, |x: int| self.vram[y][x] == 1))
    }
}

impl Display {
    /// Every cell holds 0 or 1.
    pub open spec fn wf(&self) -> bool {
        forall|x: int, y: int| 0 <= x < 64 && 0 <= y < 32 ==> (#[trigger] self.vram[y][x]) <= 1
    }

    /// A dark screen.
    pub fn new() -> (d: Display)
        ensures
            d@ == dark_grid(),
            d.wf(),
    {
        let d = Display { vram: [[0; 64]; 32] };
        assert(d@ =~~= dark_grid());
        d
    }

    /// Sets one pixel; every other cell keeps its value.
    pub fn set_pixel(&mut self, x: usize, y: usize, state: bool)
        requires
            x < 64,
            y < 32,
        ensures
            final(self)@ == old(self)@.update(y as int, old(self)@[y as int].update(x as int, state)),
            final(self).vram[y as int][x as int] == (if state { 1u8 } else { 0u8 }),
            forall|px: int, py: int|
                0 <= px < 64 && 0 <= py < 32 && !(px == x && py == y) ==> (
                #[trigger] final(self).vram[py][px]) == old(self).vram[py][px],
    {
        self.vram[y][x] = if state { 1 } else { 0 };
        assert(self@ =~~= old(self)@.update(y as int, old(self)@[y as int].update(x as int, state)));
    }

    /// Reads one pixel, leaving the screen as it was.
    pub fn get_pixel(&mut self, x: usize, y: usize) -> (on: bool)
        requires
            x < 64,
            y < 32,
        ensures
            on == old(self)@[y as int][x as int],
            *final(self) == *old(self),
    {
        self.vram[y][x] == 1
    }

    /// Turns every pixel off.
    pub fn clear(&mut self)
        ensures
            final(self)@ == dark_grid(),
            forall|x: int, y: int|
                0 <= x < 64 && 0 <= y < 32 ==> (#[trigger] final(self).vram[y][x]) == 0,
    {
        let mut row: usize = 0;
        while row < 32
            invariant
                row <= 32,
                forall|x: int, y: int|
                    0 <= x < 64 && 0 <= y < row ==> (#[trigger] self.vram[y][x]) == 0,
            decreases 32 - row,
        {
            let mut col: usize = 0;
            while col < 64
                invariant
                    row < 32,
                    col <= 64,
                    forall|x: int, y: int|
                        0 <= x < 64 && 0 <= y < row ==> (#[trigger] self.vram[y][x]) == 0,
                    forall|x: int| 0 <= x < col ==> (#[trigger] self.vram[row as int][x]) == 0,
                decreases 64 - col,
            {
                self.vram[row][col] = 0;
                col += 1;
            }
            row += 1;
        }
        assert(self@ =~~= dark_grid());
    }

    /// Composites one sprite row with its left end at column `x` of row `y`.
    fn draw_one_row(&mut self, x: usize, y: usize, row: u8) -> (hit: bool)
        requires
            y < 32,
        ensures
            final(self)@ == draw_row(old(self)@, x as int, y as int, row),
            hit == row_hits(old(self)@, x as int, y as int, row),
            forall|px: int, py: int|
                0 <= px < 64 && 0 <= py < 32 ==> if py == y && wrap_offset(px, x as int, 64) < 8 {
                    (#[trigger] final(self).vram[py][px]) <= 1
                } else {
                    final(self).vram[py][px] == old(self).vram[py][px]
                },
    {
        let ghost before = self@;
        let mut hit = false;
        let mut i: u8 = 0;
        while i < 8
            invariant
                i <= 8,
                y < 32,
                before == old(self)@,
                forall|px: int, py: int|
                    0 <= px < 64 && 0 <= py < 32 ==> if py == y && wrap_offset(px, x as int, 64)
                        < i {
                        (#[trigger] self.vram[py][px]) <= 1
                    } else {
                        self.vram[py][px] == old(self).vram[py][px]
                    },
                hit == (exists|k: int|
                    0 <= k < i && sprite_bit(row, k as u8) && #[trigger] before[y as int][(x + k)
                        % 64]),
                forall|px: int, py: int|
                    0 <= px < 64 && 0 <= py < 32 ==> (#[trigger] self@[py][px]) == (if py == y
                        && wrap_offset(px, x as int, 64) < i {
                        before[py][px] ^ sprite_bit(row, wrap_offset(px, x as int, 64) as u8)
                    } else {
                        before[py][px]
                    }),
            decreases 8 - i,
        {
            let value = (row >> (7 - i)) & 1 == 1;
            let x1: usize = wrapped_sum(x, i as usize, 64);
            assert forall|px: int| 0 <= px < 64 implies ((#[trigger] wrap_offset(px, x as int, 64)
                == i) <==> px == x1) by {
                lemma_column_offset(x as int, i as int, px);
            }
            let was = self.get_pixel(x1, y);
            assert(was == before[y as int][(x + i) % 64]);
            hit = hit || (was && value);
            self.set_pixel(x1, y, value ^ was);
            i += 1;
        }
        assert(self@ =~~= draw_row(before, x as int, y as int, row));
        hit
    }

    /// Composites `sprite` onto the screen by XOR, one byte per row, with its
    /// top-left corner at (`x`, `y`); coordinates wrap around the edges pixel
    /// by pixel. Returns whether a set sprite bit landed on a lit pixel.
    pub fn draw(&mut self, x: usize, y: usize, sprite: &[u8]) -> (collision: bool)
        ensures
            final(self)@ == drawn(old(self)@, x as int, y as int, sprite@),
            collision == collides(old(self)@, x as int, y as int, sprite@),
            forall|px: int, py: int|
                0 <= px < 64 && 0 <= py < 32 ==> if under_sprite(
                    x as int,
                    y as int,
                    sprite@.len() as int,
                    px,
                    py,
                ) {
                    (#[trigger] final(self).vram[py][px]) <= 1
                } else {
                    final(self).vram[py][px] == old(self).vram[py][px]
                },
            old(self).wf() ==> final(self).wf(),
    {
        let mut collision = false;
        let mut j: usize = 0;
        assert(sprite@.take(0) =~= Seq::<u8>::empty());
        while j < sprite.len()
            invariant
                j <= sprite.len(),
                self@ == drawn(old(self)@, x as int, y as int, sprite@.take(j as int)),
                collision == collides(old(self)@, x as int, y as int, sprite@.take(j as int)),
                forall|px: int, py: int|
                    0 <= px < 64 && 0 <= py < 32 ==> if under_sprite(
                        x as int,
                        y as int,
                        j as int,
                        px,
                        py,
                    ) {
                        (#[trigger] self.vram[py][px]) <= 1
                    } else {
                        self.vram[py][px] == old(self).vram[py][px]
                    },
            decreases sprite.len() - j,
        {
            let row: u8 = sprite[j];
            let y1: usize = wrapped_sum(y, j, 32);
            let hit = self.draw_one_row(x, y1, row);
            proof {
                lemma_draw_next_row(old(self)@, x as int, y as int, sprite@, j as int);
                assert forall|py: int| 0 <= py < 32 implies ((j >= 32 || #[trigger] wrap_offset(
                    py,
                    y as int,
                    32,
                ) < j + 1) <==> (j >= 32 || wrap_offset(py, y as int, 32) < j || py == y1)) by {
                    if j < 32 {
                        lemma_row_offset(y as int, j as int, py);
                    }
                }
            }
            collision = collision || hit;
            j += 1;
        }
        assert(sprite@.take(sprite@.len() as int) =~= sprite@);
        collision
    }
}

} // verus!
