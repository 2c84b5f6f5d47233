use vstd::prelude::*;

verus! {

/// Width of the frame buffer in pixels.
pub const SCREEN_WIDTH: usize = 64;

/// Height of the frame buffer in pixels.
pub const SCREEN_HEIGHT: usize = 32;

/// The monochrome frame buffer: a 64 by 32 grid of 1-bit pixels, mutated
/// only by the XOR sprite blit and the clear operation, plus a dirty flag
/// that tells the rendering backend a redraw is due.
pub struct Display {
    /// Row-major pixels: entry `r * 64 + c` is row `r`, column `c`; each is 0 or 1.
    pub gfx: Vec<u8>,
    /// Whether the grid changed since it was last presented.
    pub draw_flag: bool,
}

/// Whether bit `i` of sprite byte `b` is set, counting from the most
/// significant bit, so bit 0 is the leftmost pixel of the row.
pub open spec fn sprite_bit(b: u8, i: int) -> bool {
    b & (0x80u8 >> (i as u8)) != 0
}

/// The pixel index that bit `i` of a sprite row lands on when the row is
/// drawn on grid row `row` with x offset `x`.
pub open spec fn row_target(x: int, row: int, i: int) -> int {
    row * 64 + (x + i) % 64
}

/// The grid and collision flag after applying bits `i..8` of one sprite row
/// byte `b` to grid row `row`, with horizontal wraparound from column
/// `(x + i) % 64`: a set bit records a collision when its target pixel is
/// already 1, then toggles that pixel.
pub open spec fn blit_row_from(
    g: Seq<u8>,
    coll: u8,
    x: int,
    row: int,
    b: u8,
    i: int,
) -> (Seq<u8>, u8)
    decreases 8 - i,
{
    if i < 0 || i >= 8 {
        (g, coll)
    } else {
        let t = row_target(x, row, i);
        if sprite_bit(b, i) {
            let c2: u8 = if g[t] == 1 {
                1
            } else {
                coll
            };
            blit_row_from(g.update(t, g[t] ^ 1), c2, x, row, b, i + 1)
        } else {
            blit_row_from(g, coll, x, row, b, i + 1)
        }
    }
}

/// The grid and collision flag after drawing sprite rows `j..` of `s` at
/// `(x, y)`, each row landing on grid row `(y + j) % 32`.
pub open spec fn blit_from(g: Seq<u8>, coll: u8, x: int, y: int, s: Seq<u8>, j: int) -> (
    Seq<u8>,
    u8,
)
    decreases s.len() - j,
{
    if j < 0 || j >= s.len() {
        (g, coll)
    } else {
        let step = blit_row_from(g, coll, x, (y + j) % 32, s[j], 0);
        blit_from(step.0, step.1, x, y, s, j + 1)
    }
}

/// The full sprite blit: the grid after drawing `s` at `(x, y)` with
/// toroidal wraparound, paired with the collision flag.
pub open spec fn spec_draw(g: Seq<u8>, x: int, y: int, s: Seq<u8>) -> (Seq<u8>, u8) {
    blit_from(g, 0, x, y, s, 0)
}

impl Display {
    /// Every pixel of the 64 by 32 grid is present and holds 0 or 1.
    pub open spec fn wf(self) -> bool {
        &&& self.gfx@.len() == 2048
        &&& forall|t: int| 0 <= t < 2048 ==> self.gfx@[t] <= 1
    }

    /// A black screen that asks for one initial presentation.
    pub fn new() -> (r: Display)
        ensures
            r.wf(),
            forall|t: int| 0 <= t < 2048 ==> r.gfx@[t] == 0,
            r.draw_flag,
    {
        Display { gfx: zero_grid(), draw_flag: true }
    }

    /// Clears every pixel and marks the buffer dirty.
    pub fn clear(&mut self)
        ensures
            final(self).wf(),
            forall|t: int| 0 <= t < 2048 ==> final(self).gfx@[t] == 0,
            final(self).draw_flag,
    {
        self.gfx = zero_grid();
        self.draw_flag = true;
    }

    /// Tells the rendering backend that a redraw is due.
    pub fn needs_redraw(&self) -> (r: bool)
        ensures
            r == self.draw_flag,
    {
        self.draw_flag
    }

    /// Clears the dirty flag once the backend has presented the grid.
    pub fn mark_presented(&mut self)
        ensures
            final(self).gfx@ == old(self).gfx@,
            !final(self).draw_flag,
    {
        self.draw_flag = false;
    }

    /// XOR-blits `sprite` at `(x, y)`: coordinates wrap toroidally, a set
    /// sprite bit toggles its target pixel, and the result reports whether
    /// any set bit found its target pixel already lit. Marks the buffer
    /// dirty unconditionally.
    pub fn draw(&mut self, x: usize, y: usize, sprite: &[u8]) -> (collision: u8)
        requires
            old(self).wf(),
        ensures
            final(self).wf(),
            (final(self).gfx@, collision) == spec_draw(
                old(self).gfx@,
                x as int,
                y as int,
                sprite@,
            ),
            final(self).draw_flag,
    {
        let ghost g0 = self.gfx@;
        let ghost sx = x as int;
        let ghost sy = y as int;
        let mut collision: u8 = 0;
        let n: usize = sprite.len();
        let xm: usize = x % 64;
        let mut j: usize = 0;
        while j < n
            invariant
                self.wf(),
                j <= n,
                n == sprite@.len(),
                xm == sx % 64,
                sx == x as int,
                sy == y as int,
                sx >= 0,
                sy >= 0,
                blit_from(g0, 0, sx, sy, sprite@, 0) == blit_from(
                    self.gfx@,
                    collision,
                    sx,
                    sy,
                    sprite@,
                    j as int,
                ),
            decreases n - j,
        {
            let jm: usize = j % 32;
            let ym: usize = y % 32;
            let row: usize = (ym + jm) % 32;
            proof {
                vstd::arithmetic::div_mod::lemma_add_mod_noop(sy, j as int, 32);
                assert(row == (sy + j as int) % 32);
            }
            let b: u8 = sprite[j];
            let mut i: usize = 0;
            while i < 8
                invariant
                    self.wf(),
                    i <= 8,
                    j < n,
                    n == sprite@.len(),
                    b == sprite@[j as int],
                    xm == sx % 64,
                    sx >= 0,
                    sy >= 0,
                    row == (sy + j as int) % 32,
                    row < 32,
                    blit_from(g0, 0, sx, sy, sprite@, 0) == {
                        let step = blit_row_from(
                            self.gfx@,
                            collision,
                            sx,
                            row as int,
                            b,
                            i as int,
                        );
                        blit_from(step.0, step.1, sx, sy, sprite@, j as int + 1)
                    },
                decreases 8 - i,
            {
                let col: usize = (xm + i) % 64;
                proof {
                    vstd::arithmetic::div_mod::lemma_add_mod_noop(sx, i as int, 64);
                    vstd::arithmetic::div_mod::lemma_small_mod(i as nat, 64);
                    assert(col == (sx + i as int) % 64);
                }
                let t: usize = row * 64 + col;
                let ib: u8 = i as u8;
                if (b & (0x80u8 >> ib)) != 0 {
                    proof {
                        assert(sprite_bit(b, i as int));
                    }
                    let p: u8 = self.gfx[t];
                    if p == 1 {
                        collision = 1;
                    }
                    proof {
                        assert(p <= 1 ==> (p ^ 1) <= 1) by (bit_vector);
                    }
                    self.gfx.set(t, p ^ 1);
                } else {
                    proof {
                        assert(!sprite_bit(b, i as int));
                    }
                }
                i = i + 1;
            }
            j = j + 1;
        }
        self.draw_flag = true;
        proof {
            assert(blit_from(self.gfx@, collision, sx, sy, sprite@, n as int) == (
                self.gfx@,
                collision,
            ));
        }
        collision
    }
}

/// Whether bits `i..8` of row byte `b`, drawn on grid row `row` with x
/// offset `x`, toggle pixel `t` an odd number of times.
pub open spec fn row_flips(x: int, row: int, b: u8, i: int, t: int) -> bool
    decreases 8 - i,
{
    if i < 0 || i >= 8 {
        false
    } else {
        (sprite_bit(b, i) && t == row_target(x, row, i)) != row_flips(x, row, b, i + 1, t)
    }
}

/// Whether sprite rows `j..` of `s`, drawn at `(x, y)`, toggle pixel `t` an
/// odd number of times.
pub open spec fn sprite_flips(x: int, y: int, s: Seq<u8>, j: int, t: int) -> bool
    decreases s.len() - j,
{
    if j < 0 || j >= s.len() {
        false
    } else {
        (row_flips(x, (y + j) % 32, s[j], 0, t) != sprite_flips(x, y, s, j + 1, t))
    }
}

/// One sprite row changes exactly the pixels it toggles an odd number of
/// times, and those all lie in its own grid row.
proof fn lemma_row_pixel(g: Seq<u8>, coll: u8, x: int, row: int, b: u8, i: int, t: int)
    requires
        0 <= x,
        0 <= row < 32,
        g.len() == 2048,
        0 <= t < 2048,
    ensures
        blit_row_from(g, coll, x, row, b, i).0.len() == 2048,
        blit_row_from(g, coll, x, row, b, i).0[t] == if row_flips(x, row, b, i, t) {
            g[t] ^ 1
        } else {
            g[t]
        },
        row_flips(x, row, b, i, t) ==> row * 64 <= t < row * 64 + 64,
    decreases 8 - i,
{
    if i < 0 || i >= 8 {
    } else {
        vstd::arithmetic::div_mod::lemma_mod_division_less_than_divisor(x + i, 64);
        let tt = row_target(x, row, i);
        let a = g[t];
        assert((a ^ 1) ^ 1 == a) by (bit_vector);
        if sprite_bit(b, i) {
            let g2 = g.update(tt, g[tt] ^ 1);
            lemma_row_pixel(g2, if g[tt] == 1 {
                1u8
            } else {
                coll
            }, x, row, b, i + 1, t);
        } else {
            lemma_row_pixel(g, coll, x, row, b, i + 1, t);
        }
    }
}

/// A sprite blit changes exactly the pixels it toggles an odd number of
/// times.
proof fn lemma_blit_pixel(g: Seq<u8>, coll: u8, x: int, y: int, s: Seq<u8>, j: int, t: int)
    requires
        0 <= x,
        0 <= y,
        g.len() == 2048,
        0 <= t < 2048,
    ensures
        blit_from(g, coll, x, y, s, j).0.len() == 2048,
        blit_from(g, coll, x, y, s, j).0[t] == if sprite_flips(x, y, s, j, t) {
            g[t] ^ 1
        } else {
            g[t]
        },
    decreases s.len() - j,
{
    if j < 0 || j >= s.len() {
    } else {
        vstd::arithmetic::div_mod::lemma_mod_division_less_than_divisor(y + j, 32);
        let row = (y + j) % 32;
        let step = blit_row_from(g, coll, x, row, s[j], 0);
        lemma_row_pixel(g, coll, x, row, s[j], 0, t);
        lemma_blit_pixel(step.0, step.1, x, y, s, j + 1, t);
        let a = g[t];
        assert((a ^ 1) ^ 1 == a) by (bit_vector);
    }
}

/// Drawing the same sprite twice at the same spot restores the frame
/// buffer: each pixel is toggled the same number of times by both passes,
/// and toggling twice is the identity.
pub proof fn lemma_draw_involution(g: Seq<u8>, x: int, y: int, s: Seq<u8>)
    requires
        g.len() == 2048,
        0 <= x,
        0 <= y,
    ensures
        spec_draw(spec_draw(g, x, y, s).0, x, y, s).0 == g,
{
    let g1 = spec_draw(g, x, y, s).0;
    let g2 = spec_draw(g1, x, y, s).0;
    lemma_blit_pixel(g, 0, x, y, s, 0, 0);
    lemma_blit_pixel(g1, 0, x, y, s, 0, 0);
    assert forall|t: int| 0 <= t < 2048 implies g2[t] == g[t] by {
        lemma_blit_pixel(g, 0, x, y, s, 0, t);
        lemma_blit_pixel(g1, 0, x, y, s, 0, t);
        let a = g[t];
        assert((a ^ 1) ^ 1 == a) by (bit_vector);
    }
    assert(g2 =~= g);
}

/// Where `(a + b)` lands modulo `m`, for an offset smaller than `m`.
proof fn lemma_wrap_offset(a: int, b: int, m: int)
    requires
        0 <= a,
        0 <= b < m,
    ensures
        (a + b) % m == if a % m + b < m {
            a % m + b
        } else {
            a % m + b - m
        },
{
    vstd::arithmetic::div_mod::lemma_add_mod_noop(a, b, m);
    vstd::arithmetic::div_mod::lemma_small_mod(b as nat, m as nat);
    vstd::arithmetic::div_mod::lemma_mod_division_less_than_divisor(a, m);
    if a % m + b < m {
        vstd::arithmetic::div_mod::lemma_small_mod((a % m + b) as nat, m as nat);
    } else {
        vstd::arithmetic::div_mod::lemma_mod_sub_multiples_vanish(a % m + b, m);
        vstd::arithmetic::div_mod::lemma_small_mod((a % m + b - m) as nat, m as nat);
    }
}

/// Distinct offsets below the modulus land on distinct wrapped positions.
proof fn lemma_wrap_distinct(a: int, b1: int, b2: int, m: int)
    requires
        0 <= a,
        0 <= b1 < m,
        0 <= b2 < m,
        b1 != b2,
    ensures
        (a + b1) % m != (a + b2) % m,
{
    lemma_wrap_offset(a, b1, m);
    lemma_wrap_offset(a, b2, m);
}

/// Whether some set bit of row byte `b` at positions `i..8` lands on a
/// pixel of `g` that is already 1.
pub open spec fn row_sees(g: Seq<u8>, x: int, row: int, b: u8, i: int) -> bool {
    exists|ii: int|
        i <= ii < 8 && #[trigger] sprite_bit(b, ii) && g[row_target(x, row, ii)] == 1
}

/// One sprite row reports a collision exactly when a set bit lands on an
/// already-lit pixel: within a row the eight targets are distinct columns,
/// so no earlier bit of the row can have toggled a later bit's target.
proof fn lemma_row_char(g: Seq<u8>, coll: u8, x: int, row: int, b: u8, i: int)
    requires
        0 <= x,
        0 <= row < 32,
        g.len() == 2048,
        0 <= i,
    ensures
        blit_row_from(g, coll, x, row, b, i).1 == if row_sees(g, x, row, b, i) {
            1u8
        } else {
            coll
        },
    decreases 8 - i,
{
    if i >= 8 {
        assert(!row_sees(g, x, row, b, i));
    } else {
        vstd::arithmetic::div_mod::lemma_mod_division_less_than_divisor(x + i, 64);
        let tt = row_target(x, row, i);
        if sprite_bit(b, i) {
            let g2 = g.update(tt, g[tt] ^ 1);
            let c2: u8 = if g[tt] == 1 {
                1u8
            } else {
                coll
            };
            lemma_row_char(g2, c2, x, row, b, i + 1);
            assert forall|ii: int| i + 1 <= ii < 8 implies g2[#[trigger] row_target(x, row, ii)]
                == g[row_target(x, row, ii)] by {
                lemma_wrap_distinct(x, i, ii, 64);
                vstd::arithmetic::div_mod::lemma_mod_division_less_than_divisor(x + ii, 64);
            }
            if row_sees(g2, x, row, b, i + 1) {
                let ii = choose|ii: int|
                    i + 1 <= ii < 8 && #[trigger] sprite_bit(b, ii) && g2[row_target(x, row, ii)]
                        == 1;
                assert(g[row_target(x, row, ii)] == 1);
                assert(row_sees(g, x, row, b, i));
            } else if g[tt] == 1 {
                assert(row_sees(g, x, row, b, i));
            } else {
                assert forall|ii: int|
                    i <= ii < 8 && #[trigger] sprite_bit(b, ii) implies g[row_target(x, row, ii)]
                    != 1 by {
                    if ii > i {
                        assert(g2[row_target(x, row, ii)] == g[row_target(x, row, ii)]);
                        assert(!row_sees(g2, x, row, b, i + 1));
                    }
                }
                assert(!row_sees(g, x, row, b, i));
            }
        } else {
            lemma_row_char(g, coll, x, row, b, i + 1);
            assert(row_sees(g, x, row, b, i) == row_sees(g, x, row, b, i + 1));
        }
    }
}

/// Whether some set bit of sprite rows `j..`, drawn at `(x, y)`, lands on a
/// pixel of `g` that is already 1.
pub open spec fn sees_from(g: Seq<u8>, x: int, y: int, s: Seq<u8>, j: int) -> bool {
    exists|jj: int| j <= jj < s.len() && #[trigger] row_sees(g, x, (y + jj) % 32, s[jj], 0)
}

/// A blit of at most 32 sprite rows reports a collision exactly when a set
/// bit lands on a pixel that was already 1 before the blit: the rows land
/// on distinct grid rows, so no earlier row can have toggled a later row's
/// targets.
proof fn lemma_blit_char(g: Seq<u8>, coll: u8, x: int, y: int, s: Seq<u8>, j: int)
    requires
        0 <= x,
        0 <= y,
        g.len() == 2048,
        s.len() <= 32,
        0 <= j,
    ensures
        blit_from(g, coll, x, y, s, j).1 == if sees_from(g, x, y, s, j) {
            1u8
        } else {
            coll
        },
    decreases s.len() - j,
{
    if j >= s.len() {
        assert(!sees_from(g, x, y, s, j));
    } else {
        vstd::arithmetic::div_mod::lemma_mod_division_less_than_divisor(y + j, 32);
        let row = (y + j) % 32;
        let step = blit_row_from(g, coll, x, row, s[j], 0);
        lemma_row_char(g, coll, x, row, s[j], 0);
        lemma_row_pixel(g, coll, x, row, s[j], 0, 0);
        lemma_blit_char(step.0, step.1, x, y, s, j + 1);
        assert forall|jj: int, ii: int| j + 1 <= jj < s.len() && 0 <= ii < 8 implies step.0[
            #[trigger] row_target(x, (y + jj) % 32, ii)] == g[row_target(x, (y + jj) % 32, ii)] by {
            lemma_wrap_distinct(y, j, jj, 32);
            vstd::arithmetic::div_mod::lemma_mod_division_less_than_divisor(y + jj, 32);
            vstd::arithmetic::div_mod::lemma_mod_division_less_than_divisor(x + ii, 64);
            let t = row_target(x, (y + jj) % 32, ii);
            lemma_row_pixel(g, coll, x, row, s[j], 0, t);
        }
        assert forall|jj: int| j + 1 <= jj < s.len() implies row_sees(
            step.0,
            x,
            (y + jj) % 32,
            s[jj],
            0,
        ) == row_sees(g, x, (y + jj) % 32, s[jj], 0) by {
            let rr = (y + jj) % 32;
            if row_sees(step.0, x, rr, s[jj], 0) {
                let ii = choose|ii: int|
                    0 <= ii < 8 && #[trigger] sprite_bit(s[jj], ii) && step.0[row_target(x, rr, ii)]
                        == 1;
                assert(g[row_target(x, rr, ii)] == 1);
                assert(row_sees(g, x, rr, s[jj], 0));
            }
            if row_sees(g, x, rr, s[jj], 0) {
                let ii = choose|ii: int|
                    0 <= ii < 8 && #[trigger] sprite_bit(s[jj], ii) && g[row_target(x, rr, ii)]
                        == 1;
                assert(step.0[row_target(x, rr, ii)] == 1);
                assert(row_sees(step.0, x, rr, s[jj], 0));
            }
        }
        assert(sees_from(step.0, x, y, s, j + 1) == sees_from(g, x, y, s, j + 1)) by {
            if sees_from(step.0, x, y, s, j + 1) {
                let jj = choose|jj: int|
                    j + 1 <= jj < s.len() && #[trigger] row_sees(step.0, x, (y + jj) % 32, s[jj], 0);
                assert(row_sees(g, x, (y + jj) % 32, s[jj], 0));
            }
            if sees_from(g, x, y, s, j + 1) {
                let jj = choose|jj: int|
                    j + 1 <= jj < s.len() && #[trigger] row_sees(g, x, (y + jj) % 32, s[jj], 0);
                assert(row_sees(step.0, x, (y + jj) % 32, s[jj], 0));
            }
        }
        assert(sees_from(g, x, y, s, j) == (row_sees(g, x, row, s[j], 0) || sees_from(
            g,
            x,
            y,
            s,
            j + 1,
        ))) by {
            if row_sees(g, x, row, s[j], 0) {
                assert(sees_from(g, x, y, s, j));
            }
            if sees_from(g, x, y, s, j + 1) {
                let jj = choose|jj: int|
                    j + 1 <= jj < s.len() && #[trigger] row_sees(g, x, (y + jj) % 32, s[jj], 0);
                assert(sees_from(g, x, y, s, j));
            }
            if sees_from(g, x, y, s, j) {
                let jj = choose|jj: int|
                    j <= jj < s.len() && #[trigger] row_sees(g, x, (y + jj) % 32, s[jj], 0);
                if jj > j {
                    assert(sees_from(g, x, y, s, j + 1));
                }
            }
        }
    }
}

/// Whether some set bit of `s`, drawn at `(x, y)`, lands on pixel `t`.
pub open spec fn hits(x: int, y: int, s: Seq<u8>, t: int) -> bool {
    exists|j: int, i: int|
        0 <= j < s.len() && 0 <= i < 8 && #[trigger] sprite_bit(s[j], i) && t == row_target(
            x,
            (y + j) % 32,
            i,
        )
}

/// Within one row, toggling parity is plain existence: the eight bits land
/// on eight distinct columns.
proof fn lemma_row_flips_iff(x: int, row: int, b: u8, i: int, t: int)
    requires
        0 <= x,
        0 <= row < 32,
        0 <= i,
    ensures
        row_flips(x, row, b, i, t) == exists|ii: int|
            i <= ii < 8 && #[trigger] sprite_bit(b, ii) && t == row_target(x, row, ii),
    decreases 8 - i,
{
    if i >= 8 {
    } else {
        lemma_row_flips_iff(x, row, b, i + 1, t);
        if sprite_bit(b, i) && t == row_target(x, row, i) {
            assert forall|ii: int|
                i + 1 <= ii < 8 && #[trigger] sprite_bit(b, ii) implies t != row_target(
                x,
                row,
                ii,
            ) by {
                lemma_wrap_distinct(x, i, ii, 64);
            }
            assert(!row_flips(x, row, b, i + 1, t));
            assert(row_flips(x, row, b, i, t));
        } else {
            assert(row_flips(x, row, b, i, t) == row_flips(x, row, b, i + 1, t));
            assert((exists|ii: int|
                i <= ii < 8 && #[trigger] sprite_bit(b, ii) && t == row_target(x, row, ii))
                == (exists|ii: int|
                i + 1 <= ii < 8 && #[trigger] sprite_bit(b, ii) && t == row_target(x, row, ii)))
                by {
                if exists|ii: int|
                    i <= ii < 8 && #[trigger] sprite_bit(b, ii) && t == row_target(x, row, ii) {
                    let ii = choose|ii: int|
                        i <= ii < 8 && #[trigger] sprite_bit(b, ii) && t == row_target(x, row, ii);
                    assert(ii >= i + 1);
                }
            }
        }
    }
}

/// Row targets of one grid row stay inside that row's band of the flat
/// grid, so rows landing on distinct grid rows touch disjoint pixels.
proof fn lemma_target_band(x: int, row: int, i: int)
    requires
        0 <= x,
        0 <= row,
        0 <= i,
    ensures
        row * 64 <= row_target(x, row, i) < row * 64 + 64,
{
    vstd::arithmetic::div_mod::lemma_mod_division_less_than_divisor(x + i, 64);
}

/// Across at most 32 sprite rows, toggling parity is plain existence: the
/// rows land on distinct grid rows.
proof fn lemma_sprite_flips_iff(x: int, y: int, s: Seq<u8>, j: int, t: int)
    requires
        0 <= x,
        0 <= y,
        0 <= j,
        s.len() <= 32,
    ensures
        sprite_flips(x, y, s, j, t) == exists|jj: int, ii: int|
            j <= jj < s.len() && 0 <= ii < 8 && #[trigger] sprite_bit(s[jj], ii) && t == row_target(
                x,
                (y + jj) % 32,
                ii,
            ),
    decreases s.len() - j,
{
    if j >= s.len() {
    } else {
        let row = (y + j) % 32;
        vstd::arithmetic::div_mod::lemma_mod_division_less_than_divisor(y + j, 32);
        lemma_sprite_flips_iff(x, y, s, j + 1, t);
        lemma_row_flips_iff(x, row, s[j], 0, t);
        if row_flips(x, row, s[j], 0, t) {
            let i0 = choose|ii: int|
                0 <= ii < 8 && #[trigger] sprite_bit(s[j], ii) && t == row_target(x, row, ii);
            lemma_target_band(x, row, i0);
            assert forall|jj: int, ii: int|
                j + 1 <= jj < s.len() && 0 <= ii < 8 && #[trigger] sprite_bit(
                    s[jj],
                    ii,
                ) implies t != row_target(x, (y + jj) % 32, ii) by {
                lemma_wrap_distinct(y, j, jj, 32);
                vstd::arithmetic::div_mod::lemma_mod_division_less_than_divisor(y + jj, 32);
                lemma_target_band(x, (y + jj) % 32, ii);
            }
            assert(!sprite_flips(x, y, s, j + 1, t));
            assert(sprite_flips(x, y, s, j, t));
            assert(exists|jj: int, ii: int|
                j <= jj < s.len() && 0 <= ii < 8 && #[trigger] sprite_bit(s[jj], ii) && t
                    == row_target(x, (y + jj) % 32, ii));
        } else {
            assert(sprite_flips(x, y, s, j, t) == sprite_flips(x, y, s, j + 1, t));
            assert((exists|jj: int, ii: int|
                j <= jj < s.len() && 0 <= ii < 8 && #[trigger] sprite_bit(s[jj], ii) && t
                    == row_target(x, (y + jj) % 32, ii)) == (exists|jj: int, ii: int|
                j + 1 <= jj < s.len() && 0 <= ii < 8 && #[trigger] sprite_bit(s[jj], ii) && t
                    == row_target(x, (y + jj) % 32, ii))) by {
                if exists|jj: int, ii: int|
                    j <= jj < s.len() && 0 <= ii < 8 && #[trigger] sprite_bit(s[jj], ii) && t
                        == row_target(x, (y + jj) % 32, ii) {
                    let (jj, ii) = choose|jj: int, ii: int|
                        j <= jj < s.len() && 0 <= ii < 8 && #[trigger] sprite_bit(s[jj], ii) && t
                            == row_target(x, (y + jj) % 32, ii);
                    if jj == j {
                        assert(row_flips(x, row, s[j], 0, t));
                    }
                    assert(jj >= j + 1);
                }
            }
        }
    }
}

/// The exact effect of a blit of at most 32 sprite rows (a hardware sprite
/// has at most 15): each pixel that some set bit lands on, at its toroidally
/// wrapped position, is toggled, every other pixel is untouched, and the
/// collision flag reports whether any set bit landed on a pixel that was
/// already 1 before the draw.
pub proof fn lemma_draw_pixels(g: Seq<u8>, x: int, y: int, s: Seq<u8>)
    requires
        g.len() == 2048,
        0 <= x,
        0 <= y,
        s.len() <= 32,
    ensures
        spec_draw(g, x, y, s).0.len() == 2048,
        forall|t: int|
            0 <= t < 2048 ==> spec_draw(g, x, y, s).0[t] == if hits(x, y, s, t) {
                g[t] ^ 1
            } else {
                g[t]
            },
        spec_draw(g, x, y, s).1 == if exists|t: int|
            0 <= t < 2048 && #[trigger] hits(x, y, s, t) && g[t] == 1 {
            1u8
        } else {
            0u8
        },
{
    lemma_blit_pixel(g, 0, x, y, s, 0, 0);
    assert forall|t: int| 0 <= t < 2048 implies spec_draw(g, x, y, s).0[t] == (if hits(
        x,
        y,
        s,
        t,
    ) {
        g[t] ^ 1
    } else {
        g[t]
    }) by {
        lemma_blit_pixel(g, 0, x, y, s, 0, t);
        lemma_sprite_flips_iff(x, y, s, 0, t);
    }
    lemma_blit_char(g, 0, x, y, s, 0);
    if sees_from(g, x, y, s, 0) {
        let jj = choose|jj: int|
            0 <= jj < s.len() && #[trigger] row_sees(g, x, (y + jj) % 32, s[jj], 0);
        let rr = (y + jj) % 32;
        let ii = choose|ii: int|
            0 <= ii < 8 && #[trigger] sprite_bit(s[jj], ii) && g[row_target(x, rr, ii)] == 1;
        let t = row_target(x, rr, ii);
        vstd::arithmetic::div_mod::lemma_mod_division_less_than_divisor(y + jj, 32);
        lemma_target_band(x, rr, ii);
        assert(hits(x, y, s, t));
        assert(0 <= t < 2048 && hits(x, y, s, t) && g[t] == 1);
    }
    if exists|t: int| 0 <= t < 2048 && #[trigger] hits(x, y, s, t) && g[t] == 1 {
        let t = choose|t: int| 0 <= t < 2048 && #[trigger] hits(x, y, s, t) && g[t] == 1;
        let (jj, ii) = choose|jj: int, ii: int|
            0 <= jj < s.len() && 0 <= ii < 8 && #[trigger] sprite_bit(s[jj], ii) && t == row_target(
                x,
                (y + jj) % 32,
                ii,
            );
        assert(row_sees(g, x, (y + jj) % 32, s[jj], 0));
        assert(sees_from(g, x, y, s, 0));
    }
}

/// Drawing a sprite that reported no collision, then drawing it again
/// unchanged, reports a collision on the second draw, provided the sprite
/// has at least one set bit: the first draw lit every pixel the sprite
/// lands on.
pub proof fn lemma_redraw_collides(g: Seq<u8>, x: int, y: int, s: Seq<u8>)
    requires
        g.len() == 2048,
        forall|t: int| 0 <= t < 2048 ==> g[t] <= 1,
        0 <= x,
        0 <= y,
        s.len() <= 32,
        spec_draw(g, x, y, s).1 == 0,
        exists|j: int, i: int|
            0 <= j < s.len() && 0 <= i < 8 && #[trigger] sprite_bit(s[j], i),
    ensures
        spec_draw(spec_draw(g, x, y, s).0, x, y, s).1 == 1,
{
    let g1 = spec_draw(g, x, y, s).0;
    lemma_draw_pixels(g, x, y, s);
    lemma_draw_pixels(g1, x, y, s);
    let (j, i) = choose|j: int, i: int|
        0 <= j < s.len() && 0 <= i < 8 && #[trigger] sprite_bit(s[j], i);
    vstd::arithmetic::div_mod::lemma_mod_division_less_than_divisor(y + j, 32);
    let rr = (y + j) % 32;
    lemma_target_band(x, rr, i);
    let t = row_target(x, rr, i);
    assert(hits(x, y, s, t));
    assert(g[t] != 1);
    assert(g[t] == 0);
    assert(0u8 ^ 1 == 1) by (bit_vector);
    assert(g1[t] == 1);
    assert(0 <= t < 2048 && hits(x, y, s, t) && g1[t] == 1);
}

/// A fresh all-zero 64 by 32 pixel grid.
fn zero_grid() -> (r: Vec<u8>)
    ensures
        r@.len() == 2048,
        forall|t: int| 0 <= t < 2048 ==> r@[t] == 0,
{
    let mut g: Vec<u8> = Vec::new();
    let mut t: usize = 0;
    while t < 2048
        invariant
            t <= 2048,
            g@.len() == t,
            forall|k: int| 0 <= k < t ==> g@[k] == 0,
        decreases 2048 - t,
    {
        g.push(0);
        t = t + 1;
    }
    g
}

} // verus!
