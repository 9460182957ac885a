//! The 64x32 monochrome framebuffer.
//!
//! Pixels live in a packed bit-grid (bitvec's `BitArray`, one bit per pixel,
//! row-major, most-significant bit first within each byte). The grid itself
//! sits behind three trusted wrappers that expose it as a sequence of 2048
//! booleans; the XOR-blit with its collision rule — the part with real logic —
//! is verified on top of them.

use vstd::prelude::*;

verus! {

/// Pixels per row.
pub const DISPLAY_WIDTH: usize = 64;

/// Rows on the screen.
pub const DISPLAY_HEIGHT: usize = 32;

/// Bits on the whole screen.
pub const DISPLAY_BITS: usize = 64 * 32;

/// The packed pixel store: 2048 bits in 256 bytes, most-significant bit first
/// within each byte. The wrapped bitvec array is opaque to the verifier; the
/// wrappers below say what it holds in terms of [`grid_bits`].
#[verifier::external_body]
pub struct PixelGrid {
    bits: bitvec::array::BitArray<[u8; 256], bitvec::order::Msb0>,
}

/// What a pixel grid holds, one boolean per pixel in bit order.
pub uninterp spec fn grid_bits(a: PixelGrid) -> Seq<bool>;

/// Relies on bitvec's `BitArray::ZERO`: a grid with every one of its 2048
/// bits clear.
#[verifier::external_body]
fn grid_zero() -> (r: PixelGrid)
    ensures
        grid_bits(r) == Seq::new(DISPLAY_BITS as nat, |i: int| false),
{
    PixelGrid { bits: bitvec::array::BitArray::ZERO }
}

/// Relies on bitvec's `BitSlice` indexing: the value of bit `i`.
#[verifier::external_body]
fn grid_get(a: &PixelGrid, i: usize) -> (r: bool)
    requires
        i < grid_bits(*a).len(),
    ensures
        r == grid_bits(*a)[i as int],
{
    a.bits[i]
}

/// Relies on bitvec's `BitSlice::set`: writes bit `i`, leaves every other bit.
#[verifier::external_body]
fn grid_set(a: &mut PixelGrid, i: usize, b: bool)
    requires
        i < grid_bits(*old(a)).len(),
    ensures
        grid_bits(*final(a)) == grid_bits(*old(a)).update(i as int, b),
{
    a.bits.set(i, b);
}

/// Row-major position of the pixel that coordinate pair (`x`, `y`) lands on;
/// both coordinates wrap around the screen edges.
pub open spec fn pix_index(x: int, y: int) -> int {
    (y % (DISPLAY_HEIGHT as int)) * (DISPLAY_WIDTH as int) + (x % (DISPLAY_WIDTH as int))
}

/// Bit `k` of sprite row byte `b`, most significant first.
pub open spec fn sprite_bit(b: u8, k: int) -> bool {
    (b >> ((7 - k) as u8)) & 1 == 1
}

/// The grid and the collision flag after the first `t` sprite pixels have
/// been XOR-blitted at (`x`, `y`). Pixels go row-major, eight per sprite
/// byte; a collision is a pixel that a set source bit turned from set to
/// unset.
pub open spec fn spec_draw_upto(g: Seq<bool>, x: int, y: int, s: Seq<u8>, t: nat) -> (Seq<
    bool,
>, bool)
    decreases t,
{
    if t == 0 {
        (g, false)
    } else {
        let prev = spec_draw_upto(g, x, y, s, (t - 1) as nat);
        let row = ((t - 1) as int) / 8;
        let col = ((t - 1) as int) % 8;
        let idx = pix_index(x + col, y + row);
        let src = sprite_bit(s[row], col);
        (prev.0.update(idx, prev.0[idx] != src), prev.1 || (prev.0[idx] && src))
    }
}

/// The grid and the collision flag after blitting the whole sprite `s` at
/// (`x`, `y`).
pub open spec fn spec_draw(g: Seq<bool>, x: int, y: int, s: Seq<u8>) -> (Seq<bool>, bool) {
    spec_draw_upto(g, x, y, s, (s.len() * 8) as nat)
}

/// The pixel that sprite pixel `u` (row-major, eight per sprite byte) lands
/// on when the sprite is drawn at (`x`, `y`).
pub open spec fn target(x: int, y: int, u: int) -> int {
    pix_index(x + u % 8, y + u / 8)
}

/// Every sprite pixel lands on the screen.
pub proof fn lemma_target_range(x: int, y: int, u: int)
    ensures
        0 <= target(x, y, u) < DISPLAY_BITS,
{
    assert(0 <= (y + u / 8) % 32 < 32);
    assert(0 <= (x + u % 8) % 64 < 64);
}

/// In a sprite of at most 32 rows, no two sprite pixels land on the same
/// screen pixel: the eight columns stay within one wrap of the width and the
/// rows within one wrap of the height.
pub proof fn lemma_target_injective(x: int, y: int, len: int, u1: int, u2: int)
    requires
        0 <= u1 < 8 * len,
        0 <= u2 < 8 * len,
        len <= 32,
        u1 != u2,
    ensures
        target(x, y, u1) != target(x, y, u2),
{
    let r1 = u1 / 8;
    let c1 = u1 % 8;
    let r2 = u2 / 8;
    let c2 = u2 % 8;
    assert(0 <= c1 < 8 && 0 <= c2 < 8);
    assert(0 <= r1 < len && 0 <= r2 < len) by (nonlinear_arith)
        requires
            0 <= u1 < 8 * len,
            0 <= u2 < 8 * len,
            r1 == u1 / 8,
            r2 == u2 / 8,
    ;
    assert(u1 == 8 * r1 + c1 && u2 == 8 * r2 + c2);
    if target(x, y, u1) == target(x, y, u2) {
        let a1 = (y + r1) % 32;
        let b1 = (x + c1) % 64;
        let a2 = (y + r2) % 32;
        let b2 = (x + c2) % 64;
        assert(0 <= a1 < 32 && 0 <= a2 < 32 && 0 <= b1 < 64 && 0 <= b2 < 64);
        assert(a1 == a2 && b1 == b2) by (nonlinear_arith)
            requires
                a1 * 64 + b1 == a2 * 64 + b2,
                0 <= a1 < 32 && 0 <= a2 < 32 && 0 <= b1 < 64 && 0 <= b2 < 64,
        ;
        assert(r1 == r2) by (nonlinear_arith)
            requires
                (y + r1) % 32 == (y + r2) % 32,
                0 <= r1 < 32,
                0 <= r2 < 32,
        ;
        assert(c1 == c2) by (nonlinear_arith)
            requires
                (x + c1) % 64 == (x + c2) % 64,
                0 <= c1 < 8,
                0 <= c2 < 8,
        ;
        assert(false);
    }
}

/// Every bit of an all-set sprite byte is set.
proof fn lemma_sprite_bit_all_set(k: int)
    requires
        0 <= k < 8,
    ensures
        sprite_bit(0xFF, k),
{
    let sh = (7 - k) as u8;
    assert((0xFFu8 >> sh) & 1 == 1) by (bit_vector)
        requires
            sh < 8,
    ;
}

/// Blitting an all-set sprite over pixels that all start dark reports no
/// collision and lights exactly the pixels it covers.
pub proof fn lemma_draw_clear_upto(g: Seq<bool>, x: int, y: int, s: Seq<u8>, t: nat)
    requires
        g.len() == DISPLAY_BITS,
        s.len() <= 32,
        t <= 8 * s.len(),
        forall|r: int| 0 <= r < s.len() ==> s[r] == 0xFF,
        forall|u: int| 0 <= u < 8 * s.len() ==> !g[target(x, y, u)],
    ensures
        spec_draw_upto(g, x, y, s, t).0.len() == DISPLAY_BITS,
        spec_draw_upto(g, x, y, s, t).1 == false,
        forall|j: int|
            0 <= j < DISPLAY_BITS ==> spec_draw_upto(g, x, y, s, t).0[j] == (g[j] || exists|u: int|
                0 <= u < t && target(x, y, u) == j),
    decreases t,
{
    if t == 0 {
        assert forall|j: int| 0 <= j < DISPLAY_BITS implies spec_draw_upto(g, x, y, s, t).0[j] == (
        g[j] || exists|u: int| 0 <= u < t && target(x, y, u) == j) by {
            assert(!(exists|u: int| 0 <= u < t && target(x, y, u) == j));
        }
    } else {
        lemma_draw_clear_upto(g, x, y, s, (t - 1) as nat);
        let prev = spec_draw_upto(g, x, y, s, (t - 1) as nat);
        let here = spec_draw_upto(g, x, y, s, t);
        let row = ((t - 1) as int) / 8;
        let col = ((t - 1) as int) % 8;
        let idx = pix_index(x + col, y + row);
        assert(idx == target(x, y, t - 1));
        lemma_target_range(x, y, t - 1);
        lemma_sprite_bit_all_set(col);
        assert(sprite_bit(s[row], col));
        assert forall|u: int| 0 <= u < t - 1 implies target(x, y, u) != idx by {
            lemma_target_injective(x, y, s.len() as int, u, t - 1);
        }
        assert(!g[idx]);
        assert(!prev.0[idx]);
        assert(here.1 == false);
        assert forall|j: int| 0 <= j < DISPLAY_BITS implies here.0[j] == (g[j] || exists|u: int|
            0 <= u < t && target(x, y, u) == j) by {
            if j == idx {
                assert(here.0[j] == true);
                assert(0 <= t - 1 < t && target(x, y, t - 1) == j);
            } else {
                assert(here.0[j] == prev.0[j]);
                if exists|u: int| 0 <= u < t && target(x, y, u) == j {
                    let u = choose|u: int| 0 <= u < t && target(x, y, u) == j;
                    assert(u != t - 1);
                    assert(0 <= u < t - 1 && target(x, y, u) == j);
                }
            }
        }
    }
}

/// Blitting an all-set sprite over pixels that all start lit reports a
/// collision — every covered pixel goes from set to unset — and darkens
/// exactly the pixels it covers.
pub proof fn lemma_draw_set_upto(g: Seq<bool>, x: int, y: int, s: Seq<u8>, t: nat)
    requires
        g.len() == DISPLAY_BITS,
        s.len() <= 32,
        t <= 8 * s.len(),
        forall|r: int| 0 <= r < s.len() ==> s[r] == 0xFF,
        forall|u: int| 0 <= u < 8 * s.len() ==> g[target(x, y, u)] == true,
    ensures
        spec_draw_upto(g, x, y, s, t).0.len() == DISPLAY_BITS,
        t >= 1 ==> spec_draw_upto(g, x, y, s, t).1 == true,
        forall|j: int|
            0 <= j < DISPLAY_BITS ==> spec_draw_upto(g, x, y, s, t).0[j] == (g[j] && !(exists|u: int|
                0 <= u < t && target(x, y, u) == j)),
    decreases t,
{
    if t == 0 {
        assert forall|j: int| 0 <= j < DISPLAY_BITS implies spec_draw_upto(g, x, y, s, t).0[j] == (
        g[j] && !(exists|u: int| 0 <= u < t && target(x, y, u) == j)) by {
            assert(!(exists|u: int| 0 <= u < t && target(x, y, u) == j));
        }
    } else {
        lemma_draw_set_upto(g, x, y, s, (t - 1) as nat);
        let prev = spec_draw_upto(g, x, y, s, (t - 1) as nat);
        let here = spec_draw_upto(g, x, y, s, t);
        let row = ((t - 1) as int) / 8;
        let col = ((t - 1) as int) % 8;
        let idx = pix_index(x + col, y + row);
        assert(idx == target(x, y, t - 1));
        lemma_target_range(x, y, t - 1);
        lemma_sprite_bit_all_set(col);
        assert(sprite_bit(s[row], col));
        assert forall|u: int| 0 <= u < t - 1 implies target(x, y, u) != idx by {
            lemma_target_injective(x, y, s.len() as int, u, t - 1);
        }
        assert(g[idx]);
        assert(prev.0[idx] == true);
        assert(here.1 == true);
        assert forall|j: int| 0 <= j < DISPLAY_BITS implies here.0[j] == (g[j] && !(exists|u: int|
            0 <= u < t && target(x, y, u) == j)) by {
            if j == idx {
                assert(here.0[j] == false);
                assert(0 <= t - 1 < t && target(x, y, t - 1) == j);
            } else {
                assert(here.0[j] == prev.0[j]);
                if exists|u: int| 0 <= u < t && target(x, y, u) == j {
                    let u = choose|u: int| 0 <= u < t && target(x, y, u) == j;
                    assert(u != t - 1);
                    assert(0 <= u < t - 1 && target(x, y, u) == j);
                }
            }
        }
    }
}

/// Drawing an all-set sprite of up to 32 rows over a clear landing area
/// reports no collision — the covered pixels merely light up — and drawing
/// the same sprite at the same spot again reports a collision, because the
/// first draw's pixels are now unset by the XOR. With more than 32 rows the
/// sprite wraps onto itself and the premise cannot hold.
pub proof fn lemma_draw_twice_collision(g: Seq<bool>, x: int, y: int, s: Seq<u8>)
    requires
        g.len() == DISPLAY_BITS,
        1 <= s.len() <= 32,
        forall|r: int| 0 <= r < s.len() ==> s[r] == 0xFF,
        forall|u: int| 0 <= u < 8 * s.len() ==> !g[target(x, y, u)],
    ensures
        spec_draw(g, x, y, s).1 == false,
        spec_draw(spec_draw(g, x, y, s).0, x, y, s).1 == true,
{
    lemma_draw_clear_upto(g, x, y, s, (8 * s.len()) as nat);
    let g1 = spec_draw(g, x, y, s).0;
    assert forall|u: int| 0 <= u < 8 * s.len() implies g1[target(x, y, u)] == true by {
        lemma_target_range(x, y, u);
        assert(0 <= u < 8 * s.len() && target(x, y, u) == target(x, y, u));
    }
    lemma_draw_set_upto(g1, x, y, s, (8 * s.len()) as nat);
}

/// Wrapping around the right edge: a sprite column drawn at the last screen
/// column lands `col - 1` pixels into column 0 of the same wrapped row.
pub proof fn lemma_wraparound_column(y: int, col: int)
    requires
        0 <= y,
        1 <= col < 8,
    ensures
        pix_index(63 + col, y) == (y % 32) * 64 + (col - 1),
{
    assert((63 + col) % 64 == col - 1) by (nonlinear_arith)
        requires
            1 <= col < 8,
    ;
}

/// Wrapping is exact: moving a whole screen width right or a whole screen
/// height down lands on the same pixel.
pub proof fn lemma_wraparound_period(x: int, y: int)
    ensures
        pix_index(x + 64, y) == pix_index(x, y),
        pix_index(x, y + 32) == pix_index(x, y),
{
    assert((x + 64) % 64 == x % 64) by (nonlinear_arith);
    assert((y + 32) % 32 == y % 32) by (nonlinear_arith);
}

/// The monochrome framebuffer.
pub struct ChipDisplay {
    grid: PixelGrid,
}

impl View for ChipDisplay {
    type V = Seq<bool>;

    closed spec fn view(&self) -> Seq<bool> {
        grid_bits(self.grid)
    }
}

impl ChipDisplay {
    /// The one shape the screen ever has: exactly 2048 pixels.
    pub open spec fn wf(&self) -> bool {
        self@.len() == DISPLAY_BITS
    }

    /// A fresh screen, every pixel off.
    pub fn new() -> (r: Self)
        ensures
            r.wf(),
            r@ == Seq::new(DISPLAY_BITS as nat, |i: int| false),
    {
        ChipDisplay { grid: grid_zero() }
    }

    /// Switches every pixel off.
    pub fn clear(&mut self)
        ensures
            final(self).wf(),
            final(self)@ == Seq::new(DISPLAY_BITS as nat, |i: int| false),
    {
        self.grid = grid_zero();
    }

    /// The state of pixel `i` in row-major order.
    pub fn pixel(&self, i: usize) -> (r: bool)
        requires
            self.wf(),
            i < DISPLAY_BITS,
        ensures
            r == self@[i as int],
    {
        grid_get(&self.grid, i)
    }

    /// Every pixel's state, row-major, for the host to render.
    pub fn pixels(&self) -> (r: Vec<bool>)
        requires
            self.wf(),
        ensures
            r@ == self@,
    {
        let mut v: Vec<bool> = Vec::new();
        let mut i: usize = 0;
        while i < DISPLAY_BITS
            invariant
                self.wf(),
                i <= DISPLAY_BITS,
                v@.len() == i,
                forall|k: int| 0 <= k < i ==> v@[k] == self@[k],
            decreases DISPLAY_BITS - i,
        {
            v.push(grid_get(&self.grid, i));
            i += 1;
        }
        proof {
            assert(v@ =~= self@);
        }
        v
    }

    /// XOR-blits the sprite rows in `sprite` at the coordinate pair `coords`,
    /// wrapping around both screen edges, and reports whether any previously
    /// set pixel went dark.
    pub fn draw_sprite(&mut self, coords: (u8, u8), sprite: &[u8]) -> (collision: bool)
        requires
            old(self).wf(),
            sprite@.len() <= usize::MAX - 255,
        ensures
            final(self).wf(),
            final(self)@ == spec_draw(old(self)@, coords.0 as int, coords.1 as int, sprite@).0,
            collision == spec_draw(old(self)@, coords.0 as int, coords.1 as int, sprite@).1,
    {
        let x = coords.0 as usize;
        let y = coords.1 as usize;
        let n = sprite.len();
        let ghost g0 = self@;
        let ghost gx = x as int;
        let ghost gy = y as int;
        let mut collision = false;
        let mut row: usize = 0;
        while row < n
            invariant
                self.wf(),
                row <= n == sprite@.len(),
                n <= usize::MAX - 255,
                gx == x as int && gy == y as int,
                x == coords.0 as int && y == coords.1 as int,
                g0 == old(self)@,
                self@ == spec_draw_upto(g0, gx, gy, sprite@, (row * 8) as nat).0,
                collision == spec_draw_upto(g0, gx, gy, sprite@, (row * 8) as nat).1,
            decreases n - row,
        {
            let b = sprite[row];
            let mut col: usize = 0;
            while col < 8
                invariant
                    self.wf(),
                    col <= 8,
                    row < n == sprite@.len(),
                    n <= usize::MAX - 255,
                    gx == x as int && gy == y as int,
                    x == coords.0 as int && y == coords.1 as int,
                    g0 == old(self)@,
                    b == sprite@[row as int],
                    self@ == spec_draw_upto(g0, gx, gy, sprite@, (row * 8 + col) as nat).0,
                    collision == spec_draw_upto(g0, gx, gy, sprite@, (row * 8 + col) as nat).1,
                decreases 8 - col,
            {
                let idx = ((y + row) % DISPLAY_HEIGHT) * DISPLAY_WIDTH + ((x + col) % DISPLAY_WIDTH);
                let cur = grid_get(&self.grid, idx);
                let src = ((b >> ((7 - col) as u8)) & 1) == 1;
                grid_set(&mut self.grid, idx, cur != src);
                if cur && src {
                    collision = true;
                }
                proof {
                    let t: nat = (row * 8 + col + 1) as nat;
                    assert((t - 1) as int / 8 == row && (t - 1) as int % 8 == col) by (nonlinear_arith)
                        requires
                            t == row * 8 + col + 1,
                            0 <= col < 8,
                            0 <= row,
                    ;
                    assert(((gy + row) % (DISPLAY_HEIGHT as int)) * (DISPLAY_WIDTH as int)
                        + ((gx + col) % (DISPLAY_WIDTH as int)) == idx);
                    assert(idx == pix_index(gx + col, gy + row));
                    assert(src == sprite_bit(sprite@[row as int], col as int));
                }
                col += 1;
            }
            row += 1;
        }
        proof {
            assert(row * 8 == sprite@.len() * 8);
        }
        collision
    }
}

} // verus!
