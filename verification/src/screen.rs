//! The framebuffer and the drawing of sprites on it.

use vstd::prelude::*;

verus! {

/// A framebuffer with every pixel off.
pub open spec fn blank_screen() -> Seq<Seq<bool>> {
    Seq::new(64, |x: int| Seq::new(32, |y: int| false))
}

/// Whether `screen` has 64 columns of 32 pixels.
pub open spec fn screen_wf(screen: Seq<Seq<bool>>) -> bool {
    &&& screen.len() == 64
    &&& forall|x: int| 0 <= x < 64 ==> (#[trigger] screen[x]).len() == 32
}

/// Bit `dx` of a sprite row, counted from the most significant bit.
pub open spec fn sprite_bit(row: u8, dx: u8) -> bool {
    (row >> ((7 - dx) as u8)) & 1 == 1
}

/// Whether a sprite drawn with its top left corner at `(x0, y0)` lights the
/// pixel `(px, py)`. Columns wrap around modulo 64 and rows modulo 32.
pub open spec fn sprite_covers(sprite: Seq<u8>, x0: int, y0: int, px: int, py: int) -> bool {
    let dx = (px - x0) % 64;
    let dy = (py - y0) % 32;
    dx < 8 && dy < sprite.len() && sprite_bit(sprite[dy], dx as u8)
}

/// Whether the sprite lights the pixel `(px, py)` and that pixel is on.
pub open spec fn sprite_hits(
    screen: Seq<Seq<bool>>,
    sprite: Seq<u8>,
    x0: int,
    y0: int,
    px: int,
    py: int,
) -> bool {
    screen[px][py] && sprite_covers(sprite, x0, y0, px, py)
}

/// The framebuffer after the sprite has been XOR-ed onto it at `(x0, y0)`.
pub open spec fn draw_sprite(screen: Seq<Seq<bool>>, sprite: Seq<u8>, x0: int, y0: int) -> Seq<
    Seq<bool>,
> {
    Seq::new(
        64,
        |px: int|
            Seq::new(32, |py: int| screen[px][py] != sprite_covers(sprite, x0, y0, px, py)),
    )
}

/// Whether drawing the sprite at `(x0, y0)` turns off a pixel that was on.
pub open spec fn sprite_collides(screen: Seq<Seq<bool>>, sprite: Seq<u8>, x0: int, y0: int) -> bool {
    exists|px: int, py: int|
        0 <= px < 64 && 0 <= py < 32 && #[trigger] sprite_hits(screen, sprite, x0, y0, px, py)
}

/// Whether the pixel `(px, py)` lies in the part of the sprite that has been
/// drawn when the rows above `row` and the bits before `col` of `row` are done.
#[verifier::opaque]
spec fn drawn(x0: int, y0: int, row: int, col: int, px: int, py: int) -> bool {
    let dx = (px - x0) % 64;
    let dy = (py - y0) % 32;
    dy < row || (dy == row && dx < col)
}

/// `now` is `before` with the drawn part of the sprite XOR-ed onto it.
pub(crate) closed spec fn painted(
    now: Seq<Seq<bool>>,
    before: Seq<Seq<bool>>,
    sprite: Seq<u8>,
    x0: int,
    y0: int,
    row: int,
    col: int,
) -> bool {
    &&& screen_wf(now)
    &&& forall|px: int, py: int|
        0 <= px < 64 && 0 <= py < 32 ==> #[trigger] now[px][py] == (before[px][py] != (
        sprite_covers(sprite, x0, y0, px, py) && drawn(x0, y0, row, col, px, py)))
}

/// Whether the drawn part of the sprite has met a pixel that was on.
pub(crate) closed spec fn collided_so_far(
    before: Seq<Seq<bool>>,
    sprite: Seq<u8>,
    x0: int,
    y0: int,
    row: int,
    col: int,
) -> bool {
    exists|px: int, py: int|
        0 <= px < 64 && 0 <= py < 32 && #[trigger] sprite_hits(before, sprite, x0, y0, px, py)
            && drawn(x0, y0, row, col, px, py)
}

/// Before the first bit nothing is drawn.
pub(crate) proof fn lemma_draw_start(screen: Seq<Seq<bool>>, sprite: Seq<u8>, x0: int, y0: int)
    requires
        screen_wf(screen),
    ensures
        painted(screen, screen, sprite, x0, y0, 0, 0),
        !collided_so_far(screen, sprite, x0, y0, 0, 0),
{
    reveal(drawn);
}

/// The remainder of a number that is less than one modulus away from the
/// range of remainders.
proof fn lemma_wrap(a: int, m: int)
    requires
        m == 64 || m == 32,
        -m <= a < 2 * m,
    ensures
        a % m == if a < 0 {
            a + m
        } else if a >= m {
            a - m
        } else {
            a
        },
{
}

/// Bit `col` of row `row` stands for exactly one pixel, and drawing it adds
/// that pixel to the drawn part.
proof fn lemma_drawn_next(x0: int, y0: int, row: int, col: int, px: int, py: int)
    requires
        0 <= x0 < 64,
        0 <= y0 < 32,
        0 <= row < 32,
        0 <= col < 8,
        0 <= px < 64,
        0 <= py < 32,
    ensures
        drawn(x0, y0, row, col + 1, px, py) == (drawn(x0, y0, row, col, px, py) || (px == (x0
            + col) % 64 && py == (y0 + row) % 32)),
        px == (x0 + col) % 64 && py == (y0 + row) % 32 ==> !drawn(x0, y0, row, col, px, py) && (px
            - x0) % 64 == col && (py - y0) % 32 == row,
{
    reveal(drawn);
    lemma_wrap(px - x0, 64);
    lemma_wrap(py - y0, 32);
    lemma_wrap(x0 + col, 64);
    lemma_wrap(y0 + row, 32);
}

/// One more bit of the sprite: the pixel it stands for is flipped if the bit
/// is set, and a collision is noted if that pixel was on.
pub(crate) proof fn lemma_draw_step(
    now: Seq<Seq<bool>>,
    next: Seq<Seq<bool>>,
    before: Seq<Seq<bool>>,
    sprite: Seq<u8>,
    x0: int,
    y0: int,
    row: int,
    col: int,
    bit: bool,
)
    requires
        0 <= x0 < 64,
        0 <= y0 < 32,
        0 <= row < sprite.len() <= 32,
        0 <= col < 8,
        screen_wf(before),
        painted(now, before, sprite, x0, y0, row, col),
        bit == sprite_bit(sprite[row], col as u8),
        screen_wf(next),
        forall|px: int, py: int|
            0 <= px < 64 && 0 <= py < 32 ==> #[trigger] next[px][py] == (if px == (x0 + col) % 64
                && py == (y0 + row) % 32 && bit {
                !now[px][py]
            } else {
                now[px][py]
            }),
    ensures
        painted(next, before, sprite, x0, y0, row, col + 1),
        collided_so_far(before, sprite, x0, y0, row, col + 1) == (collided_so_far(
            before,
            sprite,
            x0,
            y0,
            row,
            col,
        ) || (bit && now[(x0 + col) % 64][(y0 + row) % 32])),
{
    let xi = (x0 + col) % 64;
    let yi = (y0 + row) % 32;
    lemma_drawn_next(x0, y0, row, col, xi, yi);
    assert(sprite_covers(sprite, x0, y0, xi, yi) == bit);
    assert(now[xi][yi] == before[xi][yi]);
    assert forall|px: int, py: int| 0 <= px < 64 && 0 <= py < 32 implies #[trigger] next[px][py]
        == (before[px][py] != (sprite_covers(sprite, x0, y0, px, py) && drawn(
        x0,
        y0,
        row,
        col + 1,
        px,
        py,
    ))) by {
        lemma_drawn_next(x0, y0, row, col, px, py);
        assert(now[px][py] == (before[px][py] != (sprite_covers(sprite, x0, y0, px, py) && drawn(
            x0,
            y0,
            row,
            col,
            px,
            py,
        ))));
    }
    if collided_so_far(before, sprite, x0, y0, row, col + 1) {
        let (px, py) = choose|px: int, py: int|
            0 <= px < 64 && 0 <= py < 32 && #[trigger] sprite_hits(before, sprite, x0, y0, px, py)
                && drawn(x0, y0, row, col + 1, px, py);
        lemma_drawn_next(x0, y0, row, col, px, py);
        if px == xi && py == yi {
            assert(bit && now[xi][yi]);
        } else {
            assert(sprite_hits(before, sprite, x0, y0, px, py) && drawn(x0, y0, row, col, px, py));
        }
    }
    if collided_so_far(before, sprite, x0, y0, row, col) {
        let (px, py) = choose|px: int, py: int|
            0 <= px < 64 && 0 <= py < 32 && #[trigger] sprite_hits(before, sprite, x0, y0, px, py)
                && drawn(x0, y0, row, col, px, py);
        lemma_drawn_next(x0, y0, row, col, px, py);
        assert(sprite_hits(before, sprite, x0, y0, px, py) && drawn(x0, y0, row, col + 1, px, py));
    }
    if bit && now[xi][yi] {
        assert(sprite_hits(before, sprite, x0, y0, xi, yi) && drawn(x0, y0, row, col + 1, xi, yi));
    }
}

/// Among the pixels that the sprite lights, a row whose eight bits are done
/// is a finished row.
proof fn lemma_drawn_row(sprite: Seq<u8>, x0: int, y0: int, row: int, px: int, py: int)
    requires
        sprite_covers(sprite, x0, y0, px, py),
    ensures
        drawn(x0, y0, row, 8, px, py) == drawn(x0, y0, row + 1, 0, px, py),
        drawn(x0, y0, sprite.len() as int, 0, px, py),
{
    reveal(drawn);
}

/// A row whose eight bits are done is a finished row.
pub(crate) proof fn lemma_draw_row(
    now: Seq<Seq<bool>>,
    before: Seq<Seq<bool>>,
    sprite: Seq<u8>,
    x0: int,
    y0: int,
    row: int,
)
    requires
        painted(now, before, sprite, x0, y0, row, 8),
    ensures
        painted(now, before, sprite, x0, y0, row + 1, 0),
        collided_so_far(before, sprite, x0, y0, row + 1, 0) == collided_so_far(
            before,
            sprite,
            x0,
            y0,
            row,
            8,
        ),
{
    assert forall|px: int, py: int| 0 <= px < 64 && 0 <= py < 32 implies #[trigger] now[px][py]
        == (before[px][py] != (sprite_covers(sprite, x0, y0, px, py) && drawn(
        x0,
        y0,
        row + 1,
        0,
        px,
        py,
    ))) by {
        if sprite_covers(sprite, x0, y0, px, py) {
            lemma_drawn_row(sprite, x0, y0, row, px, py);
        }
    }
    if collided_so_far(before, sprite, x0, y0, row + 1, 0) {
        let (px, py) = choose|px: int, py: int|
            0 <= px < 64 && 0 <= py < 32 && #[trigger] sprite_hits(before, sprite, x0, y0, px, py)
                && drawn(x0, y0, row + 1, 0, px, py);
        lemma_drawn_row(sprite, x0, y0, row, px, py);
        assert(sprite_hits(before, sprite, x0, y0, px, py) && drawn(x0, y0, row, 8, px, py));
    }
    if collided_so_far(before, sprite, x0, y0, row, 8) {
        let (px, py) = choose|px: int, py: int|
            0 <= px < 64 && 0 <= py < 32 && #[trigger] sprite_hits(before, sprite, x0, y0, px, py)
                && drawn(x0, y0, row, 8, px, py);
        lemma_drawn_row(sprite, x0, y0, row, px, py);
        assert(sprite_hits(before, sprite, x0, y0, px, py) && drawn(x0, y0, row + 1, 0, px, py));
    }
}

/// With every row done the whole sprite has been drawn.
pub(crate) proof fn lemma_draw_done(
    now: Seq<Seq<bool>>,
    before: Seq<Seq<bool>>,
    sprite: Seq<u8>,
    x0: int,
    y0: int,
)
    requires
        painted(now, before, sprite, x0, y0, sprite.len() as int, 0),
    ensures
        now == draw_sprite(before, sprite, x0, y0),
        collided_so_far(before, sprite, x0, y0, sprite.len() as int, 0) == sprite_collides(
            before,
            sprite,
            x0,
            y0,
        ),
{
    let rows = sprite.len() as int;
    assert forall|px: int, py: int| 0 <= px < 64 && 0 <= py < 32 implies #[trigger] now[px][py]
        == draw_sprite(before, sprite, x0, y0)[px][py] by {
        if sprite_covers(sprite, x0, y0, px, py) {
            lemma_drawn_row(sprite, x0, y0, 0, px, py);
        }
    }
    assert(now =~~= draw_sprite(before, sprite, x0, y0));
    if collided_so_far(before, sprite, x0, y0, rows, 0) {
        let (px, py) = choose|px: int, py: int|
            0 <= px < 64 && 0 <= py < 32 && #[trigger] sprite_hits(before, sprite, x0, y0, px, py)
                && drawn(x0, y0, rows, 0, px, py);
        assert(sprite_hits(before, sprite, x0, y0, px, py));
    }
    if sprite_collides(before, sprite, x0, y0) {
        let (px, py) = choose|px: int, py: int|
            0 <= px < 64 && 0 <= py < 32 && #[trigger] sprite_hits(before, sprite, x0, y0, px, py);
        lemma_drawn_row(sprite, x0, y0, 0, px, py);
        assert(sprite_hits(before, sprite, x0, y0, px, py) && drawn(x0, y0, rows, 0, px, py));
    }
}

} // verus!
