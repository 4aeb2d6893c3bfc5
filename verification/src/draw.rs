//! Facts about drawing a sprite one pixel at a time, used to prove the
//! sprite-drawing instruction against its specification.

use vstd::prelude::*;
use crate::display::{pixel_index, toggled};
use crate::machine::{drawn_frame, draw_collides, sprite_bit, sprite_col, sprite_pixel, sprite_row};

verus! {

/// Pixel `p` lies, in sprite coordinates, before row `r`, column `c`
/// (in the row-by-row, left-to-right order in which pixels are drawn).
pub open spec fn drawn_before(p: int, x: int, y: int, r: int, c: int) -> bool {
    let pr = sprite_row(p, y);
    let pc = sprite_col(p, x);
    pr < r || (pr == r && pc < c)
}

/// The frame after the sprite pixels before `(r, c)` have been drawn.
pub open spec fn partial_frame(
    frame: Seq<bool>,
    memory: Seq<u8>,
    start: int,
    rows: int,
    x: int,
    y: int,
    r: int,
    c: int,
) -> Seq<bool> {
    Seq::new(
        frame.len(),
        |p: int| frame[p] != (sprite_pixel(memory, start, rows, x, y, p) && drawn_before(p, x, y, r, c)),
    )
}

/// Some sprite pixel before `(r, c)` landed on a lit pixel.
pub open spec fn partial_collides(
    frame: Seq<bool>,
    memory: Seq<u8>,
    start: int,
    rows: int,
    x: int,
    y: int,
    r: int,
    c: int,
) -> bool {
    exists|p: int|
        0 <= p < frame.len() && #[trigger] sprite_pixel(memory, start, rows, x, y, p)
            && drawn_before(p, x, y, r, c) && frame[p]
}

/// Row `t` of a screen of `m` rows shows row `off` of an object whose first
/// row is at `base` exactly when `t` is `base + off` wrapped around.
proof fn lemma_wrap(t: int, base: int, off: int, m: int)
    requires
        m == 32 || m == 64,
        0 <= t < m,
        0 <= off < m,
        0 <= base < 256,
    ensures
        ((t - base) % m == off) <==> (t == (base + off) % m),
{
    assert(((t - base) % m == off) <==> (t == (base + off) % m)) by (nonlinear_arith)
        requires
            m == 32 || m == 64,
            0 <= t < m,
            0 <= off < m,
            0 <= base < 256,
    ;
}

/// Sprite pixel `(r, c)` of a sprite at `(x, y)` lands on screen pixel
/// `((x + c) % 64, (y + r) % 32)`, and on no other.
pub proof fn lemma_sprite_position(x: int, y: int, r: int, c: int)
    requires
        0 <= x < 256,
        0 <= y < 256,
        0 <= r < 32,
        0 <= c < 64,
    ensures
        ({
            let p = pixel_index((x + c) % 64, (y + r) % 32);
            &&& 0 <= p < 2048
            &&& sprite_row(p, y) == r
            &&& sprite_col(p, x) == c
            &&& forall|q: int|
                0 <= q < 2048 && sprite_row(q, y) == r && sprite_col(q, x) == c ==> q == p
        }),
{
    let row = (y + r) % 32;
    let col = (x + c) % 64;
    let p = pixel_index(col, row);
    vstd::arithmetic::div_mod::lemma_fundamental_div_mod_converse(p, 64, row, col);
    lemma_wrap(row, y, r, 32);
    lemma_wrap(col, x, c, 64);
    assert forall|q: int|
        0 <= q < 2048 && sprite_row(q, y) == r && sprite_col(q, x) == c implies q == p by {
        vstd::arithmetic::div_mod::lemma_fundamental_div_mod(q, 64);
        assert(0 <= q / 64 < 32);
        assert(0 <= q % 64 < 64);
        lemma_wrap(q / 64, y, r, 32);
        lemma_wrap(q % 64, x, c, 64);
    }
}

/// Before anything is drawn the frame is unchanged and nothing collided.
pub proof fn lemma_draw_start(
    frame: Seq<bool>,
    memory: Seq<u8>,
    start: int,
    rows: int,
    x: int,
    y: int,
)
    ensures
        partial_frame(frame, memory, start, rows, x, y, 0, 0) == frame,
        !partial_collides(frame, memory, start, rows, x, y, 0, 0),
{
    assert(partial_frame(frame, memory, start, rows, x, y, 0, 0) =~= frame);
}

/// Drawing sprite pixel `(r, c)` moves the drawn part one pixel on.
pub proof fn lemma_draw_step(
    frame: Seq<bool>,
    memory: Seq<u8>,
    start: int,
    rows: int,
    x: int,
    y: int,
    r: int,
    c: int,
)
    requires
        frame.len() == 2048,
        0 <= x < 256,
        0 <= y < 256,
        0 <= r < rows < 32,
        0 <= c < 8,
    ensures
        ({
            let p = pixel_index((x + c) % 64, (y + r) % 32);
            let bit = sprite_bit(memory[start + r], c);
            let before = partial_frame(frame, memory, start, rows, x, y, r, c);
            &&& 0 <= p < 2048
            &&& before[p] == frame[p]
            &&& toggled(before, p, bit) == partial_frame(frame, memory, start, rows, x, y, r, c + 1)
            &&& partial_collides(frame, memory, start, rows, x, y, r, c + 1) == (partial_collides(
                frame,
                memory,
                start,
                rows,
                x,
                y,
                r,
                c,
            ) || (frame[p] && bit))
        }),
{
    let p = pixel_index((x + c) % 64, (y + r) % 32);
    let bit = sprite_bit(memory[start + r], c);
    lemma_sprite_position(x, y, r, c);
    let before = partial_frame(frame, memory, start, rows, x, y, r, c);
    let after = partial_frame(frame, memory, start, rows, x, y, r, c + 1);
    assert(sprite_pixel(memory, start, rows, x, y, p) == bit);
    assert forall|q: int| 0 <= q < 2048 && q != p implies drawn_before(q, x, y, r, c + 1)
        == drawn_before(q, x, y, r, c) by {}
    assert(toggled(before, p, bit) =~= after);
    if partial_collides(frame, memory, start, rows, x, y, r, c + 1) {
        let q = choose|q: int|
            0 <= q < frame.len() && #[trigger] sprite_pixel(memory, start, rows, x, y, q)
                && drawn_before(q, x, y, r, c + 1) && frame[q];
        if q != p {
            assert(drawn_before(q, x, y, r, c));
        }
    }
    if frame[p] && bit {
        assert(sprite_pixel(memory, start, rows, x, y, p));
    }
    if partial_collides(frame, memory, start, rows, x, y, r, c) {
        let q = choose|q: int|
            0 <= q < frame.len() && #[trigger] sprite_pixel(memory, start, rows, x, y, q)
                && drawn_before(q, x, y, r, c) && frame[q];
        assert(drawn_before(q, x, y, r, c + 1));
    }
}

/// Finishing row `r` is starting row `r + 1`.
pub proof fn lemma_draw_next_row(
    frame: Seq<bool>,
    memory: Seq<u8>,
    start: int,
    rows: int,
    x: int,
    y: int,
    r: int,
)
    ensures
        partial_frame(frame, memory, start, rows, x, y, r, 8) == partial_frame(
            frame,
            memory,
            start,
            rows,
            x,
            y,
            r + 1,
            0,
        ),
        partial_collides(frame, memory, start, rows, x, y, r, 8) == partial_collides(
            frame,
            memory,
            start,
            rows,
            x,
            y,
            r + 1,
            0,
        ),
{
    assert(partial_frame(frame, memory, start, rows, x, y, r, 8) =~= partial_frame(
        frame,
        memory,
        start,
        rows,
        x,
        y,
        r + 1,
        0,
    ));
    if partial_collides(frame, memory, start, rows, x, y, r, 8) {
        let q = choose|q: int|
            0 <= q < frame.len() && #[trigger] sprite_pixel(memory, start, rows, x, y, q)
                && drawn_before(q, x, y, r, 8) && frame[q];
        assert(drawn_before(q, x, y, r + 1, 0));
    }
    if partial_collides(frame, memory, start, rows, x, y, r + 1, 0) {
        let q = choose|q: int|
            0 <= q < frame.len() && #[trigger] sprite_pixel(memory, start, rows, x, y, q)
                && drawn_before(q, x, y, r + 1, 0) && frame[q];
        assert(drawn_before(q, x, y, r, 8));
    }
}

/// Once every row is drawn, the drawn part is the whole sprite.
pub proof fn lemma_draw_end(
    frame: Seq<bool>,
    memory: Seq<u8>,
    start: int,
    rows: int,
    x: int,
    y: int,
)
    ensures
        partial_frame(frame, memory, start, rows, x, y, rows, 0) == drawn_frame(
            frame,
            memory,
            start,
            rows,
            x,
            y,
        ),
        partial_collides(frame, memory, start, rows, x, y, rows, 0) == draw_collides(
            frame,
            memory,
            start,
            rows,
            x,
            y,
        ),
{
    assert(partial_frame(frame, memory, start, rows, x, y, rows, 0) =~= drawn_frame(
        frame,
        memory,
        start,
        rows,
        x,
        y,
    ));
    if draw_collides(frame, memory, start, rows, x, y) {
        let q = choose|q: int|
            0 <= q < frame.len() && #[trigger] sprite_pixel(memory, start, rows, x, y, q)
                && frame[q];
        assert(drawn_before(q, x, y, rows, 0));
    }
}

} // verus!
