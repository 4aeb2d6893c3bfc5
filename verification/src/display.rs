//! The 64 x 32 monochrome frame buffer of the machine.

use vstd::prelude::*;
use vstd::arithmetic::div_mod::lemma_fundamental_div_mod_converse;

verus! {

/// Width of the screen in pixels.
pub const SCREEN_WIDTH: usize = 64;

/// Height of the screen in pixels.
pub const SCREEN_HEIGHT: usize = 32;

/// Number of pixels on the screen.
pub const SCREEN_PIXELS: usize = 2048;

/// Side, in output pixels, of the square that shows one screen pixel.
pub const SCALE: usize = 10;

/// Number of output pixels produced by `Display::render`.
pub const RENDERED_PIXELS: usize = 204800;

/// Output colour of a lit pixel.
pub const ON_COLOR: u32 = 0xFFFFFF;

/// Output colour of a dark pixel.
pub const OFF_COLOR: u32 = 0x000000;

/// A frame buffer, one `bool` per pixel in row-major order.
pub struct Display {
    framebuffer: [bool; SCREEN_PIXELS],
}

/// Position of pixel `(x, y)` in the row-major frame.
pub open spec fn pixel_index(x: int, y: int) -> int {
    y * 64 + x
}

/// The frame in which every pixel is dark.
pub open spec fn blank_frame() -> Seq<bool> {
    Seq::new(2048, |i: int| false)
}

/// The frame after pixel `i` has been XOR-ed with `value`.
pub open spec fn toggled(frame: Seq<bool>, i: int, value: bool) -> Seq<bool> {
    frame.update(i, frame[i] != value)
}

/// Colour shown for a pixel.
pub open spec fn pixel_color(on: bool) -> u32 {
    if on {
        ON_COLOR
    } else {
        OFF_COLOR
    }
}

/// Colour of output pixel `i` when the frame is scaled by `SCALE` in both
/// directions: output row `i / 640` shows screen row `i / 6400`, output column
/// `i % 640` shows screen column `(i % 640) / 10`.
pub open spec fn rendered_color(frame: Seq<bool>, i: int) -> u32 {
    pixel_color(frame[pixel_index((i % 640) / 10, i / 6400)])
}

impl View for Display {
    type V = Seq<bool>;

    closed spec fn view(&self) -> Seq<bool> {
        self.framebuffer@
    }
}

impl Display {
    /// Every display holds exactly one entry per pixel.
    pub proof fn lemma_frame_len(&self)
        ensures
            self@.len() == SCREEN_PIXELS,
    {
    }

    /// A display with every pixel dark.
    pub fn new() -> (d: Self)
        ensures
            d@ == blank_frame(),
    {
        let d = Display { framebuffer: [false; SCREEN_PIXELS] };
        assert(d@ =~= blank_frame());
        d
    }

    /// XORs pixel `(x, y)` with `value` and reports whether a lit pixel was
    /// turned off (the CHIP-8 collision flag).
    pub fn set_pixel(&mut self, x: usize, y: usize, value: bool) -> (collision: bool)
        requires
            pixel_index(x as int, y as int) < SCREEN_PIXELS,
        ensures
            collision == (old(self)@[pixel_index(x as int, y as int)] && value),
            final(self)@ == toggled(old(self)@, pixel_index(x as int, y as int), value),
    {
        let index = y * 64 + x;
        let collision = self.framebuffer[index] && value;
        self.framebuffer[index] = self.framebuffer[index] ^ value;
        collision
    }

    /// Whether pixel `(x, y)` is lit.
    pub fn get_pixel(&mut self, x: usize, y: usize) -> (lit: bool)
        requires
            pixel_index(x as int, y as int) < SCREEN_PIXELS,
        ensures
            lit == old(self)@[pixel_index(x as int, y as int)],
            final(self)@ == old(self)@,
    {
        let index = y * 64 + x;
        self.framebuffer[index]
    }

    /// Turns every pixel dark.
    pub fn clear(&mut self)
        ensures
            final(self)@ == blank_frame(),
    {
        self.framebuffer = [false; SCREEN_PIXELS];
        assert(self@ =~= blank_frame());
    }

    /// The frame scaled by `SCALE` in both directions, one colour per output
    /// pixel in row-major order.
    pub fn render(&self) -> (buffer: Vec<u32>)
        ensures
            buffer@.len() == RENDERED_PIXELS,
            forall|i: int| 0 <= i < RENDERED_PIXELS ==> buffer@[i] == rendered_color(self@, i),
    {
        let mut buffer: Vec<u32> = Vec::new();
        let mut y: usize = 0;
        while y < SCREEN_HEIGHT
            invariant
                y <= SCREEN_HEIGHT,
                buffer@.len() == y * 6400,
                forall|i: int| 0 <= i < buffer@.len() ==> buffer@[i] == rendered_color(self@, i),
            decreases SCREEN_HEIGHT - y,
        {
            let mut row: usize = 0;
            while row < SCALE
                invariant
                    y < SCREEN_HEIGHT,
                    row <= SCALE,
                    buffer@.len() == y * 6400 + row * 640,
                    forall|i: int| 0 <= i < buffer@.len() ==> buffer@[i] == rendered_color(self@, i),
                decreases SCALE - row,
            {
                let mut x: usize = 0;
                while x < SCREEN_WIDTH
                    invariant
                        y < SCREEN_HEIGHT,
                        row < SCALE,
                        x <= SCREEN_WIDTH,
                        buffer@.len() == y * 6400 + row * 640 + x * 10,
                        forall|i: int|
                            0 <= i < buffer@.len() ==> buffer@[i] == rendered_color(self@, i),
                    decreases SCREEN_WIDTH - x,
                {
                    let color = if self.framebuffer[y * 64 + x] {
                        ON_COLOR
                    } else {
                        OFF_COLOR
                    };
                    let mut col: usize = 0;
                    while col < SCALE
                        invariant
                            y < SCREEN_HEIGHT,
                            row < SCALE,
                            x < SCREEN_WIDTH,
                            col <= SCALE,
                            color == pixel_color(self@[pixel_index(x as int, y as int)]),
                            buffer@.len() == y * 6400 + row * 640 + x * 10 + col,
                            forall|i: int|
                                0 <= i < buffer@.len() ==> buffer@[i] == rendered_color(self@, i),
                        decreases SCALE - col,
                    {
                        proof {
                            let i = buffer@.len() as int;
                            lemma_scaled_position(y as int, row as int, x as int, col as int);
                            assert(rendered_color(self@, i) == color);
                        }
                        buffer.push(color);
                        col = col + 1;
                    }
                    x = x + 1;
                }
                row = row + 1;
            }
            y = y + 1;
        }
        buffer
    }
}

/// Output pixel `col` of column block `x`, in output row `row` of screen row
/// `y`, shows screen pixel `(x, y)`.
proof fn lemma_scaled_position(y: int, row: int, x: int, col: int)
    requires
        0 <= y < 32,
        0 <= row < 10,
        0 <= x < 64,
        0 <= col < 10,
    ensures
        ({
            let i = y * 6400 + row * 640 + x * 10 + col;
            &&& i / 6400 == y
            &&& (i % 640) / 10 == x
        }),
{
    let i = y * 6400 + row * 640 + x * 10 + col;
    lemma_fundamental_div_mod_converse(i, 6400, y, row * 640 + x * 10 + col);
    lemma_fundamental_div_mod_converse(i, 640, y * 10 + row, x * 10 + col);
    lemma_fundamental_div_mod_converse(x * 10 + col, 10, x, col);
}

/// XOR-ing `false` into a pixel leaves the frame as it is; XOR-ing `true`
/// inverts that pixel and no other.
pub proof fn lemma_toggle_meaning(frame: Seq<bool>, i: int)
    requires
        0 <= i < frame.len(),
    ensures
        toggled(frame, i, false) == frame,
        toggled(frame, i, true).len() == frame.len(),
        toggled(frame, i, true)[i] == !frame[i],
        forall|j: int| 0 <= j < frame.len() && j != i ==> toggled(frame, i, true)[j] == frame[j],
{
    assert(toggled(frame, i, false) =~= frame);
}

/// In the rendered image, screen pixel `(x, y)` is the `SCALE` x `SCALE`
/// square whose top-left output pixel is `(x * SCALE, y * SCALE)` in an
/// image 640 pixels wide: every output pixel of the square has its colour.
pub proof fn lemma_render_layout(frame: Seq<bool>, x: int, y: int, row: int, col: int)
    requires
        0 <= x < 64,
        0 <= y < 32,
        0 <= row < 10,
        0 <= col < 10,
    ensures
        rendered_color(frame, (y * 10 + row) * 640 + x * 10 + col) == (if frame[y * 64 + x] {
            ON_COLOR
        } else {
            OFF_COLOR
        }),
{
    lemma_scaled_position(y, row, x, col);
    assert((y * 10 + row) * 640 + x * 10 + col == y * 6400 + row * 640 + x * 10 + col);
}

} // verus!
