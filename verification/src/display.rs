//! Monochrome 64x32 frame buffer.
use vstd::prelude::*;

verus! {

/// Width of the screen in pixels.
pub const WIDTH: usize = 64;

/// Height of the screen in pixels.
pub const HEIGHT: usize = 32;

/// Number of pixels on the screen.
pub const BUFF_LENGTH: usize = 2048;

/// What a display shows: one entry per pixel, row by row, and whether it
/// changed since the frontend last redrew it.
#[verifier::ext_equal]
pub struct Frame {
    pub pixels: Seq<bool>,
    pub invalidated: bool,
}

/// Whether (x, y) lies on the screen.
pub open spec fn on_screen(x: int, y: int) -> bool {
    0 <= x < WIDTH && 0 <= y < HEIGHT
}

/// Position of the on-screen pixel (x, y) in the row-by-row buffer.
pub open spec fn pixel_index(x: int, y: int) -> int {
    x + y * WIDTH
}

/// The pixel at (x, y) of `pixels`; off-screen pixels read as unset.
pub open spec fn pixel_at(pixels: Seq<bool>, x: int, y: int) -> bool {
    on_screen(x, y) && pixels[pixel_index(x, y)]
}

/// A screen of unset pixels.
pub open spec fn blank_pixels() -> Seq<bool> {
    Seq::new(BUFF_LENGTH as nat, |p: int| false)
}

/// `pixels` with the pixel at (x, y) toggled; off-screen pixels are ignored.
pub open spec fn flipped(pixels: Seq<bool>, x: int, y: int) -> Seq<bool> {
    if on_screen(x, y) {
        pixels.update(pixel_index(x, y), !pixels[pixel_index(x, y)])
    } else {
        pixels
    }
}

/// An operation on the display, as the frontend and the processor apply them.
pub enum DisplayOp {
    Clear,
    Flip(int, int),
    Take,
}

/// What `op` does to the frame `f`.
pub open spec fn after_op(f: Frame, op: DisplayOp) -> Frame {
    match op {
        DisplayOp::Clear => Frame { pixels: blank_pixels(), invalidated: true },
        DisplayOp::Flip(x, y) => Frame {
            pixels: flipped(f.pixels, x, y),
            invalidated: f.invalidated || on_screen(x, y),
        },
        DisplayOp::Take => Frame { invalidated: false, ..f },
    }
}

/// The frame after the operations `ops`, in order.
pub open spec fn after_ops(f: Frame, ops: Seq<DisplayOp>) -> Frame
    decreases ops.len(),
{
    if ops.len() == 0 {
        f
    } else {
        after_op(after_ops(f, ops.drop_last()), ops.last())
    }
}

/// Whether `op` changes what the screen shows: a clear, or a flip of an
/// on-screen pixel.
pub open spec fn changes_screen(op: DisplayOp) -> bool {
    match op {
        DisplayOp::Clear => true,
        DisplayOp::Flip(x, y) => on_screen(x, y),
        DisplayOp::Take => false,
    }
}

/// Whether no operation of `ops` from index `from` on takes the redraw flag.
pub open spec fn no_take_from(ops: Seq<DisplayOp>, from: int) -> bool {
    forall|j: int| from <= j < ops.len() ==> !(#[trigger] ops[j] is Take)
}

/// Whether the screen changed since the redraw flag was last taken: some
/// operation of `ops` changed it with no take after it, or the frame was
/// already marked and nothing took the mark.
pub open spec fn changed_since_take(f: Frame, ops: Seq<DisplayOp>) -> bool {
    ||| exists|i: int| 0 <= i < ops.len() && #[trigger] changes_screen(ops[i]) && no_take_from(ops, i + 1)
    ||| f.invalidated && no_take_from(ops, 0)
}

/// Every on-screen pixel has its own place in the buffer.
pub proof fn lemma_pixel_index(px: int, py: int, qx: int, qy: int)
    requires
        on_screen(px, py),
        on_screen(qx, qy),
    ensures
        0 <= pixel_index(px, py) < BUFF_LENGTH,
        pixel_index(px, py) == pixel_index(qx, qy) <==> (px == qx && py == qy),
{
}

/// Every place in the buffer holds the pixel of its column and row.
pub proof fn lemma_index_pixel(p: int)
    requires
        0 <= p < BUFF_LENGTH,
    ensures
        on_screen(p % (WIDTH as int), p / (WIDTH as int)),
        pixel_index(p % (WIDTH as int), p / (WIDTH as int)) == p,
{
}

/// Toggling a pixel changes that pixel and no other.
pub proof fn lemma_pixel_after_flip(pixels: Seq<bool>, x0: int, y0: int, px: int, py: int)
    requires
        pixels.len() == BUFF_LENGTH,
        on_screen(px, py),
    ensures
        pixel_at(flipped(pixels, x0, y0), px, py) == (pixel_at(pixels, px, py) != (on_screen(
            x0,
            y0,
        ) && px == x0 && py == y0)),
{
    if on_screen(x0, y0) {
        lemma_pixel_index(px, py, x0, y0);
    }
}

/// Monochrome 64x32 frame buffer.
pub struct Display {
    buff: [bool; BUFF_LENGTH],
    invalidated: bool,
}

impl View for Display {
    type V = Frame;

    closed spec fn view(&self) -> Frame {
        Frame { pixels: self.buff@, invalidated: self.invalidated }
    }
}

impl Display {
    pub const WIDTH: usize = WIDTH;

    pub const HEIGHT: usize = HEIGHT;

    pub const BUFF_LENGTH: usize = BUFF_LENGTH;

    /// The screen always holds exactly one entry per pixel.
    pub proof fn lemma_pixel_count(&self)
        ensures
            self@.pixels.len() == BUFF_LENGTH,
    {
    }

    /// A blank screen, marked for redrawing.
    pub fn new() -> (d: Self)
        ensures
            d@ == (Frame { pixels: blank_pixels(), invalidated: true }),
    {
        let d = Display { buff: [false; BUFF_LENGTH], invalidated: true };
        assert(d@.pixels =~= blank_pixels());
        d
    }

    /// Unsets every pixel and marks the screen for redrawing.
    pub fn clear(&mut self)
        ensures
            final(self)@ == (Frame { pixels: blank_pixels(), invalidated: true }),
            final(self)@ == after_op(old(self)@, DisplayOp::Clear),
    {
        self.buff = [false; BUFF_LENGTH];
        self.invalidated = true;
        assert(self@.pixels =~= blank_pixels());
    }

    /// Returns the pixel at (x, y); off-screen pixels read as unset.
    pub fn get(&self, x: usize, y: usize) -> (set: bool)
        ensures
            set == pixel_at(self@.pixels, x as int, y as int),
    {
        match Self::index(x, y) {
            Some(i) => self.buff[i],
            None => false,
        }
    }

    /// Toggles the pixel at (x, y); off-screen pixels are ignored.
    pub fn flip(&mut self, x: usize, y: usize)
        ensures
            final(self)@.pixels == flipped(old(self)@.pixels, x as int, y as int),
            final(self)@.invalidated == (old(self)@.invalidated || on_screen(x as int, y as int)),
            final(self)@ == after_op(old(self)@, DisplayOp::Flip(x as int, y as int)),
    {
        if let Some(i) = Self::index(x, y) {
            self.buff[i] = !self.buff[i];
            self.invalidated = true;
        }
    }

    /// Returns true once after the buffer has changed, so the frontend only
    /// redraws when needed.
    pub fn take_invalidated(&mut self) -> (was: bool)
        ensures
            was == old(self)@.invalidated,
            final(self)@ == (Frame { invalidated: false, ..old(self)@ }),
            final(self)@ == after_op(old(self)@, DisplayOp::Take),
    {
        let was = self.invalidated;
        self.invalidated = false;
        was
    }

    /// Position of (x, y) in the buffer, when it lies on the screen.
    fn index(x: usize, y: usize) -> (i: Option<usize>)
        ensures
            i == (if on_screen(x as int, y as int) {
                Some(pixel_index(x as int, y as int) as usize)
            } else {
                None
            }),
            i matches Some(j) ==> j < BUFF_LENGTH,
    {
        if x < WIDTH && y < HEIGHT {
            Some(x + y * WIDTH)
        } else {
            None
        }
    }
}

impl Default for Display {
    fn default() -> (d: Self)
        ensures
            d@ == (Frame { pixels: blank_pixels(), invalidated: true }),
    {
        Self::new()
    }
}

} // verus!
