//! Drawable capability: interchangeable strategies that paint into a bounded
//! view of a pixel surface.

use vstd::prelude::*;

verus! {

use crate::window::{covers_index, linear_index, SurfaceSlice};
use crate::{contains_point, Pixel, PixelIdx};

/// Anything that can paint into a bounded surface view.
pub trait GuiCell: Sized {
    /// What the buffer holds after this cell paints into `slice`.
    spec fn drawn(&self, slice: crate::window::SurfaceSlice, buf: Seq<Pixel>) -> Seq<Pixel>;

    /// Paints into the view: afterwards the buffer holds exactly
    /// `self.drawn(slice, old buffer)`, which keeps the buffer's length and
    /// leaves every pixel outside the view untouched.
    fn draw(&self, slice: &crate::window::SurfaceSlice, buffer: &mut Vec<Pixel>)
        requires
            slice.wf(),
            old(buffer)@.len() == slice.root_size.area(),
        ensures
            final(buffer)@ == self.drawn(*slice, old(buffer)@),
            final(buffer)@.len() == old(buffer)@.len(),
            forall|i: int|
                0 <= i < old(buffer)@.len() && !crate::window::covers_index(*slice, i)
                    ==> final(buffer)@[i] == old(buffer)@[i],
    ;
}

/// Paints every pixel of its view one solid color.
pub struct SolidCell {
    pub color: Pixel,
}

impl SolidCell {
    pub fn new(color: Pixel) -> (r: Self)
        ensures
            r.color == color,
    {
        Self { color }
    }
}

/// Whether buffer position `i` lies in the part of the view's domain already
/// visited by a row-major sweep that stands at column `x` of row `y`.
spec fn painted_before(s: SurfaceSlice, i: int, x: int, y: int) -> bool {
    let w = s.root_size.width as int;
    ||| i / w < s.domain.offset.y + y
    ||| (i / w == s.domain.offset.y + y && i % w < s.domain.offset.x + x)
}

/// The buffer state halfway through a solid row-major sweep: every domain
/// position already visited holds the fill color, everything else is as it
/// started.
spec fn sweep_state(
    color: Pixel,
    s: SurfaceSlice,
    buf0: Seq<Pixel>,
    cur: Seq<Pixel>,
    x: int,
    y: int,
) -> bool {
    &&& cur.len() == buf0.len()
    &&& forall|i: int|
        0 <= i < buf0.len() ==> cur[i] == (if covers_index(s, i) && painted_before(s, i, x, y) {
            color
        } else {
            buf0[i]
        })
}

/// One write of the sweep extends the painted region by exactly the visited
/// position.
proof fn lemma_sweep_advance(
    color: Pixel,
    s: SurfaceSlice,
    buf0: Seq<Pixel>,
    prev: Seq<Pixel>,
    cur: Seq<Pixel>,
    x: int,
    y: int,
)
    requires
        s.wf(),
        buf0.len() == s.root_size.area(),
        0 <= x < s.domain.size.width,
        0 <= y < s.domain.size.height,
        sweep_state(color, s, buf0, prev, x, y),
        cur == crate::window::slice_write(
            s,
            prev,
            PixelIdx { x: x as usize, y: y as usize },
            color,
        ),
    ensures
        sweep_state(color, s, buf0, cur, x + 1, y),
{
    let w = s.root_size.width as int;
    let ax = s.domain.offset.x + x;
    let ay = s.domain.offset.y + y;
    let lin = linear_index(s, ax, ay);
    assert(contains_point(s.domain, ax, ay));
    crate::window::lemma_linear_index_bounds(w, s.root_size.height as int, ax, ay);
    assert(cur == prev.update(lin, color));
    assert forall|i: int| 0 <= i < buf0.len() implies cur[i] == (if covers_index(s, i)
        && painted_before(s, i, x + 1, y) {
        color
    } else {
        buf0[i]
    }) by {
        assert(prev[i] == (if covers_index(s, i) && painted_before(s, i, x, y) {
            color
        } else {
            buf0[i]
        }));
        if i == lin {
            vstd::arithmetic::div_mod::lemma_fundamental_div_mod_converse(lin, w, ay, ax);
        } else {
            // a position first painted at column x of row y would have this
            // row and column, making it the very cell just written
            vstd::arithmetic::div_mod::lemma_fundamental_div_mod(i, w);
            vstd::arithmetic::mul::lemma_mul_is_commutative(w, s.domain.offset.y + y);
        }
    }
}

/// Finishing a row leaves the same painted region as standing at the start
/// of the next row.
proof fn lemma_sweep_row_end(color: Pixel, s: SurfaceSlice, buf0: Seq<Pixel>, cur: Seq<Pixel>, y: int)
    requires
        s.wf(),
        0 <= y,
        sweep_state(color, s, buf0, cur, s.domain.size.width as int, y),
    ensures
        sweep_state(color, s, buf0, cur, 0, y + 1),
{
    assert forall|i: int| 0 <= i < buf0.len() implies cur[i] == (if covers_index(s, i)
        && painted_before(s, i, 0, y + 1) {
        color
    } else {
        buf0[i]
    }) by {}
}

/// A sweep that has passed every row has painted exactly the view's domain.
proof fn lemma_sweep_complete(cell: SolidCell, s: SurfaceSlice, buf0: Seq<Pixel>, cur: Seq<Pixel>)
    requires
        s.wf(),
        sweep_state(cell.color, s, buf0, cur, 0, s.domain.size.height as int),
    ensures
        cur == cell.drawn(s, buf0),
{
    assert forall|i: int| 0 <= i < buf0.len() implies cur[i] == cell.drawn(s, buf0)[i] by {}
    assert(cur =~= cell.drawn(s, buf0));
}

impl GuiCell for SolidCell {
    open spec fn drawn(&self, slice: SurfaceSlice, buf: Seq<Pixel>) -> Seq<Pixel> {
        Seq::new(
            buf.len(),
            |i: int|
                if covers_index(slice, i) {
                    self.color
                } else {
                    buf[i]
                },
        )
    }

    #[verifier::loop_isolation(false)]
    fn draw(&self, slice: &SurfaceSlice, buffer: &mut Vec<Pixel>) {
        let ghost buf0 = old(buffer)@;
        let ghost s = *slice;
        let ghost w = s.root_size.width as int;
        let size = slice.size();
        let mut y: usize = 0;
        while y < size.height
            invariant
                y <= size.height,
                sweep_state(self.color, s, buf0, buffer@, 0, y as int),
            decreases size.height - y,
        {
            let mut x: usize = 0;
            while x < size.width
                invariant
                    x <= size.width,
                    y < size.height,
                    sweep_state(self.color, s, buf0, buffer@, x as int, y as int),
                decreases size.width - x,
            {
                let ghost prev = buffer@;
                slice.set_pixel(buffer, PixelIdx { x, y }, self.color);
                proof {
                    lemma_sweep_advance(self.color, s, buf0, prev, buffer@, x as int, y as int);
                }
                x += 1;
            }
            proof {
                lemma_sweep_row_end(self.color, s, buf0, buffer@, y as int);
            }
            y += 1;
        }
        proof {
            lemma_sweep_complete(*self, s, buf0, buffer@);
        }
    }
}

} // verus!
