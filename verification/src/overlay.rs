//! The overlay on one monitor: a dimmed screenshot with a bright selection.

use crate::pixel::{dim, dimmed, WHITE};
use crate::raster::fits;
use crate::selection::{Phase, Region};
use vstd::prelude::*;

verus! {

/// The overlay on one monitor.
#[derive(Debug)]
pub struct Overlay {
    /// The window that shows the overlay.
    pub window: u64,
    /// What the monitor showed when the overlay opened, row by row.
    pub background: Vec<u32>,
    pub width: u32,
    pub height: u32,
    pub phase: Phase,
}

/// There is one pixel for each of `width` by `height`, of which there is at least one, and
/// whose number fits in `u32` and in memory.
pub open spec fn is_screenshot(pixels: Seq<u32>, width: u32, height: u32) -> bool {
    &&& width > 0
    &&& height > 0
    &&& pixels.len() == width * height
    &&& width * height <= u32::MAX
    &&& fits(width as int, height as int)
}

impl Overlay {
    /// The background has one pixel for each pixel of the monitor.
    pub open spec fn wf(self) -> bool {
        is_screenshot(self.background@, self.width, self.height)
    }
}

/// Whether (`x`, `y`) lies in the rectangle, its corners included.
pub open spec fn inside(frame: Region, x: int, y: int) -> bool {
    frame.x1 <= x <= frame.x2 && frame.y1 <= y <= frame.y2
}

/// Whether (`x`, `y`) lies on the edge of the rectangle.
pub open spec fn on_border(frame: Region, x: int, y: int) -> bool {
    inside(frame, x, y) && (x == frame.x1 || x == frame.x2 || y == frame.y1 || y == frame.y2)
}

/// Whether pixel `i` of an overlay `w` wide lies on the edge of the rectangle.
pub open spec fn border_at(frame: Region, w: u32, i: int) -> bool {
    on_border(frame, i % w as int, i / w as int)
}

/// Whether a background of `len` pixels has all that drawing the rectangle on an overlay of
/// `w` by `h` pixels reads: every pixel but those under the border.
pub open spec fn enough_background(len: int, frame: Region, w: u32, h: u32) -> bool {
    forall|i: int| 0 <= i < w * h && !#[trigger] border_at(frame, w, i) ==> i < len
}

/// What an overlay shows at (`x`, `y`) of the background pixel `bg`: a white border, the
/// pixel itself within it, and the dimmed pixel elsewhere.
pub open spec fn shown(bg: u32, frame: Option<Region>, x: int, y: int) -> u32 {
    match frame {
        None => dimmed(bg),
        Some(f) => if on_border(f, x, y) {
            WHITE
        } else if inside(f, x, y) {
            bg
        } else {
            dimmed(bg)
        },
    }
}

/// How many pixels of the buffer `render_overlay` sets: all that the background covers
/// while idle, all of the overlay while dragging.
pub open spec fn painted(buf_len: int, bg_len: int, w: u32, h: u32, phase: Phase) -> int {
    match phase {
        Phase::Idle => if buf_len <= bg_len {
            buf_len
        } else {
            bg_len
        },
        Phase::Dragging { .. } => w * h,
    }
}

/// `after` is the buffer `before` with the overlay drawn into it.
pub open spec fn is_drawn(
    before: Seq<u32>,
    bg: Seq<u32>,
    w: u32,
    h: u32,
    phase: Phase,
    after: Seq<u32>,
) -> bool {
    &&& after.len() == before.len()
    &&& forall|i: int|
        #![trigger after[i]]
        0 <= i < before.len() ==> after[i] == if i < painted(
            before.len() as int,
            bg.len() as int,
            w,
            h,
            phase,
        ) {
            shown(bg[i], phase.frame(w, h), i % w as int, i / w as int)
        } else {
            before[i]
        }
}

/// Draws an overlay of `w` by `h` pixels: the background dimmed, but for the rectangle
/// that is being dragged out, which stays bright within a white border.
pub fn render_overlay(buf: &mut [u32], bg: &[u32], w: u32, h: u32, phase: Phase)
    requires
        phase.frame(w, h) matches Some(frame) ==> {
            &&& w * h <= u32::MAX
            &&& w * h <= old(buf)@.len()
            &&& enough_background(bg@.len() as int, frame, w, h)
        },
    ensures
        is_drawn(old(buf)@, bg@, w, h, phase, final(buf)@),
{
    match phase.framed(w, h) {
        None => {
            let n: usize = if buf.len() <= bg.len() {
                buf.len()
            } else {
                bg.len()
            };
            let mut i: usize = 0;
            while i < n
                invariant
                    i <= n,
                    n <= bg@.len(),
                    n <= buf@.len(),
                    buf@.len() == old(buf)@.len(),
                    forall|j: int| 0 <= j < i ==> #[trigger] buf@[j] == dimmed(bg@[j]),
                    forall|j: int| i <= j < buf@.len() ==> #[trigger] buf@[j] == old(buf)@[j],
                decreases n - i,
            {
                buf[i] = dim(bg[i]);
                i = i + 1;
            }
        },
        Some(f) => {
            assert(0 <= w * h) by (nonlinear_arith);
            let count: u32 = w * h;
            let mut idx: u32 = 0;
            while idx < count
                invariant
                    idx <= count,
                    count == w * h,
                    enough_background(bg@.len() as int, f, w, h),
                    count <= buf@.len(),
                    buf@.len() == old(buf)@.len(),
                    forall|j: int|
                        0 <= j < idx ==> #[trigger] buf@[j] == shown(
                            bg@[j],
                            Some(f),
                            j % w as int,
                            j / w as int,
                        ),
                    forall|j: int| idx <= j < buf@.len() ==> #[trigger] buf@[j] == old(buf)@[j],
                decreases count - idx,
            {
                assert(w != 0) by (nonlinear_arith)
                    requires
                        w * h > 0,
                ;
                let x: u32 = idx % w;
                let y: u32 = idx / w;
                let inside_frame: bool = x >= f.x1 && x <= f.x2 && y >= f.y1 && y <= f.y2;
                let border: bool = inside_frame && (x == f.x1 || x == f.x2 || y == f.y1 || y
                    == f.y2);
                let i: usize = idx as usize;
                assert(border == border_at(f, w, i as int));
                buf[i] = if border {
                    WHITE
                } else if inside_frame {
                    bg[i]
                } else {
                    dim(bg[i])
                };
                idx = idx + 1;
            }
        },
    }
}

} // verus!
