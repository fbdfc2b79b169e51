//! Dragging out a rectangle on an overlay.

use vstd::prelude::*;

verus! {

/// What a selection reads of one coordinate of the cursor.
#[derive(Clone, Copy, Debug, PartialEq, Eq, Structural)]
pub struct Coord {
    /// The pixel that the coordinate falls on, 0 left of or above the overlay; nothing
    /// where the coordinate is not a number.
    pub pixel: Option<u32>,
    /// Whether the coordinate is exactly zero.
    pub zero: bool,
}

/// How far the selection on one overlay has come.
#[derive(Clone, Copy, Debug, PartialEq, Eq, Structural)]
pub enum Phase {
    Idle,
    /// From the start corner (`sx`, `sy`) to the cursor (`cx`, `cy`).
    Dragging { sx: Coord, sy: Coord, cx: Coord, cy: Coord },
}

impl Default for Phase {
    fn default() -> (phase: Phase)
        ensures
            phase == Phase::Idle,
    {
        Phase::Idle
    }
}

/// A rectangle of pixels, given by two opposite corners.
#[derive(Clone, Copy, Debug, PartialEq, Eq, Structural)]
pub struct Region {
    pub x1: u32,
    pub y1: u32,
    pub x2: u32,
    pub y2: u32,
}

/// The coordinate of a drag that has not moved yet.
pub open spec fn origin() -> Coord {
    Coord { pixel: Some(0), zero: true }
}

/// The lesser pixel of two coordinates; one that is not a number does not count.
pub open spec fn least(a: Coord, b: Coord) -> u32 {
    match (a.pixel, b.pixel) {
        (Some(p), Some(q)) => if p <= q {
            p
        } else {
            q
        },
        (Some(p), None) => p,
        (None, Some(q)) => q,
        (None, None) => 0,
    }
}

/// The greater pixel of two coordinates; one that is not a number does not count.
pub open spec fn greatest(a: Coord, b: Coord) -> u32 {
    match (a.pixel, b.pixel) {
        (Some(p), Some(q)) => if p <= q {
            q
        } else {
            p
        },
        (Some(p), None) => p,
        (None, Some(q)) => q,
        (None, None) => 0,
    }
}

/// `p`, or the last of `size` pixels where `p` lies beyond it.
pub open spec fn clamped(p: u32, size: u32) -> u32 {
    if size == 0 {
        0
    } else if p >= size {
        (size - 1) as u32
    } else {
        p
    }
}

impl Phase {
    /// The phase after the left button went down.
    pub open spec fn pressed(self) -> Phase {
        match self {
            Phase::Idle => Phase::Dragging { sx: origin(), sy: origin(), cx: origin(), cy: origin() },
            Phase::Dragging { .. } => self,
        }
    }

    /// The phase after the cursor moved to (`x`, `y`). The start corner is the first
    /// position after the press; while it is still exactly zero in both coordinates it
    /// counts as not yet set.
    pub open spec fn moved(self, x: Coord, y: Coord) -> Phase {
        match self {
            Phase::Idle => self,
            Phase::Dragging { sx, sy, .. } => if sx.zero && sy.zero {
                Phase::Dragging { sx: x, sy: y, cx: x, cy: y }
            } else {
                Phase::Dragging { sx, sy, cx: x, cy: y }
            },
        }
    }

    /// The corners of the drag on an overlay of `width` by `height` pixels, each within it.
    pub open spec fn selection(self, width: u32, height: u32) -> Option<Region> {
        match self {
            Phase::Idle => None,
            Phase::Dragging { sx, sy, cx, cy } => Some(
                Region {
                    x1: clamped(least(sx, cx), width),
                    y1: clamped(least(sy, cy), height),
                    x2: clamped(greatest(sx, cx), width),
                    y2: clamped(greatest(sy, cy), height),
                },
            ),
        }
    }

    /// The corners of the frame that is drawn for the drag. Its upper left corner is not
    /// held within the overlay: a drag that lies beyond it shows no frame.
    pub open spec fn frame(self, width: u32, height: u32) -> Option<Region> {
        match self {
            Phase::Idle => None,
            Phase::Dragging { sx, sy, cx, cy } => Some(
                Region {
                    x1: least(sx, cx),
                    y1: least(sy, cy),
                    x2: clamped(greatest(sx, cx), width),
                    y2: clamped(greatest(sy, cy), height),
                },
            ),
        }
    }

    /// Starts a drag, unless one is under way.
    pub fn press(self) -> (phase: Phase)
        ensures
            phase == self.pressed(),
    {
        match self {
            Phase::Idle => {
                let zero = Coord { pixel: Some(0), zero: true };
                Phase::Dragging { sx: zero, sy: zero, cx: zero, cy: zero }
            },
            Phase::Dragging { sx, sy, cx, cy } => Phase::Dragging { sx, sy, cx, cy },
        }
    }

    /// Follows the cursor, and says whether there is anything to redraw.
    pub fn drag_to(self, x: Coord, y: Coord) -> (r: (Phase, bool))
        ensures
            r.0 == self.moved(x, y),
            r.1 == (self is Dragging),
    {
        match self {
            Phase::Idle => (Phase::Idle, false),
            Phase::Dragging { sx, sy, cx: _, cy: _ } => {
                if sx.zero && sy.zero {
                    (Phase::Dragging { sx: x, sy: y, cx: x, cy: y }, true)
                } else {
                    (Phase::Dragging { sx, sy, cx: x, cy: y }, true)
                }
            },
        }
    }

    /// The corners of the drag on an overlay of `width` by `height` pixels, if one is
    /// under way.
    pub fn selected(self, width: u32, height: u32) -> (region: Option<Region>)
        ensures
            region == self.selection(width, height),
    {
        match self {
            Phase::Idle => None,
            Phase::Dragging { sx, sy, cx, cy } => Some(
                Region {
                    x1: clamp(lesser(sx, cx), width),
                    y1: clamp(lesser(sy, cy), height),
                    x2: clamp(greater(sx, cx), width),
                    y2: clamp(greater(sy, cy), height),
                },
            ),
        }
    }

    /// The corners of the frame to draw, if a drag is under way.
    pub fn framed(self, width: u32, height: u32) -> (region: Option<Region>)
        ensures
            region == self.frame(width, height),
    {
        match self {
            Phase::Idle => None,
            Phase::Dragging { sx, sy, cx, cy } => Some(
                Region {
                    x1: lesser(sx, cx),
                    y1: lesser(sy, cy),
                    x2: clamp(greater(sx, cx), width),
                    y2: clamp(greater(sy, cy), height),
                },
            ),
        }
    }
}

/// The lesser pixel of two coordinates.
fn lesser(a: Coord, b: Coord) -> (p: u32)
    ensures
        p == least(a, b),
{
    match (a.pixel, b.pixel) {
        (Some(p), Some(q)) => if p <= q {
            p
        } else {
            q
        },
        (Some(p), None) => p,
        (None, Some(q)) => q,
        (None, None) => 0,
    }
}

/// The greater pixel of two coordinates.
fn greater(a: Coord, b: Coord) -> (p: u32)
    ensures
        p == greatest(a, b),
{
    match (a.pixel, b.pixel) {
        (Some(p), Some(q)) => if p <= q {
            q
        } else {
            p
        },
        (Some(p), None) => p,
        (None, Some(q)) => q,
        (None, None) => 0,
    }
}

/// Holds a pixel position within `size` pixels.
fn clamp(p: u32, size: u32) -> (q: u32)
    ensures
        q == clamped(p, size),
{
    let last: u32 = size.saturating_sub(1);
    if p <= last {
        p
    } else {
        last
    }
}

} // verus!
