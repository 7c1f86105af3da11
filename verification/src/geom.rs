//! Fixed-point planar geometry: points, window bounds, and the
//! axis-aligned bounding-box overlap test used by the collision resolver.

use vstd::prelude::*;

verus! {

use crate::{LASER_LIMIT, SIZE_LIMIT, WIN_LIMIT};

/// A planar point or extent, in thousandths of a pixel.
#[derive(Clone, Copy, PartialEq, Eq, Structural, Debug)]
pub struct Vec2 {
    pub x: i64,
    pub y: i64,
}

impl Vec2 {
    /// Both coordinates lie in `[-bound, bound]`.
    pub open spec fn within(self, bound: i64) -> bool {
        &&& -bound <= self.x <= bound
        &&& -bound <= self.y <= bound
    }

    /// A well-formed bounding-box extent: nonnegative and bounded.
    pub open spec fn size_wf(self) -> bool {
        &&& 0 <= self.x <= SIZE_LIMIT
        &&& 0 <= self.y <= SIZE_LIMIT
    }
}

/// The window bounds queried from the host at startup, in thousandths of
/// a pixel.
#[derive(Clone, Copy, PartialEq, Eq, Structural, Debug)]
pub struct WinSize {
    pub w: i64,
    pub h: i64,
}

impl WinSize {
    pub open spec fn wf(self) -> bool {
        &&& 0 < self.w <= WIN_LIMIT
        &&& 0 < self.h <= WIN_LIMIT
    }
}

/// Axis-aligned overlap of the box centred at `a_pos` with full extent
/// `a_size` and the box centred at `b_pos` with full extent `b_size`:
/// the boxes intersect with positive width and height (boxes that only
/// touch along an edge do not overlap). Stated over doubled coordinates
/// so that halving an extent loses nothing to rounding.
pub open spec fn boxes_overlap(a_pos: Vec2, a_size: Vec2, b_pos: Vec2, b_size: Vec2) -> bool {
    &&& 2 * a_pos.x - a_size.x < 2 * b_pos.x + b_size.x
    &&& 2 * a_pos.x + a_size.x > 2 * b_pos.x - b_size.x
    &&& 2 * a_pos.y - a_size.y < 2 * b_pos.y + b_size.y
    &&& 2 * a_pos.y + a_size.y > 2 * b_pos.y - b_size.y
}

/// Decides `boxes_overlap` on two centred boxes.
pub fn collide(a_pos: Vec2, a_size: Vec2, b_pos: Vec2, b_size: Vec2) -> (r: bool)
    requires
        a_pos.within(LASER_LIMIT),
        b_pos.within(LASER_LIMIT),
        a_size.size_wf(),
        b_size.size_wf(),
    ensures
        r == boxes_overlap(a_pos, a_size, b_pos, b_size),
{
    let ax2: i64 = 2 * a_pos.x;
    let ay2: i64 = 2 * a_pos.y;
    let bx2: i64 = 2 * b_pos.x;
    let by2: i64 = 2 * b_pos.y;
    ax2 - a_size.x < bx2 + b_size.x && ax2 + a_size.x > bx2 - b_size.x
        && ay2 - a_size.y < by2 + b_size.y && ay2 + a_size.y > by2 - b_size.y
}

} // verus!
