//! The viewport, the screen-wrap rule, and the screen center.
use vstd::prelude::*;

use crate::consts::{DEFAULT_HEIGHT, DEFAULT_WIDTH, MAX_BOUND};
use crate::num::tdiv64;
use crate::vec2::Vec2i;

verus! {

/// The viewport extents, in thousandths of a pixel.
#[derive(Clone, Copy, PartialEq, Eq, Structural, Debug)]
pub struct Bounds {
    pub width: i64,
    pub height: i64,
}

impl Bounds {
    /// A usable viewport: positive, and no larger than the supported limit.
    pub open spec fn wf(self) -> bool {
        0 < self.width <= MAX_BOUND && 0 < self.height <= MAX_BOUND
    }

    pub fn new(width: i64, height: i64) -> (b: Bounds)
        requires
            0 < width <= MAX_BOUND,
            0 < height <= MAX_BOUND,
        ensures
            b.width == width,
            b.height == height,
            b.wf(),
    {
        Bounds { width, height }
    }
}

impl Default for Bounds {
    fn default() -> (b: Bounds)
        ensures
            b.width == DEFAULT_WIDTH,
            b.height == DEFAULT_HEIGHT,
            b.wf(),
    {
        Bounds { width: DEFAULT_WIDTH, height: DEFAULT_HEIGHT }
    }
}

/// The center of the viewport.
pub fn screen_center(bounds: &Bounds) -> (c: Vec2i)
    requires
        bounds.wf(),
    ensures
        c.x == bounds.width as int / 2,
        c.y == bounds.height as int / 2,
{
    Vec2i { x: tdiv64(bounds.width, 2), y: tdiv64(bounds.height, 2) }
}

/// One coordinate of the toroidal wrap rule: a coordinate beyond the upper
/// bound resets to 0, one below 0 resets to the upper bound, and any other
/// stays where it is.
pub open spec fn wrap_coord(x: int, upper: int) -> int {
    if x > upper {
        0
    } else if x < 0 {
        upper
    } else {
        x
    }
}

/// Wraps a position to the viewport, each axis independently.
pub fn wrap_around(position: &mut Vec2i, bounds: &Bounds)
    requires
        bounds.wf(),
    ensures
        final(position).x == wrap_coord(old(position).x as int, bounds.width as int),
        final(position).y == wrap_coord(old(position).y as int, bounds.height as int),
        0 <= final(position).x <= bounds.width,
        0 <= final(position).y <= bounds.height,
{
    if position.x > bounds.width {
        position.x = 0;
    } else if position.x < 0 {
        position.x = bounds.width;
    }
    if position.y > bounds.height {
        position.y = 0;
    } else if position.y < 0 {
        position.y = bounds.height;
    }
}

/// Wrapping is idempotent: a wrapped coordinate lies inside `[0, upper]`, so
/// wrapping it again moves nothing.  In particular a position that one wrap
/// sent from beyond a boundary to the opposite edge stays at that edge.
pub proof fn lemma_wrap_idempotent(x: int, upper: int)
    requires
        upper >= 0,
    ensures
        wrap_coord(wrap_coord(x, upper), upper) == wrap_coord(x, upper),
{
}

} // verus!
