//! Lasers: straight-line flight (no wrap), the on-screen test that decides
//! culling, and the point-vs-circle collision test against asteroids.
use vstd::prelude::*;

use crate::asteroid::{circles_overlap, radius_spec, Asteroid};
use crate::consts::{LASER_V_LIMIT, MAX_BOUND};
use crate::num::lemma_abs_mul_le;
use crate::utils::Bounds;
use crate::vec2::{dist_sq_i128, Vec2i};

verus! {

#[derive(Clone, Copy, Debug)]
pub struct Laser {
    pub position: Vec2i,
    pub velocity: Vec2i,
    /// Consumed by a hit this frame; removed at cleanup, distinct from
    /// drifting off-screen.
    pub collided: bool,
}

/// A laser hits an asteroid iff the laser's position (a point: radius 0)
/// lies within the asteroid's collision circle.
pub open spec fn laser_hits(l: Laser, a: Asteroid) -> bool {
    circles_overlap(
        l.position.x as int,
        l.position.y as int,
        0,
        a.position.x as int,
        a.position.y as int,
        radius_spec(a.lives),
    )
}

impl Laser {
    /// A laser as stored between frames: on screen, with bounded speed.
    pub open spec fn wf(self) -> bool {
        &&& 0 <= self.position.x <= MAX_BOUND
        &&& 0 <= self.position.y <= MAX_BOUND
        &&& -LASER_V_LIMIT <= self.velocity.x <= LASER_V_LIMIT
        &&& -LASER_V_LIMIT <= self.velocity.y <= LASER_V_LIMIT
    }

    /// A laser in the middle of a frame, after its flight step but before
    /// the off-screen cull.
    pub open spec fn in_flight(self) -> bool {
        &&& -LASER_V_LIMIT <= self.position.x <= MAX_BOUND + LASER_V_LIMIT
        &&& -LASER_V_LIMIT <= self.position.y <= MAX_BOUND + LASER_V_LIMIT
        &&& -LASER_V_LIMIT <= self.velocity.x <= LASER_V_LIMIT
        &&& -LASER_V_LIMIT <= self.velocity.y <= LASER_V_LIMIT
    }

    /// Strictly inside the viewport; lasers are culled, not wrapped.
    pub fn on_screen(&self, bounds: &Bounds) -> (r: bool)
        ensures
            r == (0 < self.position.x < bounds.width && 0 < self.position.y < bounds.height),
    {
        let x = self.position.x;
        let y = self.position.y;
        x < bounds.width && x > 0 && y < bounds.height && y > 0
    }

    /// One frame of movement: drift by the velocity, without wrapping.
    pub fn update(&mut self)
        requires
            old(self).wf(),
        ensures
            final(self).position.x == old(self).position.x + old(self).velocity.x,
            final(self).position.y == old(self).position.y + old(self).velocity.y,
            final(self).velocity == old(self).velocity,
            final(self).collided == old(self).collided,
            final(self).in_flight(),
    {
        self.position.x = self.position.x + self.velocity.x;
        self.position.y = self.position.y + self.velocity.y;
    }

    /// Point-vs-circle collision with an asteroid.
    pub fn collides(&self, asteroid: &Asteroid) -> (hit: bool)
        requires
            self.in_flight(),
            asteroid.wf(),
        ensures
            hit == laser_hits(*self, *asteroid),
    {
        let d = dist_sq_i128(&self.position, &asteroid.position);
        let r: i64 = asteroid.radius();
        proof {
            lemma_abs_mul_le(r as int, r as int, 0x8000_0000_0000 as int, 0x8000_0000_0000 as int);
        }
        d <= r as i128 * r as i128
    }
}

} // verus!
