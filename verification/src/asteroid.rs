//! Asteroids: spawn placement, movement with screen wrap, splitting, and the
//! circle-circle collision test.
use vstd::prelude::*;

use crate::consts::{
    ASTEROID_SIZE, ASTEROID_SPAWN_DISTANCE, A_POS_LIMIT, DIR_ONE, LIVES_LIMIT, MAX_LEVEL, SCALE,
    SPAWN_ATTEMPTS, V_LIMIT,
};
use crate::num::{lemma_abs_mul_le, lemma_tdiv_bound, tdiv64};
use crate::rng::{gen_range_i64, lemma_velocity_norm_window, rand_direction, rand_tumble};
use crate::utils::{screen_center, wrap_around, wrap_coord, Bounds};
use crate::vec2::{dist_sq, dist_sq_i128, Vec2i};

verus! {

/// The square avoidance zone around the screen center, inside which no
/// asteroid may materialize: it would sit on top of the freshly spawned
/// ship.
pub open spec fn inside_avoidance_zone(x: int, y: int, bounds: Bounds) -> bool {
    let cx = bounds.width as int / 2;
    let cy = bounds.height as int / 2;
    &&& cx - ASTEROID_SPAWN_DISTANCE <= x <= cx + ASTEROID_SPAWN_DISTANCE
    &&& cy - ASTEROID_SPAWN_DISTANCE <= y <= cy + ASTEROID_SPAWN_DISTANCE
}

/// A pseudo-random on-screen position, resampled while it falls inside the
/// avoidance zone.  On any viewport wider than the zone the result is
/// outside it: should the generous retry cap ever run out, the right screen
/// edge (which such a viewport keeps clear of the zone) stands in for the
/// last sample.
fn sample_spawn_position(bounds: &Bounds) -> (p: Vec2i)
    requires
        bounds.wf(),
    ensures
        0 <= p.x <= bounds.width,
        0 <= p.y <= bounds.height,
        bounds.width > 2 * ASTEROID_SPAWN_DISTANCE ==> !inside_avoidance_zone(
            p.x as int,
            p.y as int,
            *bounds,
        ),
{
    let center = screen_center(bounds);
    let mut px: i64 = 0;
    let mut py: i64 = 0;
    let mut attempts: u32 = 0;
    while attempts < SPAWN_ATTEMPTS
        invariant
            attempts <= SPAWN_ATTEMPTS,
            bounds.wf(),
            center.x == bounds.width as int / 2,
            center.y == bounds.height as int / 2,
            0 <= px <= bounds.width,
            0 <= py <= bounds.height,
        decreases SPAWN_ATTEMPTS - attempts,
    {
        px = gen_range_i64(0, bounds.width);
        py = gen_range_i64(0, bounds.height);
        let inside_zone = px >= center.x - ASTEROID_SPAWN_DISTANCE
            && px <= center.x + ASTEROID_SPAWN_DISTANCE
            && py >= center.y - ASTEROID_SPAWN_DISTANCE
            && py <= center.y + ASTEROID_SPAWN_DISTANCE;
        if !inside_zone {
            return Vec2i { x: px, y: py };
        }
        attempts = attempts + 1;
    }
    if bounds.width > 2 * ASTEROID_SPAWN_DISTANCE {
        px = bounds.width;
    }
    Vec2i { x: px, y: py }
}

/// Two circles intersect iff the distance of their centers is at most the
/// sum of their radii; compared on squares, so the test is exact.
pub open spec fn circles_overlap(ax: int, ay: int, ra: int, bx: int, by: int, rb: int) -> bool {
    dist_sq(ax, ay, bx, by) <= (ra + rb) * (ra + rb)
}

#[derive(Clone, Copy, Debug)]
pub struct Asteroid {
    pub position: Vec2i,
    /// Tumble angle, in microradians; presentation only.
    pub rotation: i64,
    pub velocity: Vec2i,
    /// Remaining hits; also determines the radius.  An asteroid whose lives
    /// reach 0 is destroyed and is removed at the end of the frame.
    pub lives: u32,
}

/// The collision circle of an asteroid grows with its remaining lives.
pub open spec fn radius_spec(lives: u32) -> int {
    lives * ASTEROID_SIZE
}

/// The circle-circle collision test between two asteroids.
pub open spec fn asteroid_overlap(a: Asteroid, b: Asteroid) -> bool {
    circles_overlap(
        a.position.x as int,
        a.position.y as int,
        radius_spec(a.lives),
        b.position.x as int,
        b.position.y as int,
        radius_spec(b.lives),
    )
}

impl Asteroid {
    /// Positions stay near the viewport, velocities and lives stay small
    /// enough that every collision test fits in 128-bit arithmetic.
    pub open spec fn wf(self) -> bool {
        &&& 0 <= self.position.x <= A_POS_LIMIT
        &&& 0 <= self.position.y <= A_POS_LIMIT
        &&& -V_LIMIT <= self.velocity.x <= V_LIMIT
        &&& -V_LIMIT <= self.velocity.y <= V_LIMIT
        &&& self.lives <= LIVES_LIMIT
    }

    /// One large asteroid at a pseudo-random on-screen position, rejected and
    /// resampled (up to a generous cap) while it falls inside the square
    /// avoidance zone around the screen center, so that asteroids do not
    /// materialize on top of the ship.  Its speed is sampled from
    /// `[1, level]` pixels per frame (within the two percent the fixed-point
    /// direction window allows): higher levels get faster asteroids.
    pub fn spawn(level: u32, bounds: &Bounds) -> (a: Asteroid)
        requires
            bounds.wf(),
            1 <= level <= MAX_LEVEL,
        ensures
            a.wf(),
            a.lives == 3,
            0 <= a.position.x <= bounds.width,
            0 <= a.position.y <= bounds.height,
            bounds.width > 2 * ASTEROID_SPAWN_DISTANCE ==> !inside_avoidance_zone(
                a.position.x as int,
                a.position.y as int,
                *bounds,
            ),
            -(level * SCALE) <= a.velocity.x <= level * SCALE,
            -(level * SCALE) <= a.velocity.y <= level * SCALE,
            (98 * SCALE) * (98 * SCALE) <= (a.velocity.x * a.velocity.x + a.velocity.y
                * a.velocity.y) * (100 * 100),
            (a.velocity.x * a.velocity.x + a.velocity.y * a.velocity.y) * (100 * 100) <= (102 * (
            level * SCALE)) * (102 * (level * SCALE)),
            1745 <= a.rotation <= 5236,
    {
        let position = sample_spawn_position(bounds);
        let dir = rand_direction();
        let speed: i64 = if level == 1 {
            SCALE
        } else {
            gen_range_i64(SCALE, level as i64 * SCALE)
        };
        proof {
            lemma_abs_mul_le(dir.x as int, speed as int, DIR_ONE as int, level as int * SCALE as int);
            lemma_abs_mul_le(dir.y as int, speed as int, DIR_ONE as int, level as int * SCALE as int);
            assert(DIR_ONE as int * (level as int * SCALE as int) == (level as int * SCALE as int) * DIR_ONE as int)
                by (nonlinear_arith);
            lemma_tdiv_bound(dir.x as int * speed as int, DIR_ONE as int, level as int * SCALE as int);
            lemma_tdiv_bound(dir.y as int * speed as int, DIR_ONE as int, level as int * SCALE as int);
        }
        let vx = tdiv64(dir.x * speed, DIR_ONE);
        let vy = tdiv64(dir.y * speed, DIR_ONE);
        proof {
            lemma_velocity_norm_window(
                dir.x as int,
                dir.y as int,
                speed as int,
                vx as int,
                vy as int,
            );
            assert((98 * SCALE) * (98 * SCALE) <= (98 * speed as int) * (98 * speed as int))
                by (nonlinear_arith)
                requires
                    SCALE as int <= speed as int,
                    SCALE == 1000,
            ;
            assert((102 * speed as int) * (102 * speed as int) <= (102 * (level as int
                * SCALE as int)) * (102 * (level as int * SCALE as int))) by (nonlinear_arith)
                requires
                    0 <= speed as int <= level as int * SCALE as int,
            ;
        }
        Asteroid {
            position,
            rotation: rand_tumble(),
            velocity: Vec2i { x: vx, y: vy },
            lives: 3,
        }
    }

    pub fn radius(&self) -> (r: i64)
        ensures
            r == radius_spec(self.lives),
    {
        self.lives as i64 * ASTEROID_SIZE
    }

    /// A split child: same position as given (next to its parent), the given
    /// life count, a fresh tumble and a pseudo-random unit-vector velocity
    /// (one pixel per frame within the two percent the fixed-point direction
    /// window allows, not level-scaled, never degenerate).
    pub fn spawn_at(position: Vec2i, lives: u32) -> (a: Asteroid)
        requires
            0 <= position.x <= A_POS_LIMIT,
            0 <= position.y <= A_POS_LIMIT,
            lives <= LIVES_LIMIT,
        ensures
            a.wf(),
            a.position == position,
            a.lives == lives,
            -SCALE <= a.velocity.x <= SCALE,
            -SCALE <= a.velocity.y <= SCALE,
            (98 * SCALE) * (98 * SCALE) <= (a.velocity.x * a.velocity.x + a.velocity.y
                * a.velocity.y) * (100 * 100),
            (a.velocity.x * a.velocity.x + a.velocity.y * a.velocity.y) * (100 * 100) <= (102
                * SCALE) * (102 * SCALE),
            1745 <= a.rotation <= 5236,
    {
        let dir = rand_direction();
        proof {
            lemma_abs_mul_le(dir.x as int, SCALE as int, DIR_ONE as int, SCALE as int);
            lemma_abs_mul_le(dir.y as int, SCALE as int, DIR_ONE as int, SCALE as int);
            assert(DIR_ONE as int * SCALE as int == SCALE as int * DIR_ONE as int) by (nonlinear_arith);
            lemma_tdiv_bound(dir.x as int * SCALE as int, DIR_ONE as int, SCALE as int);
            lemma_tdiv_bound(dir.y as int * SCALE as int, DIR_ONE as int, SCALE as int);
        }
        let vx = tdiv64(dir.x * SCALE, DIR_ONE);
        let vy = tdiv64(dir.y * SCALE, DIR_ONE);
        proof {
            lemma_velocity_norm_window(
                dir.x as int,
                dir.y as int,
                SCALE as int,
                vx as int,
                vy as int,
            );
        }
        Asteroid {
            position,
            lives,
            rotation: rand_tumble(),
            velocity: Vec2i { x: vx, y: vy },
        }
    }

    /// One frame of movement: drift by the velocity, then wrap to the screen.
    pub fn update(&mut self, bounds: &Bounds)
        requires
            old(self).wf(),
            bounds.wf(),
        ensures
            final(self).position.x == wrap_coord(
                old(self).position.x + old(self).velocity.x,
                bounds.width as int,
            ),
            final(self).position.y == wrap_coord(
                old(self).position.y + old(self).velocity.y,
                bounds.height as int,
            ),
            final(self).velocity == old(self).velocity,
            final(self).lives == old(self).lives,
            final(self).rotation == old(self).rotation,
            final(self).wf(),
            0 <= final(self).position.x <= bounds.width,
            0 <= final(self).position.y <= bounds.height,
    {
        self.position.x = self.position.x + self.velocity.x;
        self.position.y = self.position.y + self.velocity.y;
        wrap_around(&mut self.position, bounds);
    }

    /// One hit: the asteroid loses a life.
    pub fn explode(&mut self)
        requires
            old(self).lives >= 1,
        ensures
            final(self).lives == old(self).lives - 1,
            final(self).position == old(self).position,
            final(self).velocity == old(self).velocity,
            final(self).rotation == old(self).rotation,
    {
        self.lives = self.lives - 1;
    }

    /// Circle-circle collision with another asteroid.
    pub fn collides(&self, other: &Asteroid) -> (hit: bool)
        requires
            self.wf(),
            other.wf(),
        ensures
            hit == asteroid_overlap(*self, *other),
    {
        let d = dist_sq_i128(&self.position, &other.position);
        let rsum: i64 = self.radius() + other.radius();
        proof {
            lemma_abs_mul_le(rsum as int, rsum as int, 0x8000_0000_0000 as int, 0x8000_0000_0000 as int);
        }
        d <= rsum as i128 * rsum as i128
    }
}

/// The circle-circle collision test is symmetric: whether two asteroids
/// overlap does not depend on the order they are compared in.
pub proof fn lemma_collision_symmetric(a: Asteroid, b: Asteroid)
    ensures
        asteroid_overlap(a, b) == asteroid_overlap(b, a),
{
    let ax = a.position.x as int;
    let ay = a.position.y as int;
    let bx = b.position.x as int;
    let by = b.position.y as int;
    assert((ax - bx) * (ax - bx) == (bx - ax) * (bx - ax)) by (nonlinear_arith);
    assert((ay - by) * (ay - by) == (by - ay) * (by - ay)) by (nonlinear_arith);
}

} // verus!
