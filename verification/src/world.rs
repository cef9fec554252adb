//! The session: level, score, the ship and the live entity collections,
//! plus level population and the per-frame simulation step.
use vstd::prelude::*;

use crate::asteroid::{asteroid_overlap, lemma_collision_symmetric, radius_spec, Asteroid};
use crate::consts::{
    DIR_ONE, LASER_SPEED, MAX_BOUND, MAX_LEVEL, SCALE, SHIP_THRUST, SPAWN_ATTEMPTS,
    SPEED_OF_LIGHT,
};
use crate::laser::{laser_hits, Laser};
use crate::num::tdiv;
use crate::player::{clamp_spec, player_hits, renorm_spec, rot_left_spec, rot_right_spec, Player};
use crate::utils::{wrap_coord, Bounds};
use crate::vec2::Vec2i;
use vstd::pervasive::VecAdditionalExecFns;

verus! {

/// The per-frame input intents, pre-decoded by the caller: held rotation
/// and thrust, and an edge-triggered fire (a "just pressed", so holding the
/// key does not fire every frame).
#[derive(Clone, Copy, PartialEq, Eq, Structural, Debug)]
pub struct Input {
    pub rotate_left: bool,
    pub rotate_right: bool,
    pub thrust: bool,
    pub fire: bool,
}

/// How a simulation step left the session.
#[derive(Clone, Copy, PartialEq, Eq, Structural, Debug)]
pub enum TickOutcome {
    /// Play goes on.
    Continue,
    /// An asteroid struck the ship; the session is over.
    Destroyed,
    /// The last asteroid was destroyed; the level is cleared.
    LevelCleared,
}

/// The intermediate entity states a simulation step went through, kept as
/// ghost data so that the step's contract can speak of each phase.
pub struct TickTrace {
    /// The lasers once the fire intent was applied.
    pub input_lasers: Seq<Laser>,
    /// The lasers after their flight step.
    pub flown_lasers: Seq<Laser>,
    /// The lasers after the laser-asteroid collision pass.
    pub hit_lasers: Seq<Laser>,
    /// The asteroids after their flight-and-wrap step.
    pub flown_asteroids: Seq<Asteroid>,
    /// The asteroids after the laser-asteroid collision pass.
    pub hit_asteroids: Seq<Asteroid>,
    /// The asteroids after the deflection pass.
    pub bounced_asteroids: Seq<Asteroid>,
    /// The split children collected by the collision pass.
    pub children: Seq<Asteroid>,
}

/// What one simulation step reports back, for phase transitions and audio.
#[derive(Clone, Copy)]
pub struct TickReport {
    pub outcome: TickOutcome,
    /// Laser-asteroid hits this frame; each one scored.
    pub hits: u32,
    /// A laser was fired this frame.
    pub fired: bool,
    /// The frame's intermediate states; ghost, for the contract only.
    pub trace: Ghost<TickTrace>,
}

/// No two asteroids' collision circles intersect.
pub open spec fn pairwise_separated(s: Seq<Asteroid>) -> bool {
    forall|i: int, j: int|
        0 <= i < j < s.len() ==> !#[trigger] asteroid_overlap(s[i], s[j])
}

pub struct World {
    pub level: u32,
    pub score: u32,
    pub player: Player,
    pub lasers: Vec<Laser>,
    pub asteroids: Vec<Asteroid>,
    /// Whether the most recent population of the field placed every asteroid
    /// it owed: `true` means the session holds the full `2 * level` of them,
    /// `false` that the spawn retry cap ran out first (which the generous
    /// cap keeps from happening in practice).
    pub filled: bool,
}

impl World {
    /// The session invariant: a bounded level, a well-formed ship, and only
    /// live, well-formed entities (an asteroid holds 1 to 3 lives; destroyed
    /// ones are removed before the frame ends).
    pub open spec fn wf(self) -> bool {
        &&& 1 <= self.level <= MAX_LEVEL
        &&& self.player.wf()
        &&& forall|i: int|
            0 <= i < self.asteroids@.len() ==> {
                &&& (#[trigger] self.asteroids@[i]).wf()
                &&& 1 <= self.asteroids@[i].lives <= 3
            }
        &&& forall|i: int| 0 <= i < self.lasers@.len() ==> (#[trigger] self.lasers@[i]).wf()
    }

    /// Places one freshly spawned asteroid that overlaps none of those
    /// already accepted; gives up (leaving the collection unchanged) if the
    /// retry cap is exhausted.
    fn place_one(n: u32, asteroids: &mut Vec<Asteroid>, bounds: &Bounds) -> (placed: bool)
        requires
            bounds.wf(),
            1 <= n <= MAX_LEVEL,
            forall|i: int| 0 <= i < old(asteroids)@.len() ==> (#[trigger] old(asteroids)@[i]).wf(),
        ensures
            placed ==> {
                &&& final(asteroids)@.len() == old(asteroids)@.len() + 1
                &&& final(asteroids)@.drop_last() == old(asteroids)@
                &&& final(asteroids)@.last().wf()
                &&& final(asteroids)@.last().lives == 3
                &&& 0 <= final(asteroids)@.last().position.x <= bounds.width
                &&& 0 <= final(asteroids)@.last().position.y <= bounds.height
                &&& (98 * SCALE) * (98 * SCALE) <= (final(asteroids)@.last().velocity.x
                    * final(asteroids)@.last().velocity.x + final(asteroids)@.last().velocity.y
                    * final(asteroids)@.last().velocity.y) * (100 * 100)
                &&& (final(asteroids)@.last().velocity.x * final(asteroids)@.last().velocity.x
                    + final(asteroids)@.last().velocity.y * final(asteroids)@.last().velocity.y)
                    * (100 * 100) <= (102 * (n * SCALE)) * (102 * (n * SCALE))
                &&& forall|i: int|
                    0 <= i < old(asteroids)@.len() ==> !asteroid_overlap(
                        #[trigger] old(asteroids)@[i],
                        final(asteroids)@.last(),
                    )
            },
            !placed ==> final(asteroids)@ == old(asteroids)@,
    {
        let mut attempts: u32 = 0;
        while attempts < SPAWN_ATTEMPTS
            invariant
                bounds.wf(),
                1 <= n <= MAX_LEVEL,
                asteroids@ == old(asteroids)@,
                forall|i: int|
                    0 <= i < asteroids@.len() ==> (#[trigger] asteroids@[i]).wf(),
            decreases SPAWN_ATTEMPTS - attempts,
        {
            let cand = Asteroid::spawn(n, bounds);
            if !Self::overlaps_any(asteroids, &cand) {
                proof {
                    assert forall|i: int| 0 <= i < asteroids@.len() implies !asteroid_overlap(
                        #[trigger] asteroids@[i],
                        cand,
                    ) by {
                        lemma_collision_symmetric(asteroids@[i], cand);
                    }
                }
                asteroids.push(cand);
                proof {
                    assert(asteroids@.drop_last() == old(asteroids)@);
                }
                return true;
            }
            attempts = attempts + 1;
        }
        false
    }

    /// Does the candidate's collision circle intersect any already accepted
    /// asteroid's circle?
    fn overlaps_any(asteroids: &Vec<Asteroid>, cand: &Asteroid) -> (found: bool)
        requires
            cand.wf(),
            forall|i: int| 0 <= i < asteroids@.len() ==> (#[trigger] asteroids@[i]).wf(),
        ensures
            found == exists|i: int|
                0 <= i < asteroids@.len() && asteroid_overlap(*cand, #[trigger] asteroids@[i]),
    {
        let mut i: usize = 0;
        while i < asteroids.len()
            invariant
                i <= asteroids@.len(),
                cand.wf(),
                forall|j: int| 0 <= j < asteroids@.len() ==> (#[trigger] asteroids@[j]).wf(),
                forall|j: int| 0 <= j < i ==> !asteroid_overlap(*cand, #[trigger] asteroids@[j]),
            decreases asteroids@.len() - i,
        {
            if cand.collides(&asteroids[i]) {
                return true;
            }
            i = i + 1;
        }
        false
    }

    /// Populates the field with `2 n` freshly spawned asteroids, each placed
    /// by rejection sampling so that no two collision circles intersect.
    /// Returns whether the field was fully populated: a `true` result means
    /// exactly `2 n` asteroids were appended, and if the collection started
    /// pairwise separated it remains so.  With the generous retry cap a
    /// partial fill does not happen in practice.
    pub fn spawn_asteroids(n: u32, asteroids: &mut Vec<Asteroid>, bounds: &Bounds) -> (filled:
        bool)
        requires
            bounds.wf(),
            1 <= n <= MAX_LEVEL,
            forall|i: int| 0 <= i < old(asteroids)@.len() ==> (#[trigger] old(asteroids)@[i]).wf(),
        ensures
            final(asteroids)@.len() <= old(asteroids)@.len() + 2 * n,
            final(asteroids)@.subrange(0, old(asteroids)@.len() as int) == old(asteroids)@,
            forall|i: int|
                old(asteroids)@.len() <= i < final(asteroids)@.len() ==> {
                    &&& (#[trigger] final(asteroids)@[i]).wf()
                    &&& final(asteroids)@[i].lives == 3
                    &&& 0 <= final(asteroids)@[i].position.x <= bounds.width
                    &&& 0 <= final(asteroids)@[i].position.y <= bounds.height
                    &&& (98 * SCALE) * (98 * SCALE) <= (final(asteroids)@[i].velocity.x
                        * final(asteroids)@[i].velocity.x + final(asteroids)@[i].velocity.y
                        * final(asteroids)@[i].velocity.y) * (100 * 100)
                    &&& (final(asteroids)@[i].velocity.x * final(asteroids)@[i].velocity.x
                        + final(asteroids)@[i].velocity.y * final(asteroids)@[i].velocity.y) * (
                    100 * 100) <= (102 * (n * SCALE)) * (102 * (n * SCALE))
                },
            forall|i: int|
                0 <= i < final(asteroids)@.len() ==> (#[trigger] final(asteroids)@[i]).wf(),
            pairwise_separated(old(asteroids)@) ==> pairwise_separated(final(asteroids)@),
            filled ==> final(asteroids)@.len() == old(asteroids)@.len() + 2 * n,
            !filled ==> final(asteroids)@.len() < old(asteroids)@.len() + 2 * n,
    {
        let ghost orig = asteroids@;
        let mut spawned: u32 = 0;
        let target: u32 = 2 * n;
        while spawned < target
            invariant
                bounds.wf(),
                1 <= n <= MAX_LEVEL,
                orig == old(asteroids)@,
                target == 2 * n,
                spawned <= target,
                asteroids@.len() == orig.len() + spawned,
                asteroids@.subrange(0, orig.len() as int) == orig,
                forall|i: int|
                    orig.len() <= i < asteroids@.len() ==> {
                        &&& (#[trigger] asteroids@[i]).wf()
                        &&& asteroids@[i].lives == 3
                        &&& 0 <= asteroids@[i].position.x <= bounds.width
                        &&& 0 <= asteroids@[i].position.y <= bounds.height
                        &&& (98 * SCALE) * (98 * SCALE) <= (asteroids@[i].velocity.x
                            * asteroids@[i].velocity.x + asteroids@[i].velocity.y
                            * asteroids@[i].velocity.y) * (100 * 100)
                        &&& (asteroids@[i].velocity.x * asteroids@[i].velocity.x
                            + asteroids@[i].velocity.y * asteroids@[i].velocity.y) * (100 * 100)
                            <= (102 * (n * SCALE)) * (102 * (n * SCALE))
                    },
                forall|i: int| 0 <= i < asteroids@.len() ==> (#[trigger] asteroids@[i]).wf(),
                pairwise_separated(orig) ==> pairwise_separated(asteroids@),
            decreases target - spawned,
        {
            let ghost prev = asteroids@;
            let placed = Self::place_one(n, asteroids, bounds);
            if !placed {
                return false;
            }
            proof {
                assert(asteroids@.subrange(0, orig.len() as int) =~= orig);
                assert forall|i: int| 0 <= i < asteroids@.len() - 1 implies asteroids@[i]
                    == prev[i] by {
                    assert(asteroids@.drop_last()[i] == asteroids@[i]);
                }
                assert forall|i: int| orig.len() <= i < asteroids@.len() implies {
                    &&& (#[trigger] asteroids@[i]).wf()
                    &&& asteroids@[i].lives == 3
                    &&& 0 <= asteroids@[i].position.x <= bounds.width
                    &&& 0 <= asteroids@[i].position.y <= bounds.height
                    &&& (98 * SCALE) * (98 * SCALE) <= (asteroids@[i].velocity.x
                        * asteroids@[i].velocity.x + asteroids@[i].velocity.y
                        * asteroids@[i].velocity.y) * (100 * 100)
                    &&& (asteroids@[i].velocity.x * asteroids@[i].velocity.x
                        + asteroids@[i].velocity.y * asteroids@[i].velocity.y) * (100 * 100) <= (
                    102 * (n * SCALE)) * (102 * (n * SCALE))
                } by {
                    if i < asteroids@.len() - 1 {
                        assert(asteroids@[i] == prev[i]);
                        assert(prev[i].wf() && prev[i].lives == 3 && 0 <= prev[i].position.x
                            <= bounds.width && 0 <= prev[i].position.y <= bounds.height);
                        assert((98 * SCALE) * (98 * SCALE) <= (prev[i].velocity.x
                            * prev[i].velocity.x + prev[i].velocity.y * prev[i].velocity.y) * (100
                            * 100));
                        assert((prev[i].velocity.x * prev[i].velocity.x + prev[i].velocity.y
                            * prev[i].velocity.y) * (100 * 100) <= (102 * (n * SCALE)) * (102 * (n
                            * SCALE)));
                    }
                }
                assert forall|i: int| 0 <= i < asteroids@.len() implies (
                #[trigger] asteroids@[i]).wf() by {
                    if i < asteroids@.len() - 1 {
                        assert(asteroids@[i] == prev[i]);
                        assert(prev[i].wf());
                    }
                }
                if pairwise_separated(orig) {
                    assert forall|i: int, j: int| 0 <= i < j < asteroids@.len() implies
                        !asteroid_overlap(asteroids@[i], asteroids@[j]) by {
                        if j < asteroids@.len() - 1 {
                            assert(asteroids@[i] == prev[i] && asteroids@[j] == prev[j]);
                            assert(!asteroid_overlap(prev[i], prev[j]));
                        } else {
                            assert(asteroids@[i] == prev[i]);
                            assert(!asteroid_overlap(prev[i], asteroids@.last()));
                        }
                    }
                }
            }
            spawned = spawned + 1;
        }
        true
    }

    /// A fresh session: level 1, score 0, a fresh ship at the screen center,
    /// no lasers, and a pairwise separated field of two asteroids; `filled`
    /// records whether the field really holds both (it falls short only if
    /// the spawn retry cap was exhausted).
    pub fn new(bounds: &Bounds) -> (w: World)
        requires
            bounds.wf(),
        ensures
            w.wf(),
            w.level == 1,
            w.score == 0,
            w.lasers@.len() == 0,
            w.asteroids@.len() <= 2,
            w.filled <==> w.asteroids@.len() == 2,
            pairwise_separated(w.asteroids@),
            forall|i: int|
                0 <= i < w.asteroids@.len() ==> {
                    &&& (#[trigger] w.asteroids@[i]).lives == 3
                    &&& 0 <= w.asteroids@[i].position.x <= bounds.width
                    &&& 0 <= w.asteroids@[i].position.y <= bounds.height
                    &&& (98 * SCALE) * (98 * SCALE) <= (w.asteroids@[i].velocity.x
                        * w.asteroids@[i].velocity.x + w.asteroids@[i].velocity.y
                        * w.asteroids@[i].velocity.y) * (100 * 100)
                    &&& (w.asteroids@[i].velocity.x * w.asteroids@[i].velocity.x
                        + w.asteroids@[i].velocity.y * w.asteroids@[i].velocity.y) * (100 * 100)
                        <= (102 * SCALE) * (102 * SCALE)
                },
            w.player.position.x == bounds.width as int / 2,
            w.player.position.y == bounds.height as int / 2,
            w.player.heading.x == 0 && w.player.heading.y == DIR_ONE,
            w.player.velocity.x == 0 && w.player.velocity.y == 0,
            w.player.thrusting == false,
            w.player.lives == 3,
    {
        let mut asteroids: Vec<Asteroid> = Vec::new();
        proof {
            assert(pairwise_separated(asteroids@));
        }
        let filled = World::spawn_asteroids(1, &mut asteroids, bounds);
        World {
            asteroids,
            filled,
            level: 1,
            score: 0,
            player: Player::new(bounds),
            lasers: Vec::new(),
        }
    }

    /// The next level: the level counter advances, the score carries over,
    /// the ship and the lasers reset, and a fresh, larger, pairwise
    /// separated asteroid field is spawned; `filled` records whether the
    /// field really holds all `2 * level` of its asteroids (it falls short
    /// only if the spawn retry cap was exhausted).
    pub fn next_level(self, bounds: &Bounds) -> (w: World)
        requires
            self.wf(),
            self.level < MAX_LEVEL,
            bounds.wf(),
        ensures
            w.wf(),
            w.level == self.level + 1,
            w.score == self.score,
            w.lasers@.len() == 0,
            w.asteroids@.len() <= 2 * (self.level + 1),
            w.filled <==> w.asteroids@.len() == 2 * (self.level + 1),
            pairwise_separated(w.asteroids@),
            forall|i: int|
                0 <= i < w.asteroids@.len() ==> {
                    &&& (#[trigger] w.asteroids@[i]).lives == 3
                    &&& 0 <= w.asteroids@[i].position.x <= bounds.width
                    &&& 0 <= w.asteroids@[i].position.y <= bounds.height
                    &&& (98 * SCALE) * (98 * SCALE) <= (w.asteroids@[i].velocity.x
                        * w.asteroids@[i].velocity.x + w.asteroids@[i].velocity.y
                        * w.asteroids@[i].velocity.y) * (100 * 100)
                    &&& (w.asteroids@[i].velocity.x * w.asteroids@[i].velocity.x
                        + w.asteroids@[i].velocity.y * w.asteroids@[i].velocity.y) * (100 * 100)
                        <= (102 * ((self.level + 1) * SCALE)) * (102 * ((self.level + 1) * SCALE))
                },
            w.player.position.x == bounds.width as int / 2,
            w.player.position.y == bounds.height as int / 2,
            w.player.heading.x == 0 && w.player.heading.y == DIR_ONE,
            w.player.velocity.x == 0 && w.player.velocity.y == 0,
            w.player.thrusting == false,
            w.player.lives == 3,
    {
        let level = self.level + 1;
        let mut asteroids: Vec<Asteroid> = Vec::new();
        proof {
            assert(pairwise_separated(asteroids@));
        }
        let filled = World::spawn_asteroids(level, &mut asteroids, bounds);
        World {
            level,
            asteroids,
            filled,
            score: self.score,
            player: Player::new(bounds),
            lasers: Vec::new(),
        }
    }

    /// One scored hit: the score grows by `level * 10`, saturating only at
    /// the top of its type so that it never decreases.
    pub fn increment_score(&mut self)
        requires
            old(self).level <= MAX_LEVEL,
        ensures
            final(self).score == saturating_score(old(self).score as int, old(self).level as int),
            final(self).score >= old(self).score,
            final(self).level == old(self).level,
            final(self).player == old(self).player,
            final(self).lasers == old(self).lasers,
            final(self).asteroids == old(self).asteroids,
            final(self).filled == old(self).filled,
    {
        let inc: u32 = self.level * 10;
        if self.score <= u32::MAX - inc {
            self.score = self.score + inc;
        } else {
            self.score = u32::MAX;
        }
    }

    /// Applies one frame's input intents to the ship, in a fixed order:
    /// rotation first (right wins over left), then thrust (clamped to the
    /// speed of light) or coasting, then fire, which appends a laser at the
    /// ship's position along the new heading.
    pub fn apply_input(&mut self, input: &Input)
        requires
            old(self).wf(),
        ensures
            final(self).wf(),
            (final(self).player.heading.x as int, final(self).player.heading.y as int)
                == heading_after(old(self).player.heading, *input),
            input.thrust ==> final(self).player.velocity.x == clamp_spec(
                old(self).player.velocity.x + tdiv(
                    heading_after(old(self).player.heading, *input).0 * SHIP_THRUST,
                    DIR_ONE as int,
                ),
                -SPEED_OF_LIGHT as int,
                SPEED_OF_LIGHT as int,
            ) && final(self).player.velocity.y == clamp_spec(
                old(self).player.velocity.y - tdiv(
                    heading_after(old(self).player.heading, *input).1 * SHIP_THRUST,
                    DIR_ONE as int,
                ),
                -SPEED_OF_LIGHT as int,
                SPEED_OF_LIGHT as int,
            ),
            !input.thrust ==> final(self).player.velocity == old(self).player.velocity,
            -SPEED_OF_LIGHT <= final(self).player.velocity.x <= SPEED_OF_LIGHT,
            -SPEED_OF_LIGHT <= final(self).player.velocity.y <= SPEED_OF_LIGHT,
            final(self).player.thrusting == input.thrust,
            final(self).player.position == old(self).player.position,
            final(self).player.lives == old(self).player.lives,
            input.fire ==> {
                &&& final(self).lasers@.len() == old(self).lasers@.len() + 1
                &&& final(self).lasers@.drop_last() == old(self).lasers@
                &&& final(self).lasers@.last().position == old(self).player.position
                &&& final(self).lasers@.last().velocity.x == tdiv(
                    heading_after(old(self).player.heading, *input).0 * LASER_SPEED,
                    DIR_ONE as int,
                )
                &&& final(self).lasers@.last().velocity.y == -tdiv(
                    heading_after(old(self).player.heading, *input).1 * LASER_SPEED,
                    DIR_ONE as int,
                )
                &&& final(self).lasers@.last().collided == false
            },
            !input.fire ==> final(self).lasers == old(self).lasers,
            final(self).asteroids == old(self).asteroids,
            final(self).level == old(self).level,
            final(self).score == old(self).score,
            final(self).filled == old(self).filled,
    {
        if input.rotate_right {
            self.player.rotate_right();
        } else if input.rotate_left {
            self.player.rotate_left();
        }
        if input.thrust {
            self.player.thrust();
        } else {
            self.player.thrusting = false;
        }
        if input.fire {
            let velocity = self.player.laser_velocity();
            let laser = Laser { position: self.player.position, velocity, collided: false };
            self.lasers.push(laser);
            proof {
                assert(self.lasers@.drop_last() == old(self).lasers@);
            }
        }
    }

    /// Advances every live entity by one frame, in a fixed order: lasers
    /// drift (and are culled later rather than wrapped), then asteroids
    /// drift and wrap, then the ship drifts and wraps.
    pub fn advance_entities(&mut self, bounds: &Bounds)
        requires
            old(self).wf(),
            bounds.wf(),
        ensures
            final(self).lasers@.len() == old(self).lasers@.len(),
            forall|i: int|
                0 <= i < final(self).lasers@.len() ==> {
                    &&& (#[trigger] final(self).lasers@[i]).position.x == old(self).lasers@[i].position.x
                        + old(self).lasers@[i].velocity.x
                    &&& final(self).lasers@[i].position.y == old(self).lasers@[i].position.y + old(
                        self,
                    ).lasers@[i].velocity.y
                    &&& final(self).lasers@[i].velocity == old(self).lasers@[i].velocity
                    &&& final(self).lasers@[i].collided == old(self).lasers@[i].collided
                    &&& final(self).lasers@[i].in_flight()
                },
            final(self).asteroids@.len() == old(self).asteroids@.len(),
            forall|i: int|
                0 <= i < final(self).asteroids@.len() ==> {
                    &&& (#[trigger] final(self).asteroids@[i]).position.x == wrap_coord(
                        old(self).asteroids@[i].position.x + old(self).asteroids@[i].velocity.x,
                        bounds.width as int,
                    )
                    &&& final(self).asteroids@[i].position.y == wrap_coord(
                        old(self).asteroids@[i].position.y + old(self).asteroids@[i].velocity.y,
                        bounds.height as int,
                    )
                    &&& 0 <= final(self).asteroids@[i].position.x <= bounds.width
                    &&& 0 <= final(self).asteroids@[i].position.y <= bounds.height
                    &&& final(self).asteroids@[i].velocity == old(self).asteroids@[i].velocity
                    &&& final(self).asteroids@[i].rotation == old(self).asteroids@[i].rotation
                    &&& final(self).asteroids@[i].lives == old(self).asteroids@[i].lives
                    &&& final(self).asteroids@[i].wf()
                },
            final(self).player.position.x == wrap_coord(
                old(self).player.position.x + old(self).player.velocity.x,
                bounds.width as int,
            ),
            final(self).player.position.y == wrap_coord(
                old(self).player.position.y + old(self).player.velocity.y,
                bounds.height as int,
            ),
            0 <= final(self).player.position.x <= bounds.width,
            0 <= final(self).player.position.y <= bounds.height,
            final(self).player.heading == old(self).player.heading,
            final(self).player.velocity == old(self).player.velocity,
            final(self).player.thrusting == old(self).player.thrusting,
            final(self).player.lives == old(self).player.lives,
            final(self).player.wf(),
            final(self).level == old(self).level,
            final(self).score == old(self).score,
            final(self).filled == old(self).filled,
    {
        let ghost entry_l = self.lasers@;
        let mut i: usize = 0;
        while i < self.lasers.len()
            invariant
                i <= self.lasers@.len(),
                entry_l == old(self).lasers@,
                self.lasers@.len() == entry_l.len(),
                forall|j: int| 0 <= j < entry_l.len() ==> (#[trigger] entry_l[j]).wf(),
                forall|j: int|
                    i <= j < self.lasers@.len() ==> (#[trigger] self.lasers@[j]) == entry_l[j],
                forall|j: int|
                    0 <= j < i ==> {
                        &&& (#[trigger] self.lasers@[j]).position.x == entry_l[j].position.x
                            + entry_l[j].velocity.x
                        &&& self.lasers@[j].position.y == entry_l[j].position.y
                            + entry_l[j].velocity.y
                        &&& self.lasers@[j].velocity == entry_l[j].velocity
                        &&& self.lasers@[j].collided == entry_l[j].collided
                        &&& self.lasers@[j].in_flight()
                    },
                self.asteroids@ == old(self).asteroids@,
                self.player == old(self).player,
                self.level == old(self).level,
                self.score == old(self).score,
                self.filled == old(self).filled,
            decreases self.lasers@.len() - i,
        {
            let mut laser = self.lasers[i];
            laser.update();
            self.lasers.set(i, laser);
            i = i + 1;
        }
        let ghost entry_a = self.asteroids@;
        let mut i: usize = 0;
        while i < self.asteroids.len()
            invariant
                i <= self.asteroids@.len(),
                bounds.wf(),
                entry_l == old(self).lasers@,
                entry_a == old(self).asteroids@,
                self.lasers@.len() == entry_l.len(),
                forall|j: int|
                    0 <= j < self.lasers@.len() ==> {
                        &&& (#[trigger] self.lasers@[j]).position.x == entry_l[j].position.x
                            + entry_l[j].velocity.x
                        &&& self.lasers@[j].position.y == entry_l[j].position.y
                            + entry_l[j].velocity.y
                        &&& self.lasers@[j].velocity == entry_l[j].velocity
                        &&& self.lasers@[j].collided == entry_l[j].collided
                        &&& self.lasers@[j].in_flight()
                    },
                self.asteroids@.len() == entry_a.len(),
                forall|j: int| 0 <= j < entry_a.len() ==> (#[trigger] entry_a[j]).wf(),
                forall|j: int|
                    i <= j < self.asteroids@.len() ==> (#[trigger] self.asteroids@[j])
                        == entry_a[j],
                forall|j: int|
                    0 <= j < i ==> {
                        &&& (#[trigger] self.asteroids@[j]).position.x == wrap_coord(
                            entry_a[j].position.x + entry_a[j].velocity.x,
                            bounds.width as int,
                        )
                        &&& self.asteroids@[j].position.y == wrap_coord(
                            entry_a[j].position.y + entry_a[j].velocity.y,
                            bounds.height as int,
                        )
                        &&& 0 <= self.asteroids@[j].position.x <= bounds.width
                        &&& 0 <= self.asteroids@[j].position.y <= bounds.height
                        &&& self.asteroids@[j].velocity == entry_a[j].velocity
                        &&& self.asteroids@[j].rotation == entry_a[j].rotation
                        &&& self.asteroids@[j].lives == entry_a[j].lives
                        &&& self.asteroids@[j].wf()
                    },
                self.player == old(self).player,
                self.level == old(self).level,
                self.score == old(self).score,
                self.filled == old(self).filled,
            decreases self.asteroids@.len() - i,
        {
            let mut asteroid = self.asteroids[i];
            asteroid.update(bounds);
            self.asteroids.set(i, asteroid);
            i = i + 1;
        }
        self.player.update(bounds);
    }

    /// The end-of-frame cull: fully exploded asteroids (no lives left) are
    /// removed, and so are lasers that drifted off screen or were consumed
    /// by a hit.  The survivors keep their order.
    pub fn cleanup(&mut self, bounds: &Bounds)
        requires
            bounds.wf(),
            forall|i: int|
                0 <= i < old(self).asteroids@.len() ==> (#[trigger] old(self).asteroids@[i]).wf()
                    && old(self).asteroids@[i].lives <= 3,
            forall|i: int|
                0 <= i < old(self).lasers@.len() ==> (#[trigger] old(self).lasers@[i]).in_flight(),
        ensures
            final(self).asteroids@ == live_asteroids(old(self).asteroids@),
            final(self).lasers@ == kept_lasers(old(self).lasers@, *bounds),
            forall|i: int|
                0 <= i < final(self).asteroids@.len() ==> (
                #[trigger] final(self).asteroids@[i]).wf() && 1 <= final(self).asteroids@[i].lives
                    <= 3,
            forall|i: int|
                0 <= i < final(self).lasers@.len() ==> (#[trigger] final(self).lasers@[i]).wf()
                    && !final(self).lasers@[i].collided,
            final(self).player == old(self).player,
            final(self).level == old(self).level,
            final(self).score == old(self).score,
            final(self).filled == old(self).filled,
    {
        let ghost entry_a = self.asteroids@;
        let mut kept_a: Vec<Asteroid> = Vec::new();
        let mut i: usize = 0;
        while i < self.asteroids.len()
            invariant
                entry_a == old(self).asteroids@,
                self.asteroids@ == entry_a,
                i <= entry_a.len(),
                forall|j: int|
                    0 <= j < entry_a.len() ==> (#[trigger] entry_a[j]).wf() && entry_a[j].lives
                        <= 3,
                kept_a@ == live_asteroids(entry_a.subrange(0, i as int)),
                forall|j: int|
                    0 <= j < kept_a@.len() ==> (#[trigger] kept_a@[j]).wf() && 1
                        <= kept_a@[j].lives <= 3,
            decreases entry_a.len() - i,
        {
            let a = self.asteroids[i];
            proof {
                assert(entry_a.subrange(0, i + 1 as int).drop_last() =~= entry_a.subrange(
                    0,
                    i as int,
                ));
                assert(entry_a.subrange(0, i + 1 as int).last() == entry_a[i as int]);
            }
            if a.lives >= 1 {
                kept_a.push(a);
            }
            i = i + 1;
        }
        proof {
            assert(entry_a.subrange(0, entry_a.len() as int) =~= entry_a);
        }
        self.asteroids = kept_a;
        let ghost entry_l = self.lasers@;
        let mut kept_l: Vec<Laser> = Vec::new();
        let mut i: usize = 0;
        while i < self.lasers.len()
            invariant
                entry_l == old(self).lasers@,
                self.lasers@ == entry_l,
                bounds.wf(),
                i <= entry_l.len(),
                forall|j: int| 0 <= j < entry_l.len() ==> (#[trigger] entry_l[j]).in_flight(),
                kept_l@ == kept_lasers(entry_l.subrange(0, i as int), *bounds),
                forall|j: int|
                    0 <= j < kept_l@.len() ==> (#[trigger] kept_l@[j]).wf()
                        && !kept_l@[j].collided,
            decreases entry_l.len() - i,
        {
            let l = self.lasers[i];
            proof {
                assert(entry_l.subrange(0, i + 1 as int).drop_last() =~= entry_l.subrange(
                    0,
                    i as int,
                ));
                assert(entry_l.subrange(0, i + 1 as int).last() == entry_l[i as int]);
            }
            if l.on_screen(bounds) && !l.collided {
                kept_l.push(l);
            }
            i = i + 1;
        }
        proof {
            assert(entry_l.subrange(0, entry_l.len() as int) =~= entry_l);
        }
        self.lasers = kept_l;
    }

    /// One full simulation step of the playing phase, in a fixed order:
    /// apply the input intents to the ship, advance every entity,
    /// resolve laser hits (splitting and scoring) and asteroid deflections,
    /// test the ship's hull, and cull what the frame consumed.  The score
    /// never decreases, and grows by exactly `level * 10` per hit until the
    /// counter's saturation point, which real play never reaches.  The step
    /// ends cleared exactly when no asteroid survived the frame.
    pub fn tick(&mut self, input: &Input, bounds: &Bounds) -> (r: TickReport)
        requires
            old(self).wf(),
            bounds.wf(),
            old(self).asteroids@.len() <= 100_000_000,
        ensures
            final(self).wf(),
            tick_rel(*old(self), *final(self), r, *input, *bounds),
            final(self).filled == old(self).filled,
            -SPEED_OF_LIGHT <= final(self).player.velocity.x <= SPEED_OF_LIGHT,
            -SPEED_OF_LIGHT <= final(self).player.velocity.y <= SPEED_OF_LIGHT,
    {
        let ghost entry_score = self.score as int;
        let ghost entry_level = self.level as int;
        self.apply_input(input);
        proof {
            if input.fire {
                let f = fired_laser(old(self).player, *input);
                assert(self.lasers@.last().velocity.x == f.velocity.x as int
                    && self.lasers@.last().velocity.y == f.velocity.y as int);
                assert(self.lasers@.last() == f);
                assert(self.lasers@ =~= old(self).lasers@.push(f));
            }
        }
        let ghost l0 = self.lasers@;
        self.advance_entities(bounds);
        let ghost l1 = self.lasers@;
        let ghost a1 = self.asteroids@;
        proof {
            lemma_total_lives_bounds(self.asteroids@);
            assert(lasers_flown(l0, l1));
            assert(asteroids_flown(old(self).asteroids@, a1, *bounds));
        }
        let mut children: Vec<Asteroid> = Vec::new();
        let hits = resolve_laser_hits(&mut self.lasers, &mut self.asteroids, &mut children);
        let ghost l2 = self.lasers@;
        let ghost a2 = self.asteroids@;
        resolve_bounces(&mut self.asteroids);
        let ghost a3 = self.asteroids@;
        let ghost ch = children@;
        proof {
            assert(hit_pass(l1, l2, a1, a2, hits as int));
            assert(bounce_pass(a2, a3));
            assert(children_ok(ch, hits as int));
        }
        let ghost mid = *self;
        let mut scored: u32 = 0;
        while scored < hits
            invariant
                scored <= hits,
                self.score as int == iter_score(entry_score, entry_level, scored as int),
                0 <= entry_score <= u32::MAX,
                self.level as int == entry_level,
                1 <= self.level <= MAX_LEVEL,
                self.player == mid.player,
                self.lasers@ == mid.lasers@,
                self.asteroids@ == mid.asteroids@,
                self.filled == mid.filled,
            decreases hits - scored,
        {
            self.increment_score();
            scored = scored + 1;
        }
        let mut ci: usize = 0;
        while ci < children.len()
            invariant
                ci <= children@.len(),
                children@ == ch,
                forall|i: int|
                    0 <= i < children@.len() ==> (#[trigger] children@[i]).wf() && 1
                        <= children@[i].lives <= 2,
                self.player == mid.player,
                self.lasers@ == mid.lasers@,
                self.level as int == entry_level,
                self.filled == mid.filled,
                self.score as int == iter_score(entry_score, entry_level, hits as int),
                self.asteroids@.len() == mid.asteroids@.len() + ci,
                self.asteroids@ == mid.asteroids@ + children@.subrange(0, ci as int),
                forall|i: int|
                    0 <= i < mid.asteroids@.len() ==> self.asteroids@[i] == mid.asteroids@[i],
                forall|i: int|
                    mid.asteroids@.len() <= i < self.asteroids@.len() ==> (
                    #[trigger] self.asteroids@[i]).wf() && self.asteroids@[i].lives <= 3,
            decreases children@.len() - ci,
        {
            self.asteroids.push(children[ci]);
            proof {
                assert(self.asteroids@ =~= mid.asteroids@ + children@.subrange(0, ci + 1 as int));
            }
            ci = ci + 1;
        }
        proof {
            assert forall|i: int| 0 <= i < self.asteroids@.len() implies (
            #[trigger] self.asteroids@[i]).wf() && self.asteroids@[i].lives <= 3 by {
                if i < mid.asteroids@.len() {
                    assert(self.asteroids@[i] == mid.asteroids@[i]);
                }
            }
        }
        let destroyed = check_ship_hit(&self.player, &self.asteroids);
        let ghost pre = self.asteroids@;
        let ghost pilot = self.player;
        proof {
            assert(children@.subrange(0, children@.len() as int) =~= ch);
            assert(pre == a3 + ch);
        }
        self.cleanup(bounds);
        proof {
            lemma_iter_score(entry_score, entry_level, hits as int);
            let live = live_asteroids(pre);
            lemma_live_asteroids_membership(pre);
            if destroyed {
                let j = choose|j: int|
                    0 <= j < pre.len() && (#[trigger] pre[j]).lives >= 1 && player_hits(
                        pilot,
                        pre[j],
                    );
                assert(live.contains(pre[j]));
                let k = choose|k: int| 0 <= k < live.len() && live[k] == pre[j];
                assert(0 <= k < self.asteroids@.len() && player_hits(pilot, self.asteroids@[k]));
            } else {
                assert forall|k: int| 0 <= k < self.asteroids@.len() implies !player_hits(
                    pilot,
                    #[trigger] self.asteroids@[k],
                ) by {
                    assert(pre.contains(live[k]));
                    let j = choose|j: int| 0 <= j < pre.len() && pre[j] == live[k];
                    assert(self.asteroids@[k].lives >= 1);
                    assert(!(pre[j].lives >= 1 && player_hits(pilot, pre[j])));
                }
            }
        }
        let outcome = if self.asteroids.len() == 0 {
            TickOutcome::LevelCleared
        } else if destroyed {
            TickOutcome::Destroyed
        } else {
            TickOutcome::Continue
        };
        let ghost trace = TickTrace {
            input_lasers: l0,
            flown_lasers: l1,
            hit_lasers: l2,
            flown_asteroids: a1,
            hit_asteroids: a2,
            bounced_asteroids: a3,
            children: ch,
        };
        TickReport { outcome, hits, fired: input.fire, trace: Ghost(trace) }
    }
}

impl Default for World {
    /// A fresh session on the default viewport.
    fn default() -> (w: World)
        ensures
            w.wf(),
            w.level == 1,
            w.score == 0,
    {
        World::new(&Bounds::default())
    }
}

/// The score after one hit on the given level: up by `level * 10`,
/// saturating at the top of the score's type.
pub open spec fn saturating_score(score: int, level: int) -> int {
    if score + level * 10 <= u32::MAX {
        score + level * 10
    } else {
        u32::MAX as int
    }
}

/// The score after `k` hits on the given level.
pub open spec fn iter_score(score: int, level: int, k: int) -> int
    decreases k,
{
    if k <= 0 {
        score
    } else {
        saturating_score(iter_score(score, level, k - 1), level)
    }
}

/// Scoring never decreases, and while the saturation point is out of reach
/// every hit adds exactly `level * 10`.
pub proof fn lemma_iter_score(score: int, level: int, k: int)
    requires
        0 <= score <= u32::MAX,
        0 <= level,
        0 <= k,
    ensures
        iter_score(score, level, k) >= score,
        iter_score(score, level, k) <= u32::MAX,
        score + k * (level * 10) <= u32::MAX ==> iter_score(score, level, k) == score + k * (level
            * 10),
    decreases k,
{
    if k > 0 {
        lemma_iter_score(score, level, k - 1);
        assert((k - 1) * (level * 10) == k * (level * 10) - level * 10) by (nonlinear_arith);
        assert(k * (level * 10) >= level * 10 >= 0) by (nonlinear_arith)
            requires
                k >= 1,
                level >= 0,
        ;
    } else {
        assert(k * (level * 10) == 0) by (nonlinear_arith)
            requires
                k == 0,
        ;
    }
}

/// The sum of the lives of a field of asteroids.
pub open spec fn total_lives(s: Seq<Asteroid>) -> int
    decreases s.len(),
{
    if s.len() == 0 {
        0
    } else {
        total_lives(s.drop_last()) + s.last().lives
    }
}

/// The lives sum is nonnegative, and bounded by three per asteroid when
/// every asteroid holds at most three lives.
pub proof fn lemma_total_lives_bounds(s: Seq<Asteroid>)
    ensures
        total_lives(s) >= 0,
        (forall|i: int| 0 <= i < s.len() ==> (#[trigger] s[i]).lives <= 3) ==> total_lives(s) <= 3
            * s.len(),
    decreases s.len(),
{
    if s.len() > 0 {
        lemma_total_lives_bounds(s.drop_last());
    }
}

/// Updating one asteroid shifts the lives sum by the difference of that
/// asteroid's lives.
pub proof fn lemma_total_lives_update(s: Seq<Asteroid>, i: int, a: Asteroid)
    requires
        0 <= i < s.len(),
    ensures
        total_lives(s.update(i, a)) == total_lives(s) - s[i].lives + a.lives,
    decreases s.len(),
{
    if i == s.len() - 1 {
        assert(s.update(i, a).drop_last() =~= s.drop_last());
        assert(s.update(i, a).last() == a);
    } else {
        lemma_total_lives_update(s.drop_last(), i, a);
        assert(s.update(i, a).drop_last() =~= s.drop_last().update(i, a));
        assert(s.update(i, a).last() == s.last());
    }
}

/// How many split children one asteroid owes after a pass: one per life
/// taken, except that the hit that takes the last life spawns nothing.
pub open spec fn owed_children(pre_lives: int, post_lives: int) -> int {
    (pre_lives - post_lives) - if post_lives == 0 && pre_lives >= 1 {
        1int
    } else {
        0int
    }
}

/// How many split children the whole field owes after a pass.
pub open spec fn children_owed(pre: Seq<Asteroid>, post: Seq<Asteroid>) -> int
    recommends
        pre.len() == post.len(),
    decreases pre.len(),
{
    if pre.len() == 0 {
        0
    } else {
        children_owed(pre.drop_last(), post.drop_last()) + owed_children(
            pre.last().lives as int,
            post.last().lives as int,
        )
    }
}

/// An untouched field owes no children.
proof fn lemma_children_owed_refl(s: Seq<Asteroid>)
    ensures
        children_owed(s, s) == 0,
    decreases s.len(),
{
    if s.len() > 0 {
        lemma_children_owed_refl(s.drop_last());
    }
}

/// Updating one asteroid of the post field shifts the owed-children count
/// by that asteroid's difference.
proof fn lemma_children_owed_update(pre: Seq<Asteroid>, post: Seq<Asteroid>, j: int, a: Asteroid)
    requires
        pre.len() == post.len(),
        0 <= j < post.len(),
    ensures
        children_owed(pre, post.update(j, a)) == children_owed(pre, post) - owed_children(
            pre[j].lives as int,
            post[j].lives as int,
        ) + owed_children(pre[j].lives as int, a.lives as int),
    decreases pre.len(),
{
    if j == pre.len() - 1 {
        assert(post.update(j, a).drop_last() =~= post.drop_last());
        assert(post.update(j, a).last() == a);
    } else {
        lemma_children_owed_update(pre.drop_last(), post.drop_last(), j, a);
        assert(post.update(j, a).drop_last() =~= post.drop_last().update(j, a));
        assert(post.update(j, a).last() == post.last());
    }
}

/// The heading after the frame's rotation intent: a held right rotation
/// wins over a held left one, matching the order the keys are polled in;
/// a rotation step is renormalized, an idle frame leaves the heading alone.
pub open spec fn heading_after(h: Vec2i, input: Input) -> (int, int) {
    if input.rotate_right {
        renorm_spec(rot_right_spec(h).0, rot_right_spec(h).1)
    } else if input.rotate_left {
        renorm_spec(rot_left_spec(h).0, rot_left_spec(h).1)
    } else {
        (h.x as int, h.y as int)
    }
}

/// The ship's velocity after the frame's thrust intent: unchanged while
/// coasting, else one thrust step along the new heading, clamped per axis.
pub open spec fn velocity_after(p: Player, input: Input) -> (int, int) {
    if input.thrust {
        (
            clamp_spec(
                p.velocity.x + tdiv(heading_after(p.heading, input).0 * SHIP_THRUST, DIR_ONE as int),
                -SPEED_OF_LIGHT as int,
                SPEED_OF_LIGHT as int,
            ),
            clamp_spec(
                p.velocity.y - tdiv(heading_after(p.heading, input).1 * SHIP_THRUST, DIR_ONE as int),
                -SPEED_OF_LIGHT as int,
                SPEED_OF_LIGHT as int,
            ),
        )
    } else {
        (p.velocity.x as int, p.velocity.y as int)
    }
}

/// The laser a fire intent appends: at the ship's position, along the new
/// heading, at laser speed, unconsumed.
pub open spec fn fired_laser(p: Player, input: Input) -> Laser {
    Laser {
        position: p.position,
        velocity: Vec2i {
            x: tdiv(heading_after(p.heading, input).0 * LASER_SPEED, DIR_ONE as int) as i64,
            y: (-tdiv(heading_after(p.heading, input).1 * LASER_SPEED, DIR_ONE as int)) as i64,
        },
        collided: false,
    }
}

/// One flight step of every laser: each drifts by its velocity, nothing
/// else changes, and none is added or removed.
pub open spec fn lasers_flown(pre: Seq<Laser>, post: Seq<Laser>) -> bool {
    &&& post.len() == pre.len()
    &&& forall|i: int|
        0 <= i < pre.len() ==> {
            &&& (#[trigger] post[i]).position.x == pre[i].position.x + pre[i].velocity.x
            &&& post[i].position.y == pre[i].position.y + pre[i].velocity.y
            &&& post[i].velocity == pre[i].velocity
            &&& post[i].collided == pre[i].collided
        }
}

/// One flight step of every asteroid: each drifts by its velocity and wraps
/// to the viewport, nothing else changes, and none is added or removed.
pub open spec fn asteroids_flown(pre: Seq<Asteroid>, post: Seq<Asteroid>, bounds: Bounds) -> bool {
    &&& post.len() == pre.len()
    &&& forall|i: int|
        0 <= i < pre.len() ==> {
            &&& (#[trigger] post[i]).position.x == wrap_coord(
                pre[i].position.x + pre[i].velocity.x,
                bounds.width as int,
            )
            &&& post[i].position.y == wrap_coord(
                pre[i].position.y + pre[i].velocity.y,
                bounds.height as int,
            )
            &&& post[i].velocity == pre[i].velocity
            &&& post[i].rotation == pre[i].rotation
            &&& post[i].lives == pre[i].lives
        }
}

/// The laser-asteroid collision pass, relationally: lasers keep their
/// motion and only gain the consumed flag, asteroids keep their place and
/// motion and only lose lives, and the hit count is exactly the lives taken
/// from the field.  The flag is tied to the geometry both ways: a laser is
/// newly consumed only where it sat inside a live asteroid's circle, a
/// laser left inside a still-live asteroid's (final, smallest) circle is
/// always consumed, and each newly consumed laser accounts for at least one
/// hit.
pub open spec fn hit_pass(
    l_pre: Seq<Laser>,
    l_post: Seq<Laser>,
    a_pre: Seq<Asteroid>,
    a_post: Seq<Asteroid>,
    hits: int,
) -> bool {
    &&& l_post.len() == l_pre.len()
    &&& forall|i: int| 0 <= i < l_pre.len() ==> laser_evolves(l_pre[i], #[trigger] l_post[i])
    &&& a_post.len() == a_pre.len()
    &&& forall|i: int| 0 <= i < a_pre.len() ==> hit_evolves(a_pre[i], #[trigger] a_post[i])
    &&& hits == total_lives(a_pre) - total_lives(a_post)
    &&& forall|i: int|
        (0 <= i < l_pre.len() && (#[trigger] l_post[i]).collided && !l_pre[i].collided)
            ==> exists|j: int|
            0 <= j < a_pre.len() && (#[trigger] a_pre[j]).lives >= 1 && laser_hits(
                l_pre[i],
                a_pre[j],
            )
    &&& swept_pairs_resolved(l_post, a_post, l_post.len() as int, 0)
    &&& collided_count(l_post) - collided_count(l_pre) <= hits
}

/// The deflection pass, relationally: every asteroid keeps its place,
/// tumble and lives, and the velocities are only moved around the field;
/// when no asteroid takes part in two overlapping pairs, each overlapping
/// pair exchanges its velocities and every other asteroid keeps its own.
pub open spec fn bounce_pass(pre: Seq<Asteroid>, post: Seq<Asteroid>) -> bool {
    &&& post.len() == pre.len()
    &&& forall|i: int|
        0 <= i < pre.len() ==> {
            &&& (#[trigger] post[i]).position == pre[i].position
            &&& post[i].rotation == pre[i].rotation
            &&& post[i].lives == pre[i].lives
        }
    &&& velocities(post).to_multiset() == velocities(pre).to_multiset()
    &&& (overlaps_disjoint(pre) ==> forall|i: int, j: int|
        #[trigger] distinct_overlap(pre, i, j) ==> {
            &&& post[i].velocity == pre[j].velocity
            &&& post[j].velocity == pre[i].velocity
        })
    &&& (overlaps_disjoint(pre) ==> forall|k: int|
        0 <= k < pre.len() && !in_overlap(pre, k) ==> (#[trigger] post[k]).velocity
            == pre[k].velocity)
}

/// The split children of one collision pass: at most one per hit, each a
/// well-formed asteroid one life smaller than a parent could be.
pub open spec fn children_ok(ch: Seq<Asteroid>, hits: int) -> bool {
    &&& ch.len() <= hits
    &&& forall|i: int|
        0 <= i < ch.len() ==> (#[trigger] ch[i]).wf() && 1 <= ch[i].lives <= 2
}

/// Everything one simulation step does, phase by phase, over the report's
/// ghost trace: the fire intent appends exactly the fired laser; lasers and
/// asteroids fly one step; the collision pass consumes lasers and lives and
/// collects children; the deflection pass only exchanges velocities; the
/// survivors are exactly the live asteroids (with the children appended)
/// and the on-screen unconsumed lasers.  The ship's whole frame is
/// deterministic and stated exactly; the score grows by the saturating
/// increment per hit; the step ends cleared exactly on an empty field and
/// destroyed exactly when a surviving asteroid strikes the ship's hull.
pub open spec fn tick_rel(
    pre: World,
    post: World,
    r: TickReport,
    input: Input,
    bounds: Bounds,
) -> bool {
    let t = r.trace@;
    &&& t.input_lasers == if input.fire {
        pre.lasers@.push(fired_laser(pre.player, input))
    } else {
        pre.lasers@
    }
    &&& lasers_flown(t.input_lasers, t.flown_lasers)
    &&& asteroids_flown(pre.asteroids@, t.flown_asteroids, bounds)
    &&& hit_pass(t.flown_lasers, t.hit_lasers, t.flown_asteroids, t.hit_asteroids, r.hits as int)
    &&& bounce_pass(t.hit_asteroids, t.bounced_asteroids)
    &&& children_ok(t.children, r.hits as int)
    &&& t.children.len() == children_owed(t.flown_asteroids, t.hit_asteroids)
    &&& post.lasers@ == kept_lasers(t.hit_lasers, bounds)
    &&& post.asteroids@ == live_asteroids(t.bounced_asteroids + t.children)
    &&& (post.player.heading.x as int, post.player.heading.y as int) == heading_after(
        pre.player.heading,
        input,
    )
    &&& (post.player.velocity.x as int, post.player.velocity.y as int) == velocity_after(
        pre.player,
        input,
    )
    &&& post.player.position.x == wrap_coord(
        pre.player.position.x + velocity_after(pre.player, input).0,
        bounds.width as int,
    )
    &&& post.player.position.y == wrap_coord(
        pre.player.position.y + velocity_after(pre.player, input).1,
        bounds.height as int,
    )
    &&& post.player.thrusting == input.thrust
    &&& post.player.lives == pre.player.lives
    &&& post.level == pre.level
    &&& post.score as int == iter_score(pre.score as int, pre.level as int, r.hits as int)
    &&& post.score >= pre.score
    &&& (pre.score + r.hits * (pre.level * 10) <= u32::MAX ==> post.score == pre.score + r.hits * (
    pre.level * 10))
    &&& r.fired == input.fire
    &&& ((r.outcome == TickOutcome::LevelCleared) <==> post.asteroids@.len() == 0)
    &&& ((r.outcome == TickOutcome::Destroyed) <==> (post.asteroids@.len() > 0 && exists|i: int|
        0 <= i < post.asteroids@.len() && player_hits(post.player, #[trigger] post.asteroids@[i])))
    &&& forall|i: int| 0 <= i < post.lasers@.len() ==> !(#[trigger] post.lasers@[i]).collided
}

/// How one laser-asteroid collision pass may change an asteroid: it keeps
/// its place and motion and can only lose lives.
pub open spec fn hit_evolves(pre: Asteroid, post: Asteroid) -> bool {
    &&& post.position == pre.position
    &&& post.velocity == pre.velocity
    &&& post.rotation == pre.rotation
    &&& post.lives <= pre.lives
    &&& post.wf()
}

/// How one laser-asteroid collision pass may change a laser: it keeps its
/// motion and its consumed flag is only ever set, never cleared.
pub open spec fn laser_evolves(pre: Laser, post: Laser) -> bool {
    &&& post.position == pre.position
    &&& post.velocity == pre.velocity
    &&& (pre.collided ==> post.collided)
    &&& post.in_flight()
}

/// How many lasers carry the consumed flag.
pub open spec fn collided_count(s: Seq<Laser>) -> int
    decreases s.len(),
{
    if s.len() == 0 {
        0
    } else {
        collided_count(s.drop_last()) + if s.last().collided {
            1int
        } else {
            0int
        }
    }
}

/// Updating one laser shifts the consumed count by that laser's flag.
proof fn lemma_collided_count_update(s: Seq<Laser>, i: int, l: Laser)
    requires
        0 <= i < s.len(),
    ensures
        collided_count(s.update(i, l)) == collided_count(s) - (if s[i].collided {
            1int
        } else {
            0int
        }) + (if l.collided {
            1int
        } else {
            0int
        }),
    decreases s.len(),
{
    if i == s.len() - 1 {
        assert(s.update(i, l).drop_last() =~= s.drop_last());
        assert(s.update(i, l).last() == l);
    } else {
        lemma_collided_count_update(s.drop_last(), i, l);
        assert(s.update(i, l).drop_last() =~= s.drop_last().update(i, l));
        assert(s.update(i, l).last() == s.last());
    }
}

/// A laser inside a smaller asteroid's circle is inside the circle of any
/// asteroid at the same place with at least as many lives.
proof fn lemma_laser_hits_monotone(l: Laser, small: Asteroid, big: Asteroid)
    requires
        small.position == big.position,
        small.lives <= big.lives,
        laser_hits(l, small),
    ensures
        laser_hits(l, big),
{
    assert((0 + radius_spec(small.lives)) * (0 + radius_spec(small.lives)) <= (0 + radius_spec(
        big.lives,
    )) * (0 + radius_spec(big.lives))) by (nonlinear_arith)
        requires
            0 <= radius_spec(small.lives) <= radius_spec(big.lives),
    ;
}

/// Every laser-asteroid pair the pass has swept so far is resolved: the
/// laser carries the consumed flag, or it is outside that asteroid's (live)
/// collision circle.
pub open spec fn swept_pairs_resolved(
    lasers: Seq<Laser>,
    asteroids: Seq<Asteroid>,
    li: int,
    ai: int,
) -> bool {
    forall|i: int, j: int|
        #![trigger lasers[i], asteroids[j]]
        (0 <= i < lasers.len() && 0 <= j < asteroids.len() && (i < li || (i == li && j < ai)) && (
        asteroids[j]).lives >= 1 && laser_hits(lasers[i], asteroids[j])) ==> lasers[i].collided
}

/// The asteroids that survive the frame: exactly those with a life left,
/// in order.
pub open spec fn live_asteroids(s: Seq<Asteroid>) -> Seq<Asteroid>
    decreases s.len(),
{
    if s.len() == 0 {
        Seq::empty()
    } else {
        let rest = live_asteroids(s.drop_last());
        if s.last().lives >= 1 {
            rest.push(s.last())
        } else {
            rest
        }
    }
}

/// The surviving field holds exactly the live asteroids: every survivor
/// comes from the field, and every live asteroid of the field survives.
pub proof fn lemma_live_asteroids_membership(s: Seq<Asteroid>)
    ensures
        forall|k: int|
            0 <= k < live_asteroids(s).len() ==> #[trigger] s.contains(live_asteroids(s)[k]),
        forall|j: int|
            0 <= j < s.len() && (#[trigger] s[j]).lives >= 1 ==> live_asteroids(s).contains(s[j]),
    decreases s.len(),
{
    if s.len() > 0 {
        let d = s.drop_last();
        lemma_live_asteroids_membership(d);
        assert forall|k: int| 0 <= k < live_asteroids(s).len() implies #[trigger] s.contains(
            live_asteroids(s)[k],
        ) by {
            let e = live_asteroids(s)[k];
            if k < live_asteroids(d).len() {
                assert(d.contains(e));
                let j = choose|j: int| 0 <= j < d.len() && d[j] == e;
                assert(s[j] == e);
            } else {
                assert(e == s.last());
                assert(s[s.len() - 1] == e);
            }
        }
        assert forall|j: int| 0 <= j < s.len() && (#[trigger] s[j]).lives >= 1 implies
            live_asteroids(s).contains(s[j]) by {
            if j < s.len() - 1 {
                assert(d[j] == s[j]);
                assert(live_asteroids(d).contains(s[j]));
                let k = choose|k: int| 0 <= k < live_asteroids(d).len() && live_asteroids(d)[k]
                    == s[j];
                assert(live_asteroids(s)[k] == s[j]);
            } else {
                assert(live_asteroids(s).last() == s[j]);
            }
        }
    }
}

/// The lasers that survive the frame: exactly those still strictly on
/// screen and not consumed by a hit, in order.
pub open spec fn kept_lasers(s: Seq<Laser>, bounds: Bounds) -> Seq<Laser>
    decreases s.len(),
{
    if s.len() == 0 {
        Seq::empty()
    } else {
        let rest = kept_lasers(s.drop_last(), bounds);
        if 0 < s.last().position.x < bounds.width && 0 < s.last().position.y < bounds.height
            && !s.last().collided {
            rest.push(s.last())
        } else {
            rest
        }
    }
}

/// The laser-asteroid collision pass.  Every laser is tested against every
/// asteroid still alive at that moment, in order; each hit consumes the
/// laser's collided flag, takes one life from the asteroid (shrinking its
/// collision circle for the tests that follow), and collects the split
/// child, if any.  Returns the number of hits: exactly the total number of
/// lives taken from the field.
pub fn resolve_laser_hits(
    lasers: &mut Vec<Laser>,
    asteroids: &mut Vec<Asteroid>,
    children: &mut Vec<Asteroid>,
) -> (hits: u32)
    requires
        forall|i: int| 0 <= i < old(lasers)@.len() ==> (#[trigger] old(lasers)@[i]).in_flight(),
        forall|i: int|
            0 <= i < old(asteroids)@.len() ==> {
                &&& (#[trigger] old(asteroids)@[i]).wf()
                &&& old(asteroids)@[i].lives <= 3
                &&& 0 <= old(asteroids)@[i].position.x <= MAX_BOUND
                &&& 0 <= old(asteroids)@[i].position.y <= MAX_BOUND
            },
        old(children)@.len() == 0,
        total_lives(old(asteroids)@) <= u32::MAX,
    ensures
        final(lasers)@.len() == old(lasers)@.len(),
        forall|i: int|
            0 <= i < old(lasers)@.len() ==> laser_evolves(
                old(lasers)@[i],
                #[trigger] final(lasers)@[i],
            ),
        final(asteroids)@.len() == old(asteroids)@.len(),
        forall|i: int|
            0 <= i < old(asteroids)@.len() ==> hit_evolves(
                old(asteroids)@[i],
                #[trigger] final(asteroids)@[i],
            ),
        hits == total_lives(old(asteroids)@) - total_lives(final(asteroids)@),
        final(children)@.len() <= hits,
        final(children)@.len() == children_owed(old(asteroids)@, final(asteroids)@),
        forall|i: int|
            0 <= i < final(children)@.len() ==> {
                &&& (#[trigger] final(children)@[i]).wf()
                &&& 1 <= final(children)@[i].lives <= 2
            },
        forall|i: int|
            (0 <= i < old(lasers)@.len() && (#[trigger] final(lasers)@[i]).collided && !old(
                lasers,
            )@[i].collided) ==> exists|j: int|
                0 <= j < old(asteroids)@.len() && (#[trigger] old(asteroids)@[j]).lives >= 1
                    && laser_hits(old(lasers)@[i], old(asteroids)@[j]),
        swept_pairs_resolved(final(lasers)@, final(asteroids)@, final(lasers)@.len() as int, 0),
        collided_count(final(lasers)@) - collided_count(old(lasers)@) <= hits,
{
    let ghost entry_l = lasers@;
    let ghost entry_a = asteroids@;
    proof {
        lemma_total_lives_bounds(asteroids@);
        lemma_children_owed_refl(asteroids@);
    }
    let mut hits: u32 = 0;
    let mut li: usize = 0;
    while li < lasers.len()
        invariant
            entry_l == old(lasers)@,
            entry_a == old(asteroids)@,
            li <= lasers@.len(),
            lasers@.len() == entry_l.len(),
            forall|i: int|
                0 <= i < entry_l.len() ==> laser_evolves(entry_l[i], #[trigger] lasers@[i]),
            asteroids@.len() == entry_a.len(),
            forall|i: int|
                0 <= i < entry_a.len() ==> {
                    &&& hit_evolves(entry_a[i], #[trigger] asteroids@[i])
                    &&& 0 <= asteroids@[i].position.x <= MAX_BOUND
                    &&& 0 <= asteroids@[i].position.y <= MAX_BOUND
                    &&& entry_a[i].lives <= 3
                },
            hits == total_lives(entry_a) - total_lives(asteroids@),
            total_lives(asteroids@) >= 0,
            total_lives(entry_a) <= u32::MAX,
            children@.len() <= hits,
            children@.len() == children_owed(entry_a, asteroids@),
            forall|i: int|
                0 <= i < children@.len() ==> {
                    &&& (#[trigger] children@[i]).wf()
                    &&& 1 <= children@[i].lives <= 2
                },
            swept_pairs_resolved(lasers@, asteroids@, li as int, 0),
            collided_count(lasers@) - collided_count(entry_l) <= hits,
            forall|i: int|
                (0 <= i < entry_l.len() && (#[trigger] lasers@[i]).collided
                    && !entry_l[i].collided) ==> exists|j: int|
                    0 <= j < entry_a.len() && (#[trigger] entry_a[j]).lives >= 1 && laser_hits(
                        entry_l[i],
                        entry_a[j],
                    ),
        decreases lasers@.len() - li,
    {
        let mut ai: usize = 0;
        while ai < asteroids.len()
            invariant
                entry_l == old(lasers)@,
                entry_a == old(asteroids)@,
                li < lasers@.len(),
                ai <= asteroids@.len(),
                lasers@.len() == entry_l.len(),
                forall|i: int|
                    0 <= i < entry_l.len() ==> laser_evolves(entry_l[i], #[trigger] lasers@[i]),
                asteroids@.len() == entry_a.len(),
                forall|i: int|
                    0 <= i < entry_a.len() ==> {
                        &&& hit_evolves(entry_a[i], #[trigger] asteroids@[i])
                        &&& 0 <= asteroids@[i].position.x <= MAX_BOUND
                        &&& 0 <= asteroids@[i].position.y <= MAX_BOUND
                        &&& entry_a[i].lives <= 3
                    },
                hits == total_lives(entry_a) - total_lives(asteroids@),
                total_lives(asteroids@) >= 0,
                total_lives(entry_a) <= u32::MAX,
                children@.len() <= hits,
                children@.len() == children_owed(entry_a, asteroids@),
                forall|i: int|
                    0 <= i < children@.len() ==> {
                        &&& (#[trigger] children@[i]).wf()
                        &&& 1 <= children@[i].lives <= 2
                    },
                swept_pairs_resolved(lasers@, asteroids@, li as int, ai as int),
                collided_count(lasers@) - collided_count(entry_l) <= hits,
                forall|i: int|
                    (0 <= i < entry_l.len() && (#[trigger] lasers@[i]).collided
                        && !entry_l[i].collided) ==> exists|j: int|
                        0 <= j < entry_a.len() && (#[trigger] entry_a[j]).lives >= 1 && laser_hits(
                            entry_l[i],
                            entry_a[j],
                        ),
            decreases asteroids@.len() - ai,
        {
            let a = asteroids[ai];
            if a.lives >= 1 && lasers[li].collides(&a) {
                let ghost prev_a = asteroids@;
                let ghost prev_l = lasers@;
                let ghost prev_c = children@;
                let mut a2 = a;
                split_asteroid(&mut a2, children);
                proof {
                    lemma_total_lives_update(asteroids@, ai as int, a2);
                    lemma_total_lives_bounds(asteroids@.update(ai as int, a2));
                    lemma_children_owed_update(entry_a, asteroids@, ai as int, a2);
                }
                asteroids.set(ai, a2);
                let mut l = lasers[li];
                l.collided = true;
                lasers.set(li, l);
                hits = hits + 1;
                proof {
                    assert forall|i: int| 0 <= i < entry_a.len() implies {
                        &&& hit_evolves(entry_a[i], #[trigger] asteroids@[i])
                        &&& 0 <= asteroids@[i].position.x <= MAX_BOUND
                        &&& 0 <= asteroids@[i].position.y <= MAX_BOUND
                        &&& entry_a[i].lives <= 3
                    } by {
                        if i != ai {
                            assert(asteroids@[i] == prev_a[i]);
                        }
                    }
                    assert forall|i: int| 0 <= i < entry_l.len() implies laser_evolves(
                        entry_l[i],
                        #[trigger] lasers@[i],
                    ) by {
                        if i != li {
                            assert(lasers@[i] == prev_l[i]);
                        }
                    }
                    if a.lives > 1 {
                        assert forall|i: int| 0 <= i < children@.len() implies {
                            &&& (#[trigger] children@[i]).wf()
                            &&& 1 <= children@[i].lives <= 2
                        } by {
                            if i < children@.len() - 1 {
                                assert(children@.drop_last()[i] == children@[i]);
                                assert(prev_c[i].wf() && 1 <= prev_c[i].lives <= 2);
                            }
                        }
                    }
                    lemma_collided_count_update(prev_l, li as int, l);
                    assert forall|i: int, j: int|
                        #![trigger lasers@[i], asteroids@[j]]
                        (0 <= i < lasers@.len() && 0 <= j < asteroids@.len() && (i < li as int || (
                        i == li as int && j < ai as int + 1)) && (asteroids@[j]).lives >= 1
                            && laser_hits(lasers@[i], asteroids@[j]))
                            implies lasers@[i].collided by {
                        if i == li as int {
                        } else {
                            assert(lasers@[i] == prev_l[i]);
                            if j == ai as int {
                                lemma_laser_hits_monotone(prev_l[i], asteroids@[j], prev_a[j]);
                                assert(prev_a[j].lives >= 1 && laser_hits(prev_l[i], prev_a[j]));
                            } else {
                                assert(asteroids@[j] == prev_a[j]);
                            }
                        }
                    }
                    assert forall|i: int|
                        (0 <= i < entry_l.len() && (#[trigger] lasers@[i]).collided
                            && !entry_l[i].collided) implies exists|j: int|
                            0 <= j < entry_a.len() && (#[trigger] entry_a[j]).lives >= 1
                                && laser_hits(entry_l[i], entry_a[j]) by {
                        if i != li as int {
                            assert(lasers@[i] == prev_l[i]);
                            assert(prev_l[i].collided);
                        } else {
                            if !entry_l[i].collided {
                                assert(entry_l[i].position == prev_l[i].position);
                                assert(laser_hits(prev_l[i], a));
                                assert(laser_hits(entry_l[i], a));
                                lemma_laser_hits_monotone(entry_l[i], a, entry_a[ai as int]);
                                assert((ai as int) < entry_a.len() && entry_a[ai as int].lives >= 1
                                    && laser_hits(entry_l[i], entry_a[ai as int]));
                            }
                        }
                    }
                }
            } else {
                proof {
                    assert forall|i: int, j: int|
                        #![trigger lasers@[i], asteroids@[j]]
                        (0 <= i < lasers@.len() && 0 <= j < asteroids@.len() && (i < li as int || (
                        i == li as int && j < ai as int + 1)) && (asteroids@[j]).lives >= 1
                            && laser_hits(lasers@[i], asteroids@[j]))
                            implies lasers@[i].collided by {
                        if i == li as int && j == ai as int {
                            assert(asteroids@[j] == a);
                            assert(!(a.lives >= 1 && laser_hits(lasers@[li as int], a)));
                        }
                    }
                }
            }
            ai = ai + 1;
        }
        proof {
            assert forall|i: int, j: int|
                #![trigger lasers@[i], asteroids@[j]]
                (0 <= i < lasers@.len() && 0 <= j < asteroids@.len() && (i < li as int + 1 || (i
                    == li as int + 1 && j < 0)) && (asteroids@[j]).lives >= 1 && laser_hits(
                    lasers@[i],
                    asteroids@[j],
                )) implies lasers@[i].collided by {
                assert(i < li as int || (i == li as int && j < asteroids@.len()));
            }
        }
        li = li + 1;
    }
    hits
}

/// Is the ship's hull struck by any live asteroid?
pub fn check_ship_hit(player: &Player, asteroids: &Vec<Asteroid>) -> (hit: bool)
    requires
        player.wf(),
        forall|i: int| 0 <= i < asteroids@.len() ==> (#[trigger] asteroids@[i]).wf(),
    ensures
        hit == exists|i: int|
            0 <= i < asteroids@.len() && (#[trigger] asteroids@[i]).lives >= 1 && player_hits(
                *player,
                asteroids@[i],
            ),
{
    let mut i: usize = 0;
    while i < asteroids.len()
        invariant
            i <= asteroids@.len(),
            player.wf(),
            forall|j: int| 0 <= j < asteroids@.len() ==> (#[trigger] asteroids@[j]).wf(),
            forall|j: int|
                0 <= j < i ==> !((#[trigger] asteroids@[j]).lives >= 1 && player_hits(
                    *player,
                    asteroids@[j],
                )),
        decreases asteroids@.len() - i,
    {
        let a = &asteroids[i];
        if a.lives >= 1 && player.collides(a) {
            return true;
        }
        i = i + 1;
    }
    false
}

/// The velocity of each asteroid in the field, in order.
pub open spec fn velocities(s: Seq<Asteroid>) -> Seq<Vec2i> {
    s.map_values(|a: Asteroid| a.velocity)
}

/// An ordered pair of asteroids at distinct positions whose collision
/// circles intersect: the pairs the deflection pass acts on.
pub open spec fn distinct_overlap(s: Seq<Asteroid>, i: int, j: int) -> bool {
    &&& 0 <= i < j < s.len()
    &&& s[i].position != s[j].position
    &&& asteroid_overlap(s[i], s[j])
}

/// Exactly one pair of the field overlaps at distinct positions.
pub open spec fn only_overlap(s: Seq<Asteroid>, i: int, j: int) -> bool {
    &&& distinct_overlap(s, i, j)
    &&& forall|p: int, q: int| #[trigger] distinct_overlap(s, p, q) ==> p == i && q == j
}

/// No asteroid takes part in two different overlapping pairs: the
/// deflection sweep then touches each colliding slot exactly once.
pub open spec fn overlaps_disjoint(s: Seq<Asteroid>) -> bool {
    forall|i: int, j: int, p: int, q: int|
        #[trigger] distinct_overlap(s, i, j) && #[trigger] distinct_overlap(s, p, q) && !(i == p
            && j == q) ==> i != p && i != q && j != p && j != q
}

/// Index `k` takes part in some overlapping pair at distinct positions.
pub open spec fn in_overlap(s: Seq<Asteroid>, k: int) -> bool {
    exists|i: int, j: int| #[trigger] distinct_overlap(s, i, j) && (k == i || k == j)
}

/// The deflection sweep's progress at scan position `(i, j)`: every
/// overlapping pair before it in the scan order has exchanged velocities,
/// every pair at or after it still holds its entry velocities, and an
/// asteroid in no overlapping pair keeps its velocity throughout.  This
/// describes the sweep when the overlapping pairs are disjoint, so that no
/// slot is touched twice.
spec fn sweep_mid(pre: Seq<Asteroid>, cur: Seq<Asteroid>, i: int, j: int) -> bool {
    &&& forall|p: int, q: int|
        #[trigger] distinct_overlap(pre, p, q) ==> if p < i || (p == i && q < j) {
            cur[p].velocity == pre[q].velocity && cur[q].velocity == pre[p].velocity
        } else {
            cur[p].velocity == pre[p].velocity && cur[q].velocity == pre[q].velocity
        }
    &&& forall|k: int|
        0 <= k < pre.len() && !in_overlap(pre, k) ==> (#[trigger] cur[k]).velocity
            == pre[k].velocity
}

/// The velocities of `i` and `j` are exchanged, all others are kept.
pub open spec fn vel_swapped(pre: Seq<Asteroid>, post: Seq<Asteroid>, i: int, j: int) -> bool {
    &&& post.len() == pre.len()
    &&& post[i].velocity == pre[j].velocity
    &&& post[j].velocity == pre[i].velocity
    &&& forall|k: int|
        0 <= k < pre.len() && k != i && k != j ==> (#[trigger] post[k]).velocity
            == pre[k].velocity
}

/// Exchanging the velocities of two asteroids leaves the multiset of
/// velocities in the field unchanged.
proof fn lemma_velocities_swap(pre: Seq<Asteroid>, post: Seq<Asteroid>, i: int, j: int)
    requires
        0 <= i < j < pre.len(),
        post.len() == pre.len(),
        post[i].velocity == pre[j].velocity,
        post[j].velocity == pre[i].velocity,
        forall|k: int|
            0 <= k < pre.len() && k != i && k != j ==> (#[trigger] post[k]).velocity
                == pre[k].velocity,
    ensures
        velocities(post).to_multiset() == velocities(pre).to_multiset(),
{
    broadcast use vstd::multiset::group_multiset_axioms;
    broadcast use vstd::multiset::group_multiset_properties;

    let vp = velocities(pre);
    let vq = velocities(post);
    let m1 = vp.update(i, vp[j]);
    let m2 = m1.update(j, vp[i]);
    assert(vq =~= m2);
    vstd::seq_lib::to_multiset_update(vp, i, vp[j]);
    vstd::seq_lib::to_multiset_update(m1, j, vp[i]);
    assert(m1[j] == vp[j]);
    vp.to_multiset_ensures();
    assert(vp.contains(vp[i]));
    assert(vp.contains(vp[j]));
    assert(m2.to_multiset() =~= vp.to_multiset());
}

/// The asteroid-asteroid deflection pass: each overlapping pair at distinct
/// positions exchanges velocity vectors, an elastic-style deflection.  The
/// field keeps its positions, lives and count, and the sweep only moves the
/// velocities around; when no asteroid takes part in two overlapping pairs
/// (the common case, and in particular a single overlapping pair), every
/// overlapping pair exchanges its velocities and every other asteroid keeps
/// its own.
pub fn resolve_bounces(asteroids: &mut Vec<Asteroid>)
    requires
        forall|i: int| 0 <= i < old(asteroids)@.len() ==> (#[trigger] old(asteroids)@[i]).wf(),
    ensures
        final(asteroids)@.len() == old(asteroids)@.len(),
        forall|i: int|
            0 <= i < old(asteroids)@.len() ==> {
                &&& (#[trigger] final(asteroids)@[i]).position == old(asteroids)@[i].position
                &&& final(asteroids)@[i].rotation == old(asteroids)@[i].rotation
                &&& final(asteroids)@[i].lives == old(asteroids)@[i].lives
                &&& final(asteroids)@[i].wf()
            },
        velocities(final(asteroids)@).to_multiset() == velocities(old(asteroids)@).to_multiset(),
        overlaps_disjoint(old(asteroids)@) ==> forall|i: int, j: int|
            #[trigger] distinct_overlap(old(asteroids)@, i, j) ==> {
                &&& final(asteroids)@[i].velocity == old(asteroids)@[j].velocity
                &&& final(asteroids)@[j].velocity == old(asteroids)@[i].velocity
            },
        overlaps_disjoint(old(asteroids)@) ==> forall|k: int|
            0 <= k < old(asteroids)@.len() && !in_overlap(old(asteroids)@, k) ==> (
            #[trigger] final(asteroids)@[k]).velocity == old(asteroids)@[k].velocity,
        forall|i: int, j: int|
            #[trigger] only_overlap(old(asteroids)@, i, j) ==> vel_swapped(
                old(asteroids)@,
                final(asteroids)@,
                i,
                j,
            ),
{
    let ghost entry = asteroids@;
    let mut i: usize = 0;
    while i < asteroids.len()
        invariant
            entry == old(asteroids)@,
            i <= asteroids@.len(),
            asteroids@.len() == entry.len(),
            forall|k: int|
                0 <= k < entry.len() ==> {
                    &&& (#[trigger] asteroids@[k]).position == entry[k].position
                    &&& asteroids@[k].rotation == entry[k].rotation
                    &&& asteroids@[k].lives == entry[k].lives
                    &&& asteroids@[k].wf()
                },
            velocities(asteroids@).to_multiset() == velocities(entry).to_multiset(),
            overlaps_disjoint(entry) ==> sweep_mid(entry, asteroids@, i as int, i as int + 1),
        decreases asteroids@.len() - i,
    {
        let mut j: usize = i + 1;
        while j < asteroids.len()
            invariant
                entry == old(asteroids)@,
                i < j <= asteroids@.len() || (i >= asteroids@.len() && j >= asteroids@.len()),
                i < asteroids@.len() ==> i < j,
                asteroids@.len() == entry.len(),
                forall|k: int|
                    0 <= k < entry.len() ==> {
                        &&& (#[trigger] asteroids@[k]).position == entry[k].position
                        &&& asteroids@[k].rotation == entry[k].rotation
                        &&& asteroids@[k].lives == entry[k].lives
                        &&& asteroids@[k].wf()
                    },
                velocities(asteroids@).to_multiset() == velocities(entry).to_multiset(),
                overlaps_disjoint(entry) ==> sweep_mid(entry, asteroids@, i as int, j as int),
            decreases asteroids@.len() - j,
        {
            let a = asteroids[i];
            let b = asteroids[j];
            if (a.position.x != b.position.x || a.position.y != b.position.y) && a.collides(&b) {
                let ghost prev = asteroids@;
                let mut a2 = a;
                a2.velocity = b.velocity;
                let mut b2 = b;
                b2.velocity = a.velocity;
                asteroids.set(i, a2);
                asteroids.set(j, b2);
                proof {
                    assert forall|k: int| 0 <= k < entry.len() implies {
                        &&& (#[trigger] asteroids@[k]).position == entry[k].position
                        &&& asteroids@[k].rotation == entry[k].rotation
                        &&& asteroids@[k].lives == entry[k].lives
                        &&& asteroids@[k].wf()
                    } by {
                        if k != i && k != j {
                            assert(asteroids@[k] == prev[k]);
                        }
                    }
                    lemma_velocities_swap(prev, asteroids@, i as int, j as int);
                    assert(asteroid_overlap(entry[i as int], entry[j as int]) == asteroid_overlap(
                        prev[i as int],
                        prev[j as int],
                    ));
                    assert(distinct_overlap(entry, i as int, j as int));
                    if overlaps_disjoint(entry) {
                        assert forall|p: int, q: int|
                            #[trigger] distinct_overlap(entry, p, q) implies (if p < i as int || (
                        p == i as int && q < j as int + 1) {
                            asteroids@[p].velocity == entry[q].velocity && asteroids@[q].velocity
                                == entry[p].velocity
                        } else {
                            asteroids@[p].velocity == entry[p].velocity && asteroids@[q].velocity
                                == entry[q].velocity
                        }) by {
                            if p == i as int && q == j as int {
                                assert(prev[p].velocity == entry[p].velocity
                                    && prev[q].velocity == entry[q].velocity);
                            } else {
                                assert(p != i as int && p != j as int && q != i as int && q
                                    != j as int);
                                assert(asteroids@[p] == prev[p] && asteroids@[q] == prev[q]);
                            }
                        }
                        assert forall|k: int|
                            0 <= k < entry.len() && !in_overlap(entry, k) implies (
                        #[trigger] asteroids@[k]).velocity == entry[k].velocity by {
                            if k == i as int || k == j as int {
                                assert(in_overlap(entry, k));
                            }
                            assert(asteroids@[k] == prev[k]);
                        }
                        assert(sweep_mid(entry, asteroids@, i as int, j as int + 1));
                    }
                }
            } else {
                proof {
                    assert(asteroid_overlap(entry[i as int], entry[j as int]) == asteroid_overlap(
                        asteroids@[i as int],
                        asteroids@[j as int],
                    ));
                    assert(!distinct_overlap(entry, i as int, j as int));
                    if overlaps_disjoint(entry) {
                        assert forall|p: int, q: int|
                            #[trigger] distinct_overlap(entry, p, q) implies (if p < i as int || (
                        p == i as int && q < j as int + 1) {
                            asteroids@[p].velocity == entry[q].velocity && asteroids@[q].velocity
                                == entry[p].velocity
                        } else {
                            asteroids@[p].velocity == entry[p].velocity && asteroids@[q].velocity
                                == entry[q].velocity
                        }) by {
                            assert(!(p == i as int && q == j as int));
                        }
                        assert(sweep_mid(entry, asteroids@, i as int, j as int + 1));
                    }
                }
            }
            j = j + 1;
        }
        proof {
            if overlaps_disjoint(entry) {
                assert forall|p: int, q: int|
                    #[trigger] distinct_overlap(entry, p, q) implies (if p < i as int + 1 || (p
                    == i as int + 1 && q < i as int + 2) {
                    asteroids@[p].velocity == entry[q].velocity && asteroids@[q].velocity
                        == entry[p].velocity
                } else {
                    asteroids@[p].velocity == entry[p].velocity && asteroids@[q].velocity
                        == entry[q].velocity
                }) by {
                    assert(distinct_overlap(entry, p, q));
                }
                assert(sweep_mid(entry, asteroids@, i as int + 1, i as int + 2));
            }
        }
        i = i + 1;
    }
    proof {
        if overlaps_disjoint(entry) {
            assert forall|p: int, q: int| #[trigger] distinct_overlap(entry, p, q) implies {
                &&& asteroids@[p].velocity == entry[q].velocity
                &&& asteroids@[q].velocity == entry[p].velocity
            } by {
                assert(distinct_overlap(entry, p, q));
            }
        }
        assert forall|i0: int, j0: int| #[trigger] only_overlap(entry, i0, j0) implies vel_swapped(
            entry,
            asteroids@,
            i0,
            j0,
        ) by {
            assert(distinct_overlap(entry, i0, j0));
            assert(overlaps_disjoint(entry)) by {
                assert forall|a1: int, b1: int, a2: int, b2: int|
                    #[trigger] distinct_overlap(entry, a1, b1) && #[trigger] distinct_overlap(
                        entry,
                        a2,
                        b2,
                    ) && !(a1 == a2 && b1 == b2) implies a1 != a2 && a1 != b2 && b1 != a2 && b1
                    != b2 by {
                    assert(a1 == i0 && b1 == j0);
                    assert(a2 == i0 && b2 == j0);
                }
            }
            assert(asteroids@[i0].velocity == entry[j0].velocity && asteroids@[j0].velocity
                == entry[i0].velocity);
            assert forall|k: int|
                0 <= k < entry.len() && k != i0 && k != j0 implies (
            #[trigger] asteroids@[k]).velocity == entry[k].velocity by {
                if in_overlap(entry, k) {
                    let (p, q) = choose|p: int, q: int|
                        #[trigger] distinct_overlap(entry, p, q) && (k == p || k == q);
                    assert(p == i0 && q == j0);
                }
            }
        }
    }
}

/// One hit on an asteroid (the splitting rule): the asteroid loses one
/// life; if it still has a life left, exactly one child with that same
/// reduced life count is spawned right next to it, and an asteroid hit at
/// its last life spawns nothing.
pub fn split_asteroid(asteroid: &mut Asteroid, children: &mut Vec<Asteroid>)
    requires
        old(asteroid).wf(),
        1 <= old(asteroid).lives <= 3,
        0 <= old(asteroid).position.x <= MAX_BOUND,
        0 <= old(asteroid).position.y <= MAX_BOUND,
    ensures
        final(asteroid).position == old(asteroid).position,
        final(asteroid).velocity == old(asteroid).velocity,
        final(asteroid).rotation == old(asteroid).rotation,
        final(asteroid).lives == old(asteroid).lives - 1,
        final(asteroid).wf(),
        old(asteroid).lives > 1 ==> {
            &&& final(children)@.len() == old(children)@.len() + 1
            &&& final(children)@.drop_last() == old(children)@
            &&& final(children)@.last().wf()
            &&& final(children)@.last().lives == old(asteroid).lives - 1
            &&& final(children)@.last().position.x == old(asteroid).position.x + 2 * radius_spec(
                (old(asteroid).lives - 1) as u32,
            )
            &&& final(children)@.last().position.y == old(asteroid).position.y + 2 * radius_spec(
                (old(asteroid).lives - 1) as u32,
            )
        },
        old(asteroid).lives == 1 ==> final(children)@ == old(children)@,
{
    asteroid.explode();
    if asteroid.lives > 0 {
        let r = asteroid.radius();
        let child_pos = Vec2i { x: asteroid.position.x + 2 * r, y: asteroid.position.y + 2 * r };
        let child = Asteroid::spawn_at(child_pos, asteroid.lives);
        children.push(child);
        proof {
            assert(children@.drop_last() == old(children)@);
        }
    }
}

} // verus!
