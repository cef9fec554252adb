use asteroids::asteroid::Asteroid;
use asteroids::consts::{DIR_ONE, SPEED_OF_LIGHT};
use asteroids::laser::Laser;
use asteroids::player::Player;
use asteroids::utils::Bounds;
use asteroids::vec2::Vec2i;
use asteroids::world::{split_asteroid, Input, TickOutcome, World};

fn no_input() -> Input {
    Input {
        rotate_left: false,
        rotate_right: false,
        thrust: false,
        fire: false,
    }
}

#[test]
fn populate_level_yields_separated_fields() {
    // 2 n asteroids, pairwise non-overlapping, for every level in 1..=10
    let bounds = Bounds::default();
    for n in 1..=10u32 {
        let mut field: Vec<Asteroid> = Vec::new();
        let filled = World::spawn_asteroids(n, &mut field, &bounds);
        assert!(filled);
        assert_eq!(field.len(), 2 * n as usize);
        for a in &field {
            assert_eq!(a.lives, 3);
            assert!(0 <= a.position.x && a.position.x <= 1_920_000);
            assert!(0 <= a.position.y && a.position.y <= 1_080_000);
            assert!(1_745 <= a.rotation && a.rotation <= 5_236);
            // nothing materializes inside the center avoidance zone
            let in_zone = (710_000..=1_210_000).contains(&a.position.x)
                && (290_000..=790_000).contains(&a.position.y);
            assert!(!in_zone);
            // level-scaled speed: within two percent of one pixel per
            // frame at the bottom and of n pixels per frame at the top
            let v2 = a.velocity.x * a.velocity.x + a.velocity.y * a.velocity.y;
            let top = (n as i64) * 1_000;
            assert!(98_000 * 98_000 <= v2 * 10_000);
            assert!(v2 * 10_000 <= (102 * top) * (102 * top));
        }
        for i in 0..field.len() {
            for j in 0..field.len() {
                if i != j {
                    assert!(!field[i].collides(&field[j]));
                }
            }
        }
    }
}

#[test]
fn thrust_clamps_velocity_to_the_speed_of_light() {
    let mut ship = Player::default();
    for _ in 0..200 {
        ship.thrust();
        assert!(ship.velocity.x.abs() <= SPEED_OF_LIGHT);
        assert!(ship.velocity.y.abs() <= SPEED_OF_LIGHT);
    }
    // thrusting straight up for long: pinned at the ceiling
    assert_eq!(ship.velocity, Vec2i::new(0, -SPEED_OF_LIGHT));
    assert!(ship.thrusting);
}

#[test]
fn split_keeps_one_child_with_one_life_less() {
    let mut parent = Asteroid {
        position: Vec2i::new(500_000, 500_000),
        rotation: 0,
        velocity: Vec2i::zero(),
        lives: 3,
    };
    let mut children = Vec::new();
    split_asteroid(&mut parent, &mut children);
    assert_eq!(parent.lives, 2);
    assert_eq!(children.len(), 1);
    assert_eq!(children[0].lives, 2);
    // the child appears right next to the parent: twice the new radius away
    assert_eq!(children[0].position, Vec2i::new(580_000, 580_000));
}

#[test]
fn split_at_last_life_yields_no_child() {
    let mut parent = Asteroid {
        position: Vec2i::new(500_000, 500_000),
        rotation: 0,
        velocity: Vec2i::zero(),
        lives: 1,
    };
    let mut children = Vec::new();
    split_asteroid(&mut parent, &mut children);
    assert_eq!(parent.lives, 0);
    assert!(children.is_empty());
}

#[test]
fn one_hit_scores_level_times_ten() {
    let bounds = Bounds::default();
    let mut world = World {
        filled: true,
        level: 4,
        score: 120,
        player: Player::new(&bounds),
        lasers: vec![Laser {
            position: Vec2i::new(100_000, 100_000),
            velocity: Vec2i::zero(),
            collided: false,
        }],
        asteroids: vec![Asteroid {
            position: Vec2i::new(100_000, 100_000),
            rotation: 0,
            velocity: Vec2i::zero(),
            lives: 1,
        }],
    };
    let report = world.tick(&no_input(), &bounds);
    assert_eq!(report.hits, 1);
    assert_eq!(world.score, 120 + 4 * 10);
}

#[test]
fn score_never_decreases_over_ticks() {
    let bounds = Bounds::default();
    let mut world = World::new(&bounds);
    let mut last = world.score;
    for _ in 0..120 {
        let input = Input {
            rotate_left: false,
            rotate_right: true,
            thrust: true,
            fire: true,
        };
        let report = world.tick(&input, &bounds);
        assert!(world.score >= last);
        last = world.score;
        if report.outcome != TickOutcome::Continue {
            break;
        }
    }
}

#[test]
fn collision_tick_consumes_laser_and_asteroid() {
    // a point projectile at rest on a one-life asteroid at the origin: one
    // tick marks the hit, empties the field, and reports the level cleared
    let bounds = Bounds::default();
    let mut world = World {
        filled: true,
        level: 1,
        score: 0,
        player: Player::new(&bounds),
        lasers: vec![Laser {
            position: Vec2i::zero(),
            velocity: Vec2i::zero(),
            collided: false,
        }],
        asteroids: vec![Asteroid {
            position: Vec2i::zero(),
            rotation: 0,
            velocity: Vec2i::zero(),
            lives: 1,
        }],
    };
    let report = world.tick(&no_input(), &bounds);
    assert_eq!(report.hits, 1);
    assert!(world.asteroids.is_empty());
    assert!(world.lasers.is_empty());
    assert_eq!(report.outcome, TickOutcome::LevelCleared);
    assert_eq!(world.score, 10);
}

#[test]
fn hit_on_larger_asteroid_splits_it() {
    let bounds = Bounds::default();
    let mut world = World {
        filled: true,
        level: 1,
        score: 0,
        player: Player::new(&bounds),
        lasers: vec![Laser {
            position: Vec2i::new(200_000, 200_000),
            velocity: Vec2i::zero(),
            collided: false,
        }],
        asteroids: vec![Asteroid {
            position: Vec2i::new(200_000, 200_000),
            rotation: 0,
            velocity: Vec2i::zero(),
            lives: 3,
        }],
    };
    let report = world.tick(&no_input(), &bounds);
    assert_eq!(report.hits, 1);
    assert_eq!(report.outcome, TickOutcome::Continue);
    // the struck asteroid lost a life and exactly one child joined it
    assert_eq!(world.asteroids.len(), 2);
    assert_eq!(world.asteroids[0].lives, 2);
    assert_eq!(world.asteroids[1].lives, 2);
    assert!(world.lasers.is_empty());
    assert_eq!(world.score, 10);
}

#[test]
fn overlapping_asteroids_swap_velocities() {
    let bounds = Bounds::default();
    let mut world = World {
        filled: true,
        level: 1,
        score: 0,
        player: Player::new(&bounds),
        lasers: vec![],
        asteroids: vec![
            Asteroid {
                position: Vec2i::new(300_000, 300_000),
                rotation: 0,
                velocity: Vec2i::new(1_000, 0),
                lives: 3,
            },
            Asteroid {
                position: Vec2i::new(350_000, 300_000),
                rotation: 0,
                velocity: Vec2i::new(-1_000, 0),
                lives: 3,
            },
        ],
    };
    let report = world.tick(&no_input(), &bounds);
    assert_eq!(report.hits, 0);
    assert_eq!(world.asteroids.len(), 2);
    // the pair drifted toward each other, overlapped, and exchanged velocities
    assert_eq!(world.asteroids[0].velocity, Vec2i::new(-1_000, 0));
    assert_eq!(world.asteroids[1].velocity, Vec2i::new(1_000, 0));
    assert_eq!(world.asteroids[0].position, Vec2i::new(301_000, 300_000));
    assert_eq!(world.asteroids[1].position, Vec2i::new(349_000, 300_000));
}

#[test]
fn ship_struck_by_asteroid_ends_the_session() {
    let bounds = Bounds::default();
    let mut world = World::new(&bounds);
    world.asteroids = vec![Asteroid {
        position: world.player.position,
        rotation: 0,
        velocity: Vec2i::zero(),
        lives: 3,
    }];
    let report = world.tick(&no_input(), &bounds);
    assert_eq!(report.outcome, TickOutcome::Destroyed);
}

#[test]
fn firing_appends_a_laser_along_the_heading() {
    let bounds = Bounds::default();
    let mut world = World::new(&bounds);
    world.asteroids.clear();
    let input = Input {
        rotate_left: false,
        rotate_right: false,
        thrust: false,
        fire: true,
    };
    let report = world.tick(&input, &bounds);
    assert!(report.fired);
    assert_eq!(world.lasers.len(), 1);
    // rotation 0: straight up at laser speed, from the ship's position
    assert_eq!(world.lasers[0].velocity, Vec2i::new(0, -10_000));
    assert!(!world.lasers[0].collided);
}

#[test]
fn next_level_advances_and_keeps_score() {
    let bounds = Bounds::default();
    let mut world = World::new(&bounds);
    world.score = 430;
    let next = world.next_level(&bounds);
    assert_eq!(next.level, 2);
    assert_eq!(next.score, 430);
    assert!(next.lasers.is_empty());
    assert_eq!(next.asteroids.len(), 4);
}

#[test]
fn increment_score_saturates_instead_of_wrapping() {
    let bounds = Bounds::default();
    let mut world = World::new(&bounds);
    world.score = u32::MAX - 5;
    world.increment_score();
    assert_eq!(world.score, u32::MAX);
    world.increment_score();
    assert_eq!(world.score, u32::MAX);
}

#[test]
fn new_world_starts_fresh() {
    let bounds = Bounds::default();
    let world = World::new(&bounds);
    assert_eq!(world.level, 1);
    assert_eq!(world.score, 0);
    assert_eq!(world.asteroids.len(), 2);
    assert!(world.lasers.is_empty());
    assert_eq!(world.player.position, Vec2i::new(960_000, 540_000));
    assert_eq!(world.player.heading, Vec2i::new(0, DIR_ONE));
    assert_eq!(world.player.lives, 3);
}
