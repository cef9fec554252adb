use asteroids::asteroid::Asteroid;
use asteroids::laser::Laser;
use asteroids::utils::Bounds;
use asteroids::vec2::Vec2i;

#[test]
fn test_collides() {
    let laser = Laser {
        position: Vec2i::zero(),
        velocity: Vec2i::zero(),
        collided: false,
    };
    let asteroid = Asteroid {
        position: Vec2i::zero(),
        rotation: 0,
        velocity: Vec2i::zero(),
        lives: 1,
    };

    assert!(laser.collides(&asteroid))
}

#[test]
fn laser_misses_distant_asteroid() {
    let laser = Laser {
        position: Vec2i::new(100_000, 0),
        velocity: Vec2i::zero(),
        collided: false,
    };
    // radius = 1 * 20_000, distance 100_000: no hit
    let asteroid = Asteroid {
        position: Vec2i::zero(),
        rotation: 0,
        velocity: Vec2i::zero(),
        lives: 1,
    };
    assert!(!laser.collides(&asteroid));
    // right at the rim (distance == radius) still counts as a hit
    let grazing = Laser {
        position: Vec2i::new(20_000, 0),
        velocity: Vec2i::zero(),
        collided: false,
    };
    assert!(grazing.collides(&asteroid));
}

#[test]
fn laser_update_drifts_without_wrap() {
    let bounds = Bounds::default();
    let mut laser = Laser {
        position: Vec2i::new(1_919_000, 500_000),
        velocity: Vec2i::new(10_000, -2_000),
        collided: false,
    };
    laser.update();
    assert_eq!(laser.position.x, 1_929_000);
    assert_eq!(laser.position.y, 498_000);
    // past the right edge: not wrapped, just off screen
    assert!(!laser.on_screen(&bounds));
}

#[test]
fn laser_on_screen_is_strict() {
    let bounds = Bounds::default();
    let mk = |x: i64, y: i64| Laser {
        position: Vec2i::new(x, y),
        velocity: Vec2i::zero(),
        collided: false,
    };
    assert!(mk(1, 1).on_screen(&bounds));
    assert!(!mk(0, 500).on_screen(&bounds));
    assert!(!mk(500, 0).on_screen(&bounds));
    assert!(!mk(1_920_000, 500).on_screen(&bounds));
    assert!(!mk(500, 1_080_000).on_screen(&bounds));
}
