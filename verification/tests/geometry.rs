use asteroids::asteroid::Asteroid;
use asteroids::consts::DIR_ONE;
use asteroids::player::Player;
use asteroids::vec2::Vec2i;

fn asteroid_at(x: i64, y: i64, lives: u32) -> Asteroid {
    Asteroid {
        position: Vec2i::new(x, y),
        rotation: 0,
        velocity: Vec2i::zero(),
        lives,
    }
}

#[test]
fn circle_collision_is_symmetric() {
    let a = asteroid_at(0, 0, 3);
    let b = asteroid_at(100_000, 50_000, 1);
    assert_eq!(a.collides(&b), b.collides(&a));
    let c = asteroid_at(119_000, 0, 3);
    assert_eq!(a.collides(&c), c.collides(&a));
    assert!(a.collides(&c));
}

#[test]
fn circle_collision_at_the_rim() {
    // radii 60_000 + 20_000: centers 80_000 apart touch, 80_001 do not
    let a = asteroid_at(0, 0, 3);
    let touching = asteroid_at(80_000, 0, 1);
    let apart = asteroid_at(80_001, 0, 1);
    assert!(a.collides(&touching));
    assert!(!a.collides(&apart));
}

#[test]
fn radius_grows_with_lives() {
    assert_eq!(asteroid_at(0, 0, 1).radius(), 20_000);
    assert_eq!(asteroid_at(0, 0, 2).radius(), 40_000);
    assert_eq!(asteroid_at(0, 0, 3).radius(), 60_000);
}

#[test]
fn vertices_at_rest_point_up() {
    // heading (0, DIR_ONE) is rotation 0: nose straight up, rear at 135/225
    let pos = Vec2i::new(100_000, 100_000);
    let heading = Vec2i::new(0, DIR_ONE);
    let (a, b, c) = Player::get_vertices(&pos, &heading);
    assert_eq!(a, Vec2i::new(100_000, 75_000));
    assert_eq!(b, Vec2i::new(100_000 - 17_677, 100_000 + 17_677));
    assert_eq!(c, Vec2i::new(100_000 + 17_677, 100_000 + 17_677));
}

#[test]
fn closest_point_picks_the_vertex_region() {
    // p far beyond the nose: the nose vertex is closest (denominator 1)
    let a = Vec2i::new(0, -25_000);
    let b = Vec2i::new(-17_675, 17_675);
    let c = Vec2i::new(17_675, 17_675);
    let p = Vec2i::new(0, -40_000);
    let q = Player::point_on_triangle(p, a, b, c);
    assert_eq!(q, (0, -25_000, 1));
}

#[test]
fn closest_point_inside_is_the_point_itself() {
    let a = Vec2i::new(0, -25_000);
    let b = Vec2i::new(-17_675, 17_675);
    let c = Vec2i::new(17_675, 17_675);
    let p = Vec2i::new(0, 0);
    let q = Player::point_on_triangle(p, a, b, c);
    assert_eq!(q, (0, 0, 1));
}

#[test]
fn player_broad_phase_gates_the_exact_test() {
    // asteroid center further than PLAYER_SIZE from the ship: no hit, however
    // large the asteroid is
    let ship = Player::default();
    let far = asteroid_at(
        ship.position.x + 26_000,
        ship.position.y,
        3,
    );
    assert!(!ship.collides(&far));
}

#[test]
fn player_hit_by_overlapping_asteroid() {
    let ship = Player::default();
    let on_top = asteroid_at(ship.position.x, ship.position.y, 1);
    assert!(ship.collides(&on_top));
    // inside the broad circle and the hull within the asteroid's radius
    let nearby = asteroid_at(ship.position.x + 20_000, ship.position.y, 1);
    assert!(ship.collides(&nearby));
}

#[test]
fn rotation_steps_move_the_heading_exactly() {
    let mut ship = Player::default();
    assert_eq!(ship.heading, Vec2i::new(0, DIR_ONE));
    ship.rotate_right();
    assert_eq!(ship.heading, Vec2i::new(5_237, 65_326));
    let mut other = Player::default();
    other.rotate_left();
    assert_eq!(other.heading, Vec2i::new(-5_237, 65_326));
}

#[test]
fn heading_magnitude_never_drifts() {
    // thousands of renormalized rotation steps keep the heading's squared
    // magnitude inside its contract window around DIR_ONE
    let lo = (DIR_ONE - 3) * (DIR_ONE - 3);
    let hi = (DIR_ONE + 6) * (DIR_ONE + 6);
    let mut ship = Player::default();
    for step in 0..5000 {
        if step % 3 == 0 {
            ship.rotate_left();
        } else {
            ship.rotate_right();
        }
        let n = ship.heading.x * ship.heading.x + ship.heading.y * ship.heading.y;
        assert!(lo <= n && n <= hi);
    }
}

#[test]
fn hull_vertices_sit_on_the_ship_circle() {
    // after arbitrary rotation, each vertex stays within a hundredth of a
    // pixel of PLAYER_SIZE from the ship's position
    let mut ship = Player::default();
    for _ in 0..17 {
        ship.rotate_right();
    }
    let (a, b, c) = Player::get_vertices(&ship.position, &ship.heading);
    for v in [a, b, c] {
        let dx = v.x - ship.position.x;
        let dy = v.y - ship.position.y;
        let d2 = dx * dx + dy * dy;
        assert!((25_000 - 10) * (25_000 - 10) <= d2 && d2 <= (25_000 + 10) * (25_000 + 10));
    }
}
