use asteroids::consts::{DIR_ONE, SPEED_OF_LIGHT};
use asteroids::player::Player;
use asteroids::utils::{screen_center, wrap_around, Bounds};
use asteroids::vec2::Vec2i;

#[test]
fn wrap_beyond_right_edge_resets_to_zero() {
    let bounds = Bounds::default();
    let mut p = Vec2i::new(1_920_001, 500_000);
    wrap_around(&mut p, &bounds);
    assert_eq!(p.x, 0);
    assert_eq!(p.y, 500_000);
}

#[test]
fn wrap_below_zero_resets_to_far_edge() {
    let bounds = Bounds::default();
    let mut p = Vec2i::new(-1, -5);
    wrap_around(&mut p, &bounds);
    assert_eq!(p.x, 1_920_000);
    assert_eq!(p.y, 1_080_000);
}

#[test]
fn wrap_is_idempotent_at_the_boundary() {
    // a position exactly at a boundary maps across once, then stays put
    let bounds = Bounds::default();
    let mut p = Vec2i::new(1_920_001, 1_080_001);
    wrap_around(&mut p, &bounds);
    let once = p;
    wrap_around(&mut p, &bounds);
    assert_eq!(p, once);
    // the exact edge itself is in range and never moves
    let mut edge = Vec2i::new(1_920_000, 0);
    wrap_around(&mut edge, &bounds);
    assert_eq!(edge, Vec2i::new(1_920_000, 0));
}

#[test]
fn wrap_applies_to_each_axis_independently() {
    let bounds = Bounds::default();
    let mut p = Vec2i::new(1_920_005, -3);
    wrap_around(&mut p, &bounds);
    assert_eq!(p.x, 0);
    assert_eq!(p.y, 1_080_000);
}

#[test]
fn ship_past_right_edge_wraps_to_zero_on_next_update() {
    // ship at screen width + 1 pixel, velocity (1, 0): one update wraps to x = 0
    let bounds = Bounds::default();
    let mut ship = Player {
        position: Vec2i::new(1_920_000 + 1_000, 540_000),
        heading: Vec2i::new(0, DIR_ONE),
        velocity: Vec2i::new(1_000, 0),
        thrusting: false,
        lives: 3,
    };
    ship.update(&bounds);
    assert_eq!(ship.position.x, 0);
    assert_eq!(ship.position.y, 540_000);
}

#[test]
fn screen_center_halves_the_bounds() {
    let bounds = Bounds::default();
    let c = screen_center(&bounds);
    assert_eq!(c, Vec2i::new(960_000, 540_000));
}

#[test]
fn speed_of_light_is_seven_pixels() {
    assert_eq!(SPEED_OF_LIGHT, 7_000);
}
