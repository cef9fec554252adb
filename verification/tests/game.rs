use asteroids::game::{frame_step, FrameInput, GameState};
use asteroids::utils::Bounds;
use asteroids::world::{Input, World};

fn idle_input(confirm: bool) -> FrameInput {
    FrameInput {
        play: Input {
            rotate_left: false,
            rotate_right: false,
            thrust: false,
            fire: false,
        },
        confirm,
    }
}

#[test]
fn menu_waits_for_confirm() {
    let bounds = Bounds::default();
    let world = World::new(&bounds);
    let before = world.score;
    let (state, world, _) = frame_step(GameState::MainMenu, world, &idle_input(false), &bounds);
    assert_eq!(state, GameState::MainMenu);
    assert_eq!(world.score, before);
}

#[test]
fn menu_confirm_starts_a_fresh_session() {
    let bounds = Bounds::default();
    let mut world = World::new(&bounds);
    world.score = 990;
    let (state, world, _) = frame_step(GameState::MainMenu, world, &idle_input(true), &bounds);
    assert_eq!(state, GameState::Play);
    assert_eq!(world.level, 1);
    assert_eq!(world.score, 0);
}

#[test]
fn won_confirm_advances_a_level_and_keeps_score() {
    let bounds = Bounds::default();
    let mut world = World::new(&bounds);
    world.score = 60;
    let (state, world, _) = frame_step(GameState::Won, world, &idle_input(true), &bounds);
    assert_eq!(state, GameState::Play);
    assert_eq!(world.level, 2);
    assert_eq!(world.score, 60);
}

#[test]
fn game_over_confirm_resets_everything() {
    let bounds = Bounds::default();
    let mut world = World::new(&bounds);
    world.score = 740;
    let (state, world, _) = frame_step(GameState::GameOver, world, &idle_input(true), &bounds);
    assert_eq!(state, GameState::Play);
    assert_eq!(world.level, 1);
    assert_eq!(world.score, 0);
}

#[test]
fn terminal_phases_idle_without_confirm() {
    let bounds = Bounds::default();
    let world = World::new(&bounds);
    let asteroids_before = world.asteroids.len();
    let (state, world, report) = frame_step(GameState::Won, world, &idle_input(false), &bounds);
    assert_eq!(state, GameState::Won);
    assert_eq!(world.asteroids.len(), asteroids_before);
    assert_eq!(report.hits, 0);
    let (state, world, _) = frame_step(GameState::GameOver, world, &idle_input(false), &bounds);
    assert_eq!(state, GameState::GameOver);
    assert_eq!(world.asteroids.len(), asteroids_before);
}

#[test]
fn play_frame_runs_the_simulation() {
    let bounds = Bounds::default();
    let world = World::new(&bounds);
    let input = FrameInput {
        play: Input {
            rotate_left: true,
            rotate_right: false,
            thrust: true,
            fire: false,
        },
        confirm: false,
    };
    let (state, world, report) = frame_step(GameState::Play, world, &input, &bounds);
    assert!(!report.fired);
    assert_eq!(world.level, 1);
    // the ship thrusted: some velocity along its (rotated) heading
    if state == GameState::Play {
        assert!(world.player.thrusting);
        assert!(world.player.velocity.x != 0 || world.player.velocity.y != 0);
    }
}
