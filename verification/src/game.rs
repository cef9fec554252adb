//! The game phase controller: which subsystem runs on a frame, and the
//! edge-triggered transitions between the menu, play, and the two terminal
//! phases.
use vstd::prelude::*;

use crate::consts::MAX_LEVEL;
use crate::utils::Bounds;
use crate::world::{iter_score, tick_rel, Input, TickOutcome, TickReport, World};
use vstd::pervasive::arbitrary;

verus! {

/// The phases of a session.  The menu and the two terminal phases are idle:
/// no entity moves and no collision is tested; they only wait for a confirm
/// intent.
#[derive(Clone, Copy, PartialEq, Eq, Structural, Debug)]
pub enum GameState {
    MainMenu,
    Play,
    Won,
    GameOver,
}

/// One frame's input at the session level: the play intents, plus the
/// edge-triggered confirm that drives the idle phases.
#[derive(Clone, Copy, PartialEq, Eq, Structural, Debug)]
pub struct FrameInput {
    pub play: Input,
    pub confirm: bool,
}

/// One frame of the whole session.  In `Play` the full simulation step
/// runs and its outcome picks the next phase; in the idle phases nothing
/// moves, and a confirm starts a fresh session (from the menu or after a
/// loss) or the next level (after a win), carrying the score forward only
/// across a win.
pub fn frame_step(state: GameState, world: World, input: &FrameInput, bounds: &Bounds) -> (r: (
    GameState,
    World,
    TickReport,
))
    requires
        world.wf(),
        bounds.wf(),
        world.asteroids@.len() <= 100_000_000,
        state == GameState::Won && input.confirm ==> world.level < MAX_LEVEL,
    ensures
        r.1.wf(),
        state == GameState::MainMenu && input.confirm ==> r.0 == GameState::Play && r.1.level == 1
            && r.1.score == 0,
        (state == GameState::MainMenu || state == GameState::GameOver || state == GameState::Won)
            && input.confirm ==> (r.1.filled <==> r.1.asteroids@.len() == 2 * r.1.level),
        state == GameState::Play ==> r.1.filled == world.filled,
        state == GameState::MainMenu && !input.confirm ==> r.0 == GameState::MainMenu && r.1
            == world,
        state == GameState::Play ==> {
            &&& tick_rel(world, r.1, r.2, input.play, *bounds)
            &&& r.1.level == world.level
            &&& r.1.score >= world.score
            &&& r.1.score as int == iter_score(
                world.score as int,
                world.level as int,
                r.2.hits as int,
            )
            &&& r.2.fired == input.play.fire
            &&& (r.2.outcome == TickOutcome::LevelCleared <==> r.1.asteroids@.len() == 0)
            &&& (r.2.outcome == TickOutcome::Destroyed <==> (r.1.asteroids@.len() > 0
                && exists|i: int|
                0 <= i < r.1.asteroids@.len() && crate::player::player_hits(
                    r.1.player,
                    #[trigger] r.1.asteroids@[i],
                )))
            &&& (r.2.outcome == TickOutcome::LevelCleared ==> r.0 == GameState::Won)
            &&& (r.2.outcome == TickOutcome::Destroyed ==> r.0 == GameState::GameOver)
            &&& (r.2.outcome == TickOutcome::Continue ==> r.0 == GameState::Play)
        },
        state == GameState::Won && input.confirm ==> r.0 == GameState::Play && r.1.level
            == world.level + 1 && r.1.score == world.score,
        state == GameState::Won && !input.confirm ==> r.0 == GameState::Won && r.1 == world,
        state == GameState::GameOver && input.confirm ==> r.0 == GameState::Play && r.1.level == 1
            && r.1.score == 0,
        state == GameState::GameOver && !input.confirm ==> r.0 == GameState::GameOver && r.1
            == world,
{
    let idle = TickReport {
        outcome: TickOutcome::Continue,
        hits: 0,
        fired: false,
        trace: Ghost(arbitrary()),
    };
    match state {
        GameState::MainMenu => {
            if input.confirm {
                (GameState::Play, World::new(bounds), idle)
            } else {
                (GameState::MainMenu, world, idle)
            }
        },
        GameState::Play => {
            let mut w = world;
            let report = w.tick(&input.play, bounds);
            let next = match report.outcome {
                TickOutcome::LevelCleared => GameState::Won,
                TickOutcome::Destroyed => GameState::GameOver,
                TickOutcome::Continue => GameState::Play,
            };
            (next, w, report)
        },
        GameState::Won => {
            if input.confirm {
                (GameState::Play, world.next_level(bounds), idle)
            } else {
                (GameState::Won, world, idle)
            }
        },
        GameState::GameOver => {
            if input.confirm {
                (GameState::Play, World::new(bounds), idle)
            } else {
                (GameState::GameOver, world, idle)
            }
        },
    }
}

} // verus!
