//! The rules of a tick: how a key steers the player, and what one tick does
//! to the level. The caller polls the input, loads the next level when a
//! level is complete, and presents the canvas.

use crate::actors::MaskState;
use crate::canvas::{black, cleared, VirtualFrameBuffer};
use crate::level::Level;
use crate::math::vec2::Vec2;
use crate::math::vec4::Color4;
use crate::tiles::TileSet;
use vstd::prelude::*;

verus! {

/// What the input source yields in a tick.
#[derive(Clone, Copy, Debug, PartialEq, Eq, Structural)]
pub enum Input {
    Up,
    Down,
    Left,
    Right,
    Action,
    Idle,
}

/// What the caller has to do after a tick.
#[derive(Clone, Copy, Debug, PartialEq, Eq, Structural)]
pub enum Outcome {
    /// The level goes on.
    Continue,
    /// The player has reached the treasure: the next level is to be loaded
    /// and entered.
    LevelComplete,
}

/// No movement.
pub open spec fn still() -> Vec2 {
    Vec2 { x: 0, y: 0 }
}

/// The movement after `input`. A direction key sets the movement to its
/// unit vector, unless the player is moving the opposite way: then the key
/// stops the movement. Any other input leaves the movement as it is.
pub open spec fn steered(move_dir: Vec2, input: Input) -> Vec2 {
    match input {
        Input::Left => if move_dir.x == 1 {
            still()
        } else {
            Vec2 { x: -1i32, y: 0 }
        },
        Input::Right => if move_dir.x == -1 {
            still()
        } else {
            Vec2 { x: 1, y: 0 }
        },
        Input::Up => if move_dir.y == 1 {
            still()
        } else {
            Vec2 { x: 0, y: -1i32 }
        },
        Input::Down => if move_dir.y == -1 {
            still()
        } else {
            Vec2 { x: 0, y: 1 }
        },
        Input::Action => move_dir,
        Input::Idle => move_dir,
    }
}

/// The movement after `input`.
pub fn steer(move_dir: Vec2, input: Input) -> (r: Vec2)
    ensures
        r == steered(move_dir, input),
{
    match input {
        Input::Left => if move_dir.x == 1 {
            Vec2::new(0, 0)
        } else {
            Vec2::new(-1, 0)
        },
        Input::Right => if move_dir.x == -1 {
            Vec2::new(0, 0)
        } else {
            Vec2::new(1, 0)
        },
        Input::Up => if move_dir.y == 1 {
            Vec2::new(0, 0)
        } else {
            Vec2::new(0, -1)
        },
        Input::Down => if move_dir.y == -1 {
            Vec2::new(0, 0)
        } else {
            Vec2::new(0, 1)
        },
        Input::Action => move_dir,
        Input::Idle => move_dir,
    }
}

/// The state of play: the current level, its number, and the movement that
/// the player keeps from tick to tick.
pub struct Game {
    pub level: Level,
    pub level_num: usize,
    pub move_dir: Vec2,
}

impl Game {
    /// Play that starts in `level`, numbered 0, with the player at rest.
    pub fn new(level: Level) -> (r: Game)
        ensures
            r.level == level,
            r.level_num == 0,
            r.move_dir == still(),
    {
        Game { level, level_num: 0, move_dir: Vec2::new(0, 0) }
    }

    /// Whether a tick with `input` is possible: the terrain is well formed,
    /// and the step of the player stays within the range of positions.
    pub open spec fn ready_for(&self, input: Input) -> bool {
        &&& self.level.sprite.wf()
        &&& self.level.player.sprite.pos.can_add(steered(self.move_dir, input))
    }

    /// Whether a tick with `input` is possible.
    pub fn can_tick(&self, input: Input) -> (r: bool)
        ensures
            r == self.ready_for(input),
    {
        let step = steer(self.move_dir, input);
        let pos = self.level.player.sprite.pos;
        let x = pos.x as i64 + step.x as i64;
        let y = pos.y as i64 + step.y as i64;
        self.level.sprite.is_well_formed() && i32::MIN as i64 <= x && x <= i32::MAX as i64
            && i32::MIN as i64 <= y && y <= i32::MAX as i64
    }

    /// One tick: the input steers the player or, as an action, swaps masks;
    /// then the player tries to move; then the goal is checked.
    pub fn tick(&mut self, input: Input) -> (r: Outcome)
        requires
            old(self).ready_for(input),
        ensures
            final(self).level_num == old(self).level_num,
            final(self).move_dir == steered(old(self).move_dir, input),
            input != Input::Action ==> final(self).level.follows_move(
                old(self).level,
                final(self).move_dir,
            ),
            input == Input::Action ==> exists|acted: Level| #[trigger]
                acted.follows_action(old(self).level) && final(self).level.follows_move(
                    acted,
                    final(self).move_dir,
                ),
            r == if final(self).level.reaches_goal() {
                Outcome::LevelComplete
            } else {
                Outcome::Continue
            },
    {
        self.move_dir = steer(self.move_dir, input);
        match input {
            Input::Action => {
                self.level.interact();
            },
            _ => {},
        }
        self.level.try_move(self.move_dir);
        if self.level.goal_reached() {
            Outcome::LevelComplete
        } else {
            Outcome::Continue
        }
    }

    /// Enters the next level: its number is one more, the player carries no
    /// mask, and the movement is reset.
    pub fn enter_level(&mut self, level: Level)
        requires
            old(self).level_num < usize::MAX,
        ensures
            final(self).level_num == old(self).level_num + 1,
            final(self).move_dir == still(),
            final(self).level.player.state() == MaskState::Unmasked,
            final(self).level.player.mask_color == level.player.mask_color,
            final(self).level.player.sprite == level.player.sprite,
            final(self).level.sprite == level.sprite,
            final(self).level.masks == level.masks,
            final(self).level.treasure == level.treasure,
    {
        self.level = level;
        self.level.player.has_mask = false;
        self.level_num = self.level_num + 1;
        self.move_dir = Vec2::new(0, 0);
    }

    /// Repaints the canvas: it is cleared to opaque black, and the level is
    /// composited onto it.
    pub fn render(&self, tile_set: &TileSet, vfb: &mut VirtualFrameBuffer)
        requires
            self.level.wf(),
            self.level.fits(tile_set),
        ensures
            final(vfb)@ == self.level.rendered(cleared(old(vfb)@, black()), tile_set),
    {
        vfb.clear(Color4::new(0, 0, 0, 255));
        self.level.draw(tile_set, vfb);
    }
}

/// The unit vector of a direction key; no movement for any other input.
pub open spec fn unit_of(input: Input) -> Vec2 {
    match input {
        Input::Left => Vec2 { x: -1i32, y: 0 },
        Input::Right => Vec2 { x: 1, y: 0 },
        Input::Up => Vec2 { x: 0, y: -1i32 },
        Input::Down => Vec2 { x: 0, y: 1 },
        Input::Action => still(),
        Input::Idle => still(),
    }
}

/// The key of the opposite direction.
pub open spec fn opposite(input: Input) -> Input {
    match input {
        Input::Left => Input::Right,
        Input::Right => Input::Left,
        Input::Up => Input::Down,
        Input::Down => Input::Up,
        Input::Action => Input::Action,
        Input::Idle => Input::Idle,
    }
}

/// Whether `input` is one of the four direction keys.
pub open spec fn is_direction(input: Input) -> bool {
    input == Input::Left || input == Input::Right || input == Input::Up || input == Input::Down
}

/// Key presses do not add up: after a direction key the movement is the
/// unit vector of that key or no movement, whatever it was before.
pub proof fn lemma_steering_never_accumulates(move_dir: Vec2, input: Input)
    requires
        is_direction(input),
    ensures
        steered(move_dir, input) == unit_of(input) || steered(move_dir, input) == still(),
{
}

/// Pressing a direction key twice moves the player by the unit vector of
/// that key, not by twice that vector.
pub proof fn lemma_same_key_twice(move_dir: Vec2, input: Input)
    requires
        is_direction(input),
    ensures
        steered(steered(move_dir, input), input) == unit_of(input),
{
}

/// Pressing the key of the opposite direction stops a player that moves
/// along the unit vector of a direction key.
pub proof fn lemma_opposite_key_stops(input: Input)
    requires
        is_direction(input),
    ensures
        steered(unit_of(input), opposite(input)) == still(),
{
}

/// A key of the other axis does not stop the player: it turns the movement
/// to its own unit vector.
pub proof fn lemma_other_axis_turns(moving: Input, input: Input)
    requires
        is_direction(moving),
        is_direction(input),
        input != moving,
        input != opposite(moving),
    ensures
        steered(unit_of(moving), input) == unit_of(input),
{
}

} // verus!
