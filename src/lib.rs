//! A seeded, time-stepped simulation core for a small asteroid-shooter arena.
//!
//! Positions are integers in micro-pixels, headings in millidegrees and time in
//! milliseconds, so every step is exact and reproducible. The host calls
//! [`GameData::update`] once per frame and reads the world back to draw it.
pub mod collisions;
pub mod controllers;
pub mod game_state;
pub mod geometry;
pub mod models;

use vstd::prelude::*;
use crate::collisions::{collided, CollisionsController};
use crate::controllers::{step, valid_draw, Actions, Clock, TimeController};
use crate::game_state::{fresh_world, GameState, PlayerHitPolicy, World, WorldModel};
use crate::geometry::{Point, Size, MAX_SIDE_PIXELS, UNITS_PER_PIXEL};

verus! {

/// Seed of the generator behind enemy spawns.
pub const SEED: u64 = 42;

/// Stream of the generator behind enemy spawns.
pub const STREAM: u64 = 42;

/// A running game: its state, the input flags latched by the host and the clock.
pub struct GameData {
    pub state: GameState,
    pub actions: Actions,
    pub time_controller: TimeController,
}

/// The world, score and clock after a whole frame: motion and spawns, then collisions.
pub open spec fn frame(
    w: WorldModel,
    score: u64,
    policy: PlayerHitPolicy,
    c: Clock,
    dt: u64,
    a: Actions,
    draw: Option<Point>,
) -> (WorldModel, u64, Clock) {
    let (w1, c1) = step(w, c, dt, a, draw);
    let (w2, s2) = collided(w1, score, policy);
    (w2, s2, c1)
}

/// An arena of `width` by `height` pixels.
pub open spec fn arena(width: u32, height: u32) -> Size {
    Size { width: (width * UNITS_PER_PIXEL) as i64, height: (height * UNITS_PER_PIXEL) as i64 }
}

/// A frame is a function of the state, the frame length, the input and the point
/// drawn: two games that agree on all of these end the frame in the same state.
pub proof fn lemma_frame_deterministic(
    w1: WorldModel,
    w2: WorldModel,
    score1: u64,
    score2: u64,
    policy: PlayerHitPolicy,
    c1: Clock,
    c2: Clock,
    dt: u64,
    a: Actions,
    draw: Option<Point>,
)
    requires
        w1 == w2,
        score1 == score2,
        c1 == c2,
    ensures
        frame(w1, score1, policy, c1, dt, a, draw) == frame(w2, score2, policy, c2, dt, a, draw),
{
}

/// The score never goes down, whatever the policy for player hits: each frame adds
/// exactly `SCORE_PER_ENEMY` for each enemy shot down in it (saturating at the largest
/// score), and enemies touching the player add nothing.
pub proof fn lemma_score_monotonic(
    w: WorldModel,
    score: u64,
    policy: PlayerHitPolicy,
    c: Clock,
    dt: u64,
    a: Actions,
    draw: Option<Point>,
)
    ensures
        ({
            let (w1, c1) = step(w, c, dt, a, draw);
            let kills = crate::collisions::resolve_all(w1).kills;
            let after = frame(w, score, policy, c, dt, a, draw).1;
            &&& after == crate::collisions::add_score(
                score,
                crate::collisions::SCORE_PER_ENEMY * kills,
            )
            &&& after >= score
        }),
{
}

fn int_to_bool(i: i32) -> (r: bool)
    ensures
        r == (i != 0),
{
    i != 0
}

impl GameData {
    /// The world is well formed and the clock's timers do not lie in the future.
    pub open spec fn wf(&self) -> bool {
        self.state.wf() && self.time_controller.clock.wf()
    }

    /// A new game in an arena of `width` by `height` pixels: the player in the centre
    /// and at rest, nothing else, score zero, no input, the clock at zero and the
    /// generator seeded with `SEED` and `STREAM`. An enemy that touches the player is
    /// only destroyed (`PlayerHitPolicy::RemoveEnemy`), so the score never goes down.
    pub fn new(width: u32, height: u32) -> (r: GameData)
        requires
            0 < width <= MAX_SIDE_PIXELS,
            0 < height <= MAX_SIDE_PIXELS,
        ensures
            r.state.world@ == fresh_world(arena(width, height)),
            r.state.score == 0,
            r.state.policy == PlayerHitPolicy::RemoveEnemy,
            r.actions == Actions::new_spec(),
            r.time_controller.clock == Clock::new_spec(),
            r.wf(),
    {
        GameData {
            state: GameState::new(Size::from_pixels(width, height)),
            actions: Actions::new(),
            time_controller: TimeController::new(SEED, STREAM),
        }
    }

    /// A new game as `new` makes it, but dealing with enemies that touch the player
    /// under `policy`.
    pub fn with_policy(width: u32, height: u32, policy: PlayerHitPolicy) -> (r: GameData)
        requires
            0 < width <= MAX_SIDE_PIXELS,
            0 < height <= MAX_SIDE_PIXELS,
        ensures
            r.state.world@ == fresh_world(arena(width, height)),
            r.state.score == 0,
            r.state.policy == policy,
            r.actions == Actions::new_spec(),
            r.time_controller.clock == Clock::new_spec(),
            r.wf(),
    {
        GameData {
            state: GameState::with_policy(Size::from_pixels(width, height), policy),
            actions: Actions::new(),
            time_controller: TimeController::new(SEED, STREAM),
        }
    }

    /// Advances the game by `dt` milliseconds. An empty frame (`dt == 0`) changes
    /// nothing, nor does a frame that would carry the clock past its largest value;
    /// otherwise it is the `frame` taken
    /// with whatever point the generator drew for a new enemy.
    pub fn update(&mut self, dt: u64)
        requires
            old(self).wf(),
        ensures
            final(self).wf(),
            final(self).actions == old(self).actions,
            final(self).state.policy == old(self).state.policy,
            dt == 0 || old(self).time_controller.clock.now + dt > u64::MAX ==> final(self).state.world@
                == old(self).state.world@ && final(self).state.score == old(self).state.score
                && final(self).time_controller.clock == old(self).time_controller.clock,
            dt > 0 && old(self).time_controller.clock.now + dt <= u64::MAX ==> exists|draw: Option<Point>|
                #[trigger] valid_draw(
                    draw,
                    old(self).time_controller.clock,
                    (old(self).time_controller.clock.now + dt) as u64,
                    old(self).state.world@,
                ) && (
                    final(self).state.world@,
                    final(self).state.score,
                    final(self).time_controller.clock,
                ) == frame(
                    old(self).state.world@,
                    old(self).state.score,
                    old(self).state.policy,
                    old(self).time_controller.clock,
                    dt,
                    old(self).actions,
                    draw,
                ),
    {
        let ghost w0 = self.state.world@;
        let ghost s0 = self.state.score;
        let ghost c0 = self.time_controller.clock;
        if dt == 0 || dt > u64::MAX - self.time_controller.clock.now {
            return;
        }
        self.time_controller.update(dt, &self.actions, &mut self.state);
        let ghost w1 = self.state.world@;
        let ghost c1 = self.time_controller.clock;
        CollisionsController::handle_collisions(&mut self.state);
        proof {
                let draw = choose|draw: Option<Point>|
                    #[trigger] valid_draw(draw, c0, (c0.now + dt) as u64, w0) && (w1, c1) == step(
                        w0,
                        c0,
                        dt,
                        self.actions,
                        draw,
                    );
            assert(valid_draw(draw, c0, (c0.now + dt) as u64, w0));
        }
    }

    /// Latches the fire flag: any nonzero `b` sets it, zero clears it.
    pub fn toggle_shoot(&mut self, b: i32)
        ensures
            final(self).actions == (Actions { shoot: b != 0, ..old(self).actions }),
            final(self).state == old(self).state,
            final(self).time_controller == old(self).time_controller,
    {
        self.actions.shoot = int_to_bool(b);
    }

    /// Latches the thrust flag: any nonzero `b` sets it, zero clears it.
    pub fn toggle_boost(&mut self, b: i32)
        ensures
            final(self).actions == (Actions { boost: b != 0, ..old(self).actions }),
            final(self).state == old(self).state,
            final(self).time_controller == old(self).time_controller,
    {
        self.actions.boost = int_to_bool(b);
    }

    /// Latches the turn left flag: any nonzero `b` sets it, zero clears it.
    pub fn toggle_turn_left(&mut self, b: i32)
        ensures
            final(self).actions == (Actions { rotate_left: b != 0, ..old(self).actions }),
            final(self).state == old(self).state,
            final(self).time_controller == old(self).time_controller,
    {
        self.actions.rotate_left = int_to_bool(b);
    }

    /// Latches the turn right flag: any nonzero `b` sets it, zero clears it.
    pub fn toggle_turn_right(&mut self, b: i32)
        ensures
            final(self).actions == (Actions { rotate_right: b != 0, ..old(self).actions }),
            final(self).state == old(self).state,
            final(self).time_controller == old(self).time_controller,
    {
        self.actions.rotate_right = int_to_bool(b);
    }

    /// A brand-new game in an arena of `width` by `height` pixels; nothing of this
    /// one is kept.
    pub fn resize(&self, width: u32, height: u32) -> (r: GameData)
        requires
            0 < width <= MAX_SIDE_PIXELS,
            0 < height <= MAX_SIDE_PIXELS,
        ensures
            r.state.world@ == fresh_world(arena(width, height)),
            r.state.score == 0,
            r.state.policy == PlayerHitPolicy::RemoveEnemy,
            r.actions == Actions::new_spec(),
            r.time_controller.clock == Clock::new_spec(),
            r.wf(),
    {
        GameData::new(width, height)
    }

    /// The world as it stands, for drawing.
    pub fn world(&self) -> (r: &World)
        ensures
            r == &self.state.world,
    {
        &self.state.world
    }

    /// Points scored so far.
    pub fn score(&self) -> (r: u64)
        ensures
            r == self.state.score,
    {
        self.state.score
    }
}

} // verus!
