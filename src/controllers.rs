use vstd::prelude::*;
use pcg_rand::seeds::PcgSeeder;
use pcg_rand::Pcg32Basic;
use rand::Rng;
use rand::SeedableRng;
use crate::game_state::{GameState, World, WorldModel};
use crate::geometry::{
    advance_wrapping, advanced, dist2, intersect_circle, turn, turned, wrap, Point, Size, Vector,
    HALF_TURN,
};
use crate::models::{
    reversed, spec_toward, toward, Bullet, Enemy, Particle,
};

verus! {

/// Turning speed, in millidegrees per millisecond (one full turn per second).
pub const ROTATE_SPEED: i64 = 360;

/// Shortest time between two shots, in milliseconds.
pub const BULLET_RATE: u64 = 10;

/// Time between two enemy spawns, in milliseconds.
pub const ENEMY_SPAWN_RATE: u64 = 1000;

/// Time between two particles of the player's trail, in milliseconds.
pub const TRAIL_PARTICLE_RATE: u64 = 50;

/// Life of a trail particle, in milliseconds.
pub const TRAIL_PARTICLE_TTL: u64 = 500;

/// Radius around the player inside which no enemy appears, in micro-pixels.
pub const PLAYER_GRACE_AREA: i64 = 200_000_000;

/// Most enemies alive at once.
pub const MAX_ENEMIES: usize = 100;

/// The input flags of a frame.
#[derive(Clone, Copy, Debug, PartialEq, Eq, Structural)]
pub struct Actions {
    pub shoot: bool,
    pub boost: bool,
    pub rotate_left: bool,
    pub rotate_right: bool,
}

impl Actions {
    pub open spec fn new_spec() -> Actions {
        Actions { shoot: false, boost: false, rotate_left: false, rotate_right: false }
    }

    /// No input set.
    pub fn new() -> (r: Actions)
        ensures
            r == Actions::new_spec(),
    {
        Actions { shoot: false, boost: false, rotate_left: false, rotate_right: false }
    }
}

/// The timers of the simulation, in milliseconds since the start.
#[derive(Clone, Copy, Debug, PartialEq, Eq, Structural)]
pub struct Clock {
    pub now: u64,
    pub last_trail: u64,
    /// When the last bullet was fired; `None` before the first shot.
    pub last_shot: Option<u64>,
    pub last_spawn: u64,
}

impl Clock {
    pub open spec fn new_spec() -> Clock {
        Clock { now: 0, last_trail: 0, last_shot: None, last_spawn: 0 }
    }

    /// The clock at the start of a game.
    pub fn new() -> (r: Clock)
        ensures
            r == Clock::new_spec(),
    {
        Clock { now: 0, last_trail: 0, last_shot: None, last_spawn: 0 }
    }

    pub open spec fn wf(self) -> bool {
        &&& self.last_trail <= self.now
        &&& self.last_spawn <= self.now
        &&& (self.last_shot matches Some(t) ==> t <= self.now)
    }
}

/// Heading change for one frame, in millidegrees.
pub open spec fn rotation(a: Actions, dt: u64) -> int {
    (if a.rotate_right {
        ROTATE_SPEED * dt
    } else {
        0
    }) - (if a.rotate_left {
        ROTATE_SPEED * dt
    } else {
        0
    })
}

pub open spec fn age_particles(ps: Seq<Particle>, dt: u64, s: Size) -> Seq<Particle> {
    ps.map_values(|p: Particle| p.spec_update(dt, s)).filter(|p: Particle| p.ttl > 0)
}

pub open spec fn age_bullets(bs: Seq<Bullet>, dt: u64, s: Size) -> Seq<Bullet> {
    bs.map_values(|b: Bullet| b.spec_update(dt, s)).filter(|b: Bullet| b.ttl > 0)
}

pub open spec fn chase_player(es: Seq<Enemy>, target: Point, dt: u64, s: Size) -> Seq<Enemy> {
    es.map_values(|e: Enemy| e.spec_update(target, dt, s))
}

pub open spec fn trail_due(c: Clock, now: u64) -> bool {
    now - c.last_trail > TRAIL_PARTICLE_RATE
}

pub open spec fn shot_allowed(c: Clock, now: u64) -> bool {
    match c.last_shot {
        None => true,
        Some(t) => now - t >= BULLET_RATE,
    }
}

/// Whether a frame ending at `now` brings a new enemy, with `alive` enemies in the arena.
pub open spec fn spawn_due(c: Clock, now: u64, alive: int) -> bool {
    now - c.last_spawn >= ENEMY_SPAWN_RATE && alive < MAX_ENEMIES
}

/// Where an enemy drawn at `draw` appears: pushed out to the edge of the grace area
/// when it falls inside it.
pub open spec fn spawn_point(draw: Point, player: Point, s: Size) -> Point {
    if dist2(draw, player) > PLAYER_GRACE_AREA * PLAYER_GRACE_AREA {
        draw
    } else if draw == player {
        Point { x: ((player.x + PLAYER_GRACE_AREA) % (s.width as int)) as i64, y: player.y }
    } else {
        spec_toward(player, draw, PLAYER_GRACE_AREA as int, s)
    }
}

/// The world and timers after the motion, spawns and expiries of a frame of `dt`
/// milliseconds. `draw` is the random point drawn for a new enemy, if one is due.
pub open spec fn step(w: WorldModel, c: Clock, dt: u64, a: Actions, draw: Option<Point>) -> (
    WorldModel,
    Clock,
) {
    let now = (c.now + dt) as u64;
    let s = w.size;
    let dir = turned(w.player.vector.direction as int, rotation(a, dt)) as i64;
    let player = w.player.spec_update(dir, a.boost, dt, s);
    let pos = player.vector.position;
    let player_v = player.vector;
    let ps = age_particles(w.particles, dt, s);
    let trail = trail_due(c, now);
    let ps = if trail {
        ps.push(
            Particle {
                vector: Vector { position: pos, direction: reversed(dir as int) as i64 },
                ttl: TRAIL_PARTICLE_TTL,
            },
        )
    } else {
        ps
    };
    let bs = age_bullets(w.bullets, dt, s);
    let shot = a.shoot && shot_allowed(c, now);
    let bs = if shot {
        bs.push(Bullet { vector: player_v, ttl: crate::models::BULLET_LIFETIME })
    } else {
        bs
    };
    let es = chase_player(w.enemies, pos, dt, s);
    let spawned = spawn_due(c, now, es.len() as int) && draw is Some;
    let es = if spawned {
        es.push(Enemy { position: spawn_point(draw->0, pos, s) })
    } else {
        es
    };
    (
        WorldModel {
            player,
            particles: ps,
            bullets: bs,
            enemies: es,
            size: s,
        },
        Clock {
            now,
            last_trail: if trail {
                now
            } else {
                c.last_trail
            },
            last_shot: if shot {
                Some(now)
            } else {
                c.last_shot
            },
            last_spawn: if spawned {
                now
            } else {
                c.last_spawn
            },
        },
    )
}

fn update_particles(w: &mut World, dt: u64)
    requires
        old(w)@.wf(),
    ensures
        final(w)@ == (WorldModel {
            particles: age_particles(old(w)@.particles, dt, old(w).size),
            ..old(w)@
        }),
        final(w)@.wf(),
{
    let s = w.size;
    let ghost ps = w.particles@;
    let ghost f = |p: Particle| p.spec_update(dt, s);
    let ghost pred = |p: Particle| p.ttl > 0;
    let mut out: Vec<Particle> = Vec::new();
    let mut i: usize = 0;
    while i < w.particles.len()
        invariant
            w@ == old(w)@,
            ps == w.particles@,
            old(w)@.wf(),
            s == w.size,
            f == (|p: Particle| p.spec_update(dt, s)),
            pred == (|p: Particle| p.ttl > 0),
            0 <= i <= ps.len(),
            out@ == ps.take(i as int).map_values(f).filter(pred),
            forall|j: int| 0 <= j < out@.len() ==> #[trigger] out@[j].within(s),
        decreases ps.len() - i,
    {
        assert(old(w)@.particles[i as int].within(old(w)@.size));
        let q = w.particles[i].update(dt, s);
        proof {
            let t = ps.take(i + 1).map_values(f);
            assert(t.drop_last() =~= ps.take(i as int).map_values(f));
            assert(t.last() == q);
            assert(t.filter(pred) == if pred(q) {
                t.drop_last().filter(pred).push(q)
            } else {
                t.drop_last().filter(pred)
            }) by {
                reveal(Seq::filter);
            }
        }
        if q.ttl > 0 {
            out.push(q);
        }
        i = i + 1;
    }
    assert(ps.take(ps.len() as int) =~= ps);
    let ghost w1 = w@;
    w.particles = out;
    assert(w@.bullets == w1.bullets);
    assert(w@.enemies == w1.enemies);
}

fn update_bullets(w: &mut World, dt: u64)
    requires
        old(w)@.wf(),
    ensures
        final(w)@ == (WorldModel { bullets: age_bullets(old(w)@.bullets, dt, old(w).size), ..old(w)@ }),
        final(w)@.wf(),
{
    let s = w.size;
    let ghost bs = w.bullets@;
    let ghost f = |b: Bullet| b.spec_update(dt, s);
    let ghost pred = |b: Bullet| b.ttl > 0;
    let mut out: Vec<Bullet> = Vec::new();
    let mut i: usize = 0;
    while i < w.bullets.len()
        invariant
            w@ == old(w)@,
            bs == w.bullets@,
            old(w)@.wf(),
            s == w.size,
            f == (|b: Bullet| b.spec_update(dt, s)),
            pred == (|b: Bullet| b.ttl > 0),
            0 <= i <= bs.len(),
            out@ == bs.take(i as int).map_values(f).filter(pred),
            forall|j: int| 0 <= j < out@.len() ==> #[trigger] out@[j].within(s),
        decreases bs.len() - i,
    {
        assert(old(w)@.bullets[i as int].within(old(w)@.size));
        let q = w.bullets[i].update(dt, s);
        proof {
            let t = bs.take(i + 1).map_values(f);
            assert(t.drop_last() =~= bs.take(i as int).map_values(f));
            assert(t.last() == q);
            assert(t.filter(pred) == if pred(q) {
                t.drop_last().filter(pred).push(q)
            } else {
                t.drop_last().filter(pred)
            }) by {
                reveal(Seq::filter);
            }
        }
        if q.ttl > 0 {
            out.push(q);
        }
        i = i + 1;
    }
    assert(bs.take(bs.len() as int) =~= bs);
    let ghost w1 = w@;
    w.bullets = out;
    assert(w@.particles == w1.particles);
    assert(w@.enemies == w1.enemies);
}

fn update_enemies(w: &mut World, target: Point, dt: u64)
    requires
        old(w)@.wf(),
        old(w).size.contains(target),
    ensures
        final(w)@ == (WorldModel {
            enemies: chase_player(old(w)@.enemies, target, dt, old(w).size),
            ..old(w)@
        }),
        final(w)@.wf(),
{
    let s = w.size;
    let ghost es = w.enemies@;
    let ghost f = |e: Enemy| e.spec_update(target, dt, s);
    let mut out: Vec<Enemy> = Vec::new();
    let mut i: usize = 0;
    while i < w.enemies.len()
        invariant
            w@ == old(w)@,
            es == w.enemies@,
            old(w)@.wf(),
            s == w.size,
            s.contains(target),
            f == (|e: Enemy| e.spec_update(target, dt, s)),
            0 <= i <= es.len(),
            out@ == es.take(i as int).map_values(f),
            forall|j: int| 0 <= j < out@.len() ==> s.contains(#[trigger] out@[j].position),
        decreases es.len() - i,
    {
        assert(old(w)@.size.contains(old(w)@.enemies[i as int].position));
        let q = w.enemies[i].update(target, dt, s);
        out.push(q);
        assert(es.take(i + 1).map_values(f) =~= es.take(i as int).map_values(f).push(q));
        i = i + 1;
    }
    assert(es.take(es.len() as int) =~= es);
    let ghost w1 = w@;
    w.enemies = out;
    assert(w@.particles == w1.particles);
    assert(w@.bullets == w1.bullets);
}

/// Whether `b` is a bullet of `bs` that had more than `dt` milliseconds left, aged by `dt`.
pub open spec fn aged_from(b: Bullet, bs: Seq<Bullet>, dt: u64, s: Size) -> bool {
    exists|j: int| 0 <= j < bs.len() && bs[j].ttl > dt && b == #[trigger] bs[j].spec_update(dt, s)
}

/// A bullet ages by exactly the frame length and is gone once its life is used up:
/// every bullet left after aging by `dt` comes from a bullet that had more than `dt`
/// milliseconds left, moved and with exactly `dt` less to live.
pub proof fn lemma_bullet_lifetime(bs: Seq<Bullet>, dt: u64, s: Size)
    ensures
        forall|i: int|
            0 <= i < age_bullets(bs, dt, s).len() ==> aged_from(
                #[trigger] age_bullets(bs, dt, s)[i],
                bs,
                dt,
                s,
            ),
{
    let f = |b: Bullet| b.spec_update(dt, s);
    let pred = |b: Bullet| b.ttl > 0;
    let m = bs.map_values(f);
    assert forall|i: int| 0 <= i < age_bullets(bs, dt, s).len() implies aged_from(
        #[trigger] age_bullets(bs, dt, s)[i],
        bs,
        dt,
        s,
    ) by {
        let out = m.filter(pred);
        assert(out.contains(out[i]));
        m.lemma_filter_contains_rev(pred, out[i]);
        m.lemma_filter_pred(pred, i);
        let j = choose|j: int| 0 <= j < m.len() && m[j] == out[i];
        assert(m[j] == bs[j].spec_update(dt, s));
        assert(bs[j].ttl > dt);
    }
}

/// Where an enemy drawn at `draw` appears; see `spawn_point`.
pub fn spawn_position(draw: Point, player: Point, s: Size) -> (r: Point)
    requires
        s.wf(),
        s.contains(draw),
        s.contains(player),
    ensures
        r == spawn_point(draw, player, s),
        s.contains(r),
{
    if !intersect_circle(draw, player, PLAYER_GRACE_AREA) {
        draw
    } else if draw.x == player.x && draw.y == player.y {
        Point { x: wrap(player.x as i128 + PLAYER_GRACE_AREA as i128, s.width), y: player.y }
    } else {
        toward(player, draw, PLAYER_GRACE_AREA as u128, s)
    }
}

/// Runs the motion, spawns and expiries of one frame of `dt` milliseconds, given the
/// point `draw` drawn for a new enemy: see `step`.
pub fn advance(clock: &mut Clock, w: &mut World, dt: u64, a: &Actions, draw: Option<Point>)
    requires
        old(w)@.wf(),
        old(clock).wf(),
        old(clock).now + dt <= u64::MAX,
        draw matches Some(p) ==> old(w).size.contains(p),
    ensures
        (final(w)@, *final(clock)) == step(old(w)@, *old(clock), dt, *a, draw),
        final(w)@.wf(),
        final(clock).wf(),
{
    let ghost w0 = w@;
    let now = clock.now + dt;
    let s = w.size;
    assert(0 <= 360 * (dt as i128) <= 360 * 0xffff_ffff_ffff_ffffi128) by (nonlinear_arith)
        requires
            0 <= dt <= u64::MAX,
    ;
    let right: i128 = if a.rotate_right {
        ROTATE_SPEED as i128 * dt as i128
    } else {
        0
    };
    let left: i128 = if a.rotate_left {
        ROTATE_SPEED as i128 * dt as i128
    } else {
        0
    };
    let dir = turn(w.player.vector.direction, right - left);
    let player = w.player.update(dir, a.boost, dt, s);
    let pos = player.vector.position;
    let player_v = player.vector;
    w.player = player;
    assert(w@.particles == w0.particles);
    assert(w@.bullets == w0.bullets);
    assert(w@.enemies == w0.enemies);
    assert(w@.wf());
    update_particles(w, dt);
    if now - clock.last_trail > TRAIL_PARTICLE_RATE {
        let back = turn(dir, HALF_TURN as i128);
        let ghost ps0 = w@.particles;
        w.particles.push(
            Particle::new(Vector { position: pos, direction: back }, TRAIL_PARTICLE_TTL),
        );
        clock.last_trail = now;
        proof {
            let wm = w@;
            assert forall|j: int| 0 <= j < wm.particles.len() implies #[trigger] wm.particles[j].within(wm.size) by {
                if j < ps0.len() {
                    assert(ps0[j] == wm.particles[j]);
                }
            }
        }
    }
    update_bullets(w, dt);
    let shot = a.shoot && match clock.last_shot {
        None => true,
        Some(t) => now - t >= BULLET_RATE,
    };
    if shot {
        let ghost bs0 = w@.bullets;
        w.bullets.push(Bullet::new(player_v));
        clock.last_shot = Some(now);
        proof {
            let wm = w@;
            assert forall|j: int| 0 <= j < wm.bullets.len() implies #[trigger] wm.bullets[j].within(wm.size) by {
                if j < bs0.len() {
                    assert(bs0[j] == wm.bullets[j]);
                }
            }
        }
    }
    update_enemies(w, pos, dt);
    if now - clock.last_spawn >= ENEMY_SPAWN_RATE && w.enemies.len() < MAX_ENEMIES {
        match draw {
            Some(p) => {
                let q = spawn_position(p, pos, s);
                let ghost es0 = w@.enemies;
                w.enemies.push(Enemy { position: q });
                clock.last_spawn = now;
                proof {
                    let wm = w@;
                    assert forall|j: int| 0 <= j < wm.enemies.len() implies wm.size.contains(#[trigger] wm.enemies[j].position) by {
                        if j < es0.len() {
                            assert(es0[j] == wm.enemies[j]);
                        }
                    }
                }
            },
            None => {},
        }
    }
    clock.now = now;
}

#[verifier::external_type_specification]
#[verifier::external_body]
pub struct ExPcg32Basic(Pcg32Basic);

/// Relies on pcg_rand's `PcgSeeder::seed_with_stream` and `Pcg32Basic::from_seed`: a
/// generator whose output is fixed by the two numbers.
#[verifier::external_body]
fn seeded_rng(seed: u64, stream: u64) -> (r: Pcg32Basic) {
    Pcg32Basic::from_seed(PcgSeeder::seed_with_stream(seed, stream))
}

/// Relies on rand's `Rng::gen_range`: a number in `0 .. bound` (it panics on an empty
/// range, which `requires` rules out).
#[verifier::external_body]
fn random_below(rng: &mut Pcg32Basic, bound: u64) -> (r: u64)
    requires
        bound > 0,
    ensures
        r < bound,
{
    rng.gen_range(0..bound)
}

/// Advances the world in time, drawing spawn points from its own seeded generator.
pub struct TimeController {
    pub rng: Pcg32Basic,
    pub clock: Clock,
}

impl TimeController {
    /// A controller at time zero whose generator is seeded with `seed` and `stream`.
    pub fn new(seed: u64, stream: u64) -> (r: TimeController)
        ensures
            r.clock == (Clock { now: 0, last_trail: 0, last_shot: None, last_spawn: 0 }),
    {
        TimeController { rng: seeded_rng(seed, stream), clock: Clock::new() }
    }

    /// Advances `state` by `dt` milliseconds under the input `a`. A frame that would
    /// carry the clock past its largest value is refused and changes nothing. Otherwise,
    /// when an enemy is due, a point of the arena is drawn for it, and the frame is the
    /// `step` taken with that draw.
    pub fn update(&mut self, dt: u64, a: &Actions, state: &mut GameState)
        requires
            old(state).wf(),
            old(self).clock.wf(),
        ensures
            final(state).score == old(state).score,
            final(state).policy == old(state).policy,
            final(state).wf(),
            final(self).clock.wf(),
            old(self).clock.now + dt > u64::MAX ==> final(state).world@ == old(state).world@
                && final(self).clock == old(self).clock,
            old(self).clock.now + dt <= u64::MAX ==> exists|draw: Option<Point>|
                #[trigger] valid_draw(
                    draw,
                    old(self).clock,
                    (old(self).clock.now + dt) as u64,
                    old(state).world@,
                ) && (final(state).world@, final(self).clock) == step(
                    old(state).world@,
                    old(self).clock,
                    dt,
                    *a,
                    draw,
                ),
    {
        if dt > u64::MAX - self.clock.now {
            return;
        }
        let now = self.clock.now + dt;
        let s = state.world.size;
        let due = now - self.clock.last_spawn >= ENEMY_SPAWN_RATE && state.world.enemies.len()
            < MAX_ENEMIES;
        let draw = if due {
            let x = random_below(&mut self.rng, s.width as u64);
            let y = random_below(&mut self.rng, s.height as u64);
            Some(Point { x: x as i64, y: y as i64 })
        } else {
            None
        };
        assert(valid_draw(draw, self.clock, now, state.world@));
        advance(&mut self.clock, &mut state.world, dt, a, draw);
    }
}

/// What a frame may have drawn for a new enemy: a point of the arena exactly when one
/// is due.
pub open spec fn valid_draw(draw: Option<Point>, c: Clock, now: u64, w: WorldModel) -> bool {
    &&& (draw is Some <==> spawn_due(c, now, w.enemies.len() as int))
    &&& (draw matches Some(p) ==> w.size.contains(p))
}

} // verus!
