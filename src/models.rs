use vstd::prelude::*;
use crate::geometry::{
    advance_wrapping, advanced, cos_scaled, cosine, floor_sqrt, isqrt, sin_scaled, sine, turned,
    valid_direction, wrap, Point, Size, Vector, HALF_TURN, MAX_SIDE_PIXELS, UNIT, UNITS_PER_PIXEL,
};

verus! {

/// Collision radii, in micro-pixels.
pub const PLAYER_RADIUS: i64 = 6_000_000;

pub const ENEMY_RADIUS: i64 = 10_000_000;

pub const BULLET_RADIUS: i64 = 3_000_000;

/// Player thrust while boosting: velocity gained per millisecond along the heading,
/// in micro-pixels per millisecond per unit of `UNIT` (1000 pixels per second squared).
pub const BOOST_ACCELERATION: i64 = 1;

/// Largest speed of the player along each axis, in micro-pixels per millisecond
/// (400 pixels per second).
pub const MAX_PLAYER_SPEED: i64 = 400_000;

/// Speeds, in pixels per second.
pub const BULLET_SPEED: u64 = 500;

pub const ENEMY_SPEED: u64 = 100;

/// How long a bullet lives, in milliseconds.
pub const BULLET_LIFETIME: u64 = 1000;

/// Longest life a particle can be given, in milliseconds.
pub const MAX_PARTICLE_TTL: u64 = 1000;

/// A velocity, in micro-pixels per millisecond (1000 of them make a pixel per second).
#[derive(Clone, Copy, Debug, PartialEq, Eq, Structural)]
pub struct Velocity {
    pub dx: i64,
    pub dy: i64,
}

/// The ship: where it is, where it heads and how it drifts.
#[derive(Clone, Copy, Debug, PartialEq, Eq, Structural)]
pub struct Player {
    pub vector: Vector,
    pub velocity: Velocity,
}

#[derive(Clone, Copy, Debug, PartialEq, Eq, Structural)]
pub struct Enemy {
    pub position: Point,
}

/// A projectile; `ttl` is the time it has left, in milliseconds.
#[derive(Clone, Copy, Debug, PartialEq, Eq, Structural)]
pub struct Bullet {
    pub vector: Vector,
    pub ttl: u64,
}

/// A spark of an effect; `ttl` is the time it has left, in milliseconds.
#[derive(Clone, Copy, Debug, PartialEq, Eq, Structural)]
pub struct Particle {
    pub vector: Vector,
    pub ttl: u64,
}

pub open spec fn sat_sub(a: u64, b: u64) -> u64 {
    if a > b {
        (a - b) as u64
    } else {
        0
    }
}

impl Bullet {
    pub open spec fn within(self, s: Size) -> bool {
        self.vector.within(s) && 0 < self.ttl <= BULLET_LIFETIME
    }

    /// A bullet leaving from `v` with the full lifetime.
    pub fn new(v: Vector) -> (r: Bullet)
        ensures
            r == (Bullet { vector: v, ttl: BULLET_LIFETIME }),
    {
        Bullet { vector: v, ttl: BULLET_LIFETIME }
    }

    pub open spec fn spec_update(self, dt: u64, s: Size) -> Bullet {
        Bullet {
            vector: Vector {
                position: advanced(self.vector, BULLET_SPEED * dt, s),
                direction: self.vector.direction,
            },
            ttl: sat_sub(self.ttl, dt),
        }
    }

    /// Moves the bullet along its heading for `dt` milliseconds and shortens its life.
    pub fn update(&self, dt: u64, s: Size) -> (r: Bullet)
        requires
            s.wf(),
            self.vector.within(s),
        ensures
            r == self.spec_update(dt, s),
            r.vector.within(s),
    {
        assert(BULLET_SPEED as u128 * dt as u128 <= crate::geometry::MAX_MOVE) by (nonlinear_arith)
            requires
                dt <= u64::MAX,
        ;
        let p = advance_wrapping(self.vector, BULLET_SPEED as u128 * dt as u128, s);
        let ttl = if self.ttl > dt {
            self.ttl - dt
        } else {
            0
        };
        Bullet { vector: Vector { position: p, direction: self.vector.direction }, ttl }
    }
}

/// Particle speed, in pixels per second, for `ttl` milliseconds left.
pub open spec fn particle_speed(ttl: u64) -> int {
    (ttl * ttl) / 2000
}

impl Particle {
    pub open spec fn within(self, s: Size) -> bool {
        self.vector.within(s) && self.ttl <= MAX_PARTICLE_TTL
    }

    pub fn new(v: Vector, ttl: u64) -> (r: Particle)
        ensures
            r == (Particle { vector: v, ttl }),
    {
        Particle { vector: v, ttl }
    }

    pub open spec fn spec_update(self, dt: u64, s: Size) -> Particle {
        let ttl = sat_sub(self.ttl, dt);
        Particle {
            vector: Vector {
                position: advanced(self.vector, particle_speed(ttl) * dt, s),
                direction: self.vector.direction,
            },
            ttl,
        }
    }

    /// Ages the particle by `dt` milliseconds; it slows down as it fades.
    pub fn update(&self, dt: u64, s: Size) -> (r: Particle)
        requires
            s.wf(),
            self.within(s),
        ensures
            r == self.spec_update(dt, s),
            r.vector.within(s),
            r.ttl <= self.ttl,
    {
        let ttl = if self.ttl > dt {
            self.ttl - dt
        } else {
            0
        };
        assert(ttl * ttl <= 1_000_000) by (nonlinear_arith)
            requires
                ttl <= 1000,
        ;
        let speed = (ttl * ttl) / 2000;
        assert(speed as u128 * dt as u128 <= crate::geometry::MAX_MOVE) by (nonlinear_arith)
            requires
                speed <= 500,
                dt <= u64::MAX,
        ;
        let p = advance_wrapping(self.vector, speed as u128 * dt as u128, s);
        Particle { vector: Vector { position: p, direction: self.vector.direction }, ttl }
    }
}

/// `from` moved toward `to` by `step * |to - from| / len`.
pub open spec fn chase(from: int, to: int, step: int, len: int) -> int {
    if to >= from {
        from + ((to - from) * step) / len
    } else {
        from - ((from - to) * step) / len
    }
}

pub open spec fn dist_len(a: Point, b: Point) -> int {
    floor_sqrt((a.x - b.x) * (a.x - b.x) + (a.y - b.y) * (a.y - b.y))
}

/// Largest step, in micro-pixels, that `toward` accepts.
pub const MAX_STEP: u128 = 10_000_000_000_000_000_000_000_000;

/// `from` moved `step` micro-pixels toward `to` (overshooting is allowed) and wrapped into `s`.
pub open spec fn spec_toward(from: Point, to: Point, step: int, s: Size) -> Point {
    let len = dist_len(to, from);
    if from == to {
        from
    } else {
        Point {
            x: (chase(from.x as int, to.x as int, step, len) % (s.width as int)) as i64,
            y: (chase(from.y as int, to.y as int, step, len) % (s.height as int)) as i64,
        }
    }
}

proof fn lemma_abs_le_root(a: int, b: int, r: int)
    requires
        crate::geometry::is_floor_sqrt(r, a * a + b * b),
    ensures
        a >= 0 ==> a <= r,
        a < 0 ==> -a <= r,
        (a != 0 || b != 0) ==> r > 0,
{
    let n = a * a + b * b;
    assert(0 <= b * b) by (nonlinear_arith);
    assert(a * a <= n);
    if a >= 0 && a > r {
        assert((r + 1) * (r + 1) <= a * a) by (nonlinear_arith)
            requires
                0 <= r,
                r + 1 <= a,
        ;
    }
    if a < 0 && -a > r {
        assert((r + 1) * (r + 1) <= a * a) by (nonlinear_arith)
            requires
                0 <= r,
                r + 1 <= -a,
        ;
    }
    if (a != 0 || b != 0) && r == 0 {
        assert(a * a + b * b >= 1) by (nonlinear_arith)
            requires
                a != 0 || b != 0,
        ;
        assert((r + 1) * (r + 1) == 1) by (nonlinear_arith)
            requires
                r == 0,
        ;
    }
}

fn chase_exec(from: i64, to: i64, step: u128, len: u128) -> (r: i128)
    requires
        -2 * MAX_SIDE_PIXELS * UNITS_PER_PIXEL <= from <= 2 * MAX_SIDE_PIXELS * UNITS_PER_PIXEL,
        -2 * MAX_SIDE_PIXELS * UNITS_PER_PIXEL <= to <= 2 * MAX_SIDE_PIXELS * UNITS_PER_PIXEL,
        step <= MAX_STEP,
        len > 0,
        (to >= from ==> to - from <= len),
        (to < from ==> from - to <= len),
    ensures
        r == chase(from as int, to as int, step as int, len as int),
{
    if to >= from {
        let d = (to as i128 - from as i128) as u128;
        assert(d * step <= 4_000_000_000_000u128 * MAX_STEP) by (nonlinear_arith)
            requires
                d <= 4_000_000_000_000u128,
                step <= MAX_STEP,
        ;
        let m = d * step / len;
        assert(d as int == to as int - from as int);
        assert(m <= step) by (nonlinear_arith)
            requires
                m as int == (d as int * step as int) / (len as int),
                d <= len,
                len > 0,
        ;
        from as i128 + m as i128
    } else {
        let d = (from as i128 - to as i128) as u128;
        assert(d * step <= 4_000_000_000_000u128 * MAX_STEP) by (nonlinear_arith)
            requires
                d <= 4_000_000_000_000u128,
                step <= MAX_STEP,
        ;
        let m = d * step / len;
        assert(d as int == from as int - to as int);
        assert(m <= step) by (nonlinear_arith)
            requires
                m as int == (d as int * step as int) / (len as int),
                d <= len,
                len > 0,
        ;
        from as i128 - m as i128
    }
}

/// Moves `from` by `step` micro-pixels in the direction of `to`, wrapping into `s`.
pub fn toward(from: Point, to: Point, step: u128, s: Size) -> (r: Point)
    requires
        s.wf(),
        s.contains(from),
        s.contains(to),
        step <= MAX_STEP,
    ensures
        r == spec_toward(from, to, step as int, s),
        s.contains(r),
{
    if from.x == to.x && from.y == to.y {
        return from;
    }
    let dx = to.x as i128 - from.x as i128;
    let dy = to.y as i128 - from.y as i128;
    proof {
        assert(0 <= dx * dx <= 1_000_000_000_000_000_000_000_000) by (nonlinear_arith)
            requires
                -1_000_000_000_000 <= dx <= 1_000_000_000_000,
        ;
        assert(0 <= dy * dy <= 1_000_000_000_000_000_000_000_000) by (nonlinear_arith)
            requires
                -1_000_000_000_000 <= dy <= 1_000_000_000_000,
        ;
    }
    let n = (dx * dx + dy * dy) as u128;
    let len = isqrt(n);
    proof {
        assert(dx * dx + dy * dy == (to.x - from.x) * (to.x - from.x) + (to.y - from.y) * (to.y
            - from.y));
        lemma_abs_le_root(dx as int, dy as int, len as int);
        lemma_abs_le_root(dy as int, dx as int, len as int);
        assert(dy * dy + dx * dx == dx * dx + dy * dy);
    }
    let cx = chase_exec(from.x, to.x, step, len);
    let cy = chase_exec(from.y, to.y, step, len);
    Point { x: wrap(cx, s.width), y: wrap(cy, s.height) }
}

impl Enemy {
    pub open spec fn spec_update(self, target: Point, dt: u64, s: Size) -> Enemy {
        Enemy { position: spec_toward(self.position, target, ENEMY_SPEED * 1000 * dt, s) }
    }

    /// Moves the enemy toward `target` for `dt` milliseconds.
    pub fn update(&self, target: Point, dt: u64, s: Size) -> (r: Enemy)
        requires
            s.wf(),
            s.contains(self.position),
            s.contains(target),
        ensures
            r == self.spec_update(target, dt, s),
            s.contains(r.position),
    {
        assert(ENEMY_SPEED as u128 * 1000 * dt as u128 <= MAX_STEP) by (nonlinear_arith)
            requires
                dt <= u64::MAX,
        ;
        Enemy { position: toward(self.position, target, ENEMY_SPEED as u128 * 1000 * dt as u128, s) }
    }
}

/// `v` held to `-MAX_PLAYER_SPEED ..= MAX_PLAYER_SPEED`.
pub open spec fn clamp_speed(v: int) -> int {
    if v > MAX_PLAYER_SPEED {
        MAX_PLAYER_SPEED as int
    } else if v < -MAX_PLAYER_SPEED {
        -MAX_PLAYER_SPEED
    } else {
        v
    }
}

fn clamp_speed_exec(v: i128) -> (r: i64)
    ensures
        r == clamp_speed(v as int),
{
    if v > MAX_PLAYER_SPEED as i128 {
        MAX_PLAYER_SPEED
    } else if v < -MAX_PLAYER_SPEED as i128 {
        -MAX_PLAYER_SPEED
    } else {
        v as i64
    }
}

impl Player {
    pub open spec fn within(self, s: Size) -> bool {
        &&& self.vector.within(s)
        &&& -MAX_PLAYER_SPEED <= self.velocity.dx <= MAX_PLAYER_SPEED
        &&& -MAX_PLAYER_SPEED <= self.velocity.dy <= MAX_PLAYER_SPEED
    }

    /// The velocity after `dt` milliseconds with heading `dir`: it changes only while
    /// boosting, gaining `BOOST_ACCELERATION * dt` along the heading, held to the
    /// speed limit on each axis.
    pub open spec fn spec_velocity(self, dir: int, boost: bool, dt: u64) -> Velocity {
        if boost {
            Velocity {
                dx: clamp_speed(self.velocity.dx + BOOST_ACCELERATION * dt * cosine(dir)) as i64,
                dy: clamp_speed(self.velocity.dy + BOOST_ACCELERATION * dt * sine(dir)) as i64,
            }
        } else {
            self.velocity
        }
    }

    /// The player after `dt` milliseconds with heading `dir`: the new velocity, and the
    /// position moved by it, wrapped into `s`.
    pub open spec fn spec_update(self, dir: i64, boost: bool, dt: u64, s: Size) -> Player {
        let v = self.spec_velocity(dir as int, boost, dt);
        Player {
            vector: Vector {
                position: Point {
                    x: ((self.vector.position.x + v.dx * dt) % (s.width as int)) as i64,
                    y: ((self.vector.position.y + v.dy * dt) % (s.height as int)) as i64,
                },
                direction: dir,
            },
            velocity: v,
        }
    }

    /// Moves the player for `dt` milliseconds with heading `dir`, thrusting if `boost`.
    pub fn update(&self, dir: i64, boost: bool, dt: u64, s: Size) -> (r: Player)
        requires
            s.wf(),
            self.within(s),
            valid_direction(dir as int),
        ensures
            r == self.spec_update(dir, boost, dt, s),
            r.within(s),
    {
        let v = if boost {
            let c = cos_scaled(dir);
            let sn = sin_scaled(dir);
            assert(-UNIT * 0xffff_ffff_ffff_ffffi128 <= dt as i128 * c as i128 <= UNIT
                * 0xffff_ffff_ffff_ffffi128) by (nonlinear_arith)
                requires
                    0 <= dt <= u64::MAX,
                    -UNIT <= c <= UNIT,
            ;
            assert(-UNIT * 0xffff_ffff_ffff_ffffi128 <= dt as i128 * sn as i128 <= UNIT
                * 0xffff_ffff_ffff_ffffi128) by (nonlinear_arith)
                requires
                    0 <= dt <= u64::MAX,
                    -UNIT <= sn <= UNIT,
            ;
            Velocity {
                dx: clamp_speed_exec(self.velocity.dx as i128 + dt as i128 * c as i128),
                dy: clamp_speed_exec(self.velocity.dy as i128 + dt as i128 * sn as i128),
            }
        } else {
            self.velocity
        };
        assert(-MAX_PLAYER_SPEED * 0xffff_ffff_ffff_ffffi128 <= v.dx as i128 * dt as i128
            <= MAX_PLAYER_SPEED * 0xffff_ffff_ffff_ffffi128) by (nonlinear_arith)
            requires
                0 <= dt <= u64::MAX,
                -MAX_PLAYER_SPEED <= v.dx <= MAX_PLAYER_SPEED,
        ;
        assert(-MAX_PLAYER_SPEED * 0xffff_ffff_ffff_ffffi128 <= v.dy as i128 * dt as i128
            <= MAX_PLAYER_SPEED * 0xffff_ffff_ffff_ffffi128) by (nonlinear_arith)
            requires
                0 <= dt <= u64::MAX,
                -MAX_PLAYER_SPEED <= v.dy <= MAX_PLAYER_SPEED,
        ;
        let x = wrap(self.vector.position.x as i128 + v.dx as i128 * dt as i128, s.width);
        let y = wrap(self.vector.position.y as i128 + v.dy as i128 * dt as i128, s.height);
        Player { vector: Vector { position: Point { x, y }, direction: dir }, velocity: v }
    }
}

/// The heading pointing the opposite way.
pub open spec fn reversed(d: int) -> int {
    turned(d, HALF_TURN as int)
}

} // verus!
