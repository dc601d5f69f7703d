use vstd::prelude::*;

verus! {

/// Sub-units per pixel: coordinates are stored in micro-pixels.
pub const UNITS_PER_PIXEL: i64 = 1_000_000;

/// Largest arena side, in pixels.
pub const MAX_SIDE_PIXELS: i64 = 1_000_000;

/// Headings are measured in millidegrees, in `0 .. FULL_TURN`.
pub const FULL_TURN: i64 = 360_000;

pub const HALF_TURN: i64 = 180_000;

pub const QUARTER_TURN: i64 = 90_000;

/// Unit vectors are scaled by this factor.
pub const UNIT: i64 = 1000;

#[derive(Clone, Copy, Debug, PartialEq, Eq, Structural)]
pub struct Point {
    pub x: i64,
    pub y: i64,
}

/// The arena, in micro-pixels.
#[derive(Clone, Copy, Debug, PartialEq, Eq, Structural)]
pub struct Size {
    pub width: i64,
    pub height: i64,
}

/// A position together with a heading.
#[derive(Clone, Copy, Debug, PartialEq, Eq, Structural)]
pub struct Vector {
    pub position: Point,
    pub direction: i64,
}

impl Size {
    pub open spec fn wf(self) -> bool {
        &&& 0 < self.width <= MAX_SIDE_PIXELS * UNITS_PER_PIXEL
        &&& 0 < self.height <= MAX_SIDE_PIXELS * UNITS_PER_PIXEL
    }

    pub open spec fn contains(self, p: Point) -> bool {
        0 <= p.x < self.width && 0 <= p.y < self.height
    }

    /// An arena of `width` by `height` pixels.
    pub fn from_pixels(width: u32, height: u32) -> (r: Size)
        requires
            0 < width <= MAX_SIDE_PIXELS,
            0 < height <= MAX_SIDE_PIXELS,
        ensures
            r.width == width * UNITS_PER_PIXEL,
            r.height == height * UNITS_PER_PIXEL,
            r.wf(),
    {
        Size { width: width as i64 * UNITS_PER_PIXEL, height: height as i64 * UNITS_PER_PIXEL }
    }

    /// The centre of the arena.
    pub fn center(&self) -> (r: Point)
        requires
            self.wf(),
        ensures
            r == center_of(*self),
            self.contains(r),
    {
        Point { x: self.width / 2, y: self.height / 2 }
    }
}

pub open spec fn center_of(s: Size) -> Point {
    Point { x: (s.width / 2) as i64, y: (s.height / 2) as i64 }
}

pub open spec fn valid_direction(d: int) -> bool {
    0 <= d < FULL_TURN
}

impl Vector {
    pub open spec fn within(self, s: Size) -> bool {
        s.contains(self.position) && valid_direction(self.direction as int)
    }
}

/// Bhaskara's approximation of the sine on a half turn, scaled by `UNIT`.
pub open spec fn half_sine(d: int) -> int {
    let p = d * (HALF_TURN - d);
    (4 * UNIT * p) / (40_500_000_000 - p)
}

/// The scaled sine of a heading.
pub open spec fn sine(d: int) -> int {
    if d < HALF_TURN {
        half_sine(d)
    } else {
        -half_sine(d - HALF_TURN)
    }
}

/// The scaled cosine of a heading.
pub open spec fn cosine(d: int) -> int {
    sine((d + QUARTER_TURN) % (FULL_TURN as int))
}

proof fn lemma_half_sine_range(d: int)
    requires
        0 <= d <= HALF_TURN,
    ensures
        0 <= half_sine(d) <= UNIT,
{
    let p = d * (HALF_TURN - d);
    assert(0 <= p <= 8_100_000_000) by (nonlinear_arith)
        requires
            0 <= d <= 180_000,
            p == d * (180_000 - d),
    ;
    let den = 40_500_000_000 - p;
    assert(4 * 1000 * p <= 1000 * den) by (nonlinear_arith)
        requires
            0 <= p <= 8_100_000_000,
            den == 40_500_000_000 - p,
    ;
    assert((4 * 1000 * p) / den <= 1000) by (nonlinear_arith)
        requires
            0 <= 4 * 1000 * p <= 1000 * den,
            den > 0,
    ;
    assert(0 <= (4 * 1000 * p) / den) by (nonlinear_arith)
        requires
            0 <= 4 * 1000 * p,
            den > 0,
    ;
}

fn half_sine_exec(d: i64) -> (r: i64)
    requires
        0 <= d <= HALF_TURN,
    ensures
        r == half_sine(d as int),
        0 <= r <= UNIT,
{
    proof {
        lemma_half_sine_range(d as int);
        assert(0 <= d * (HALF_TURN - d) <= 8_100_000_000) by (nonlinear_arith)
            requires
                0 <= d <= 180_000,
        ;
    }
    let p: i64 = d * (HALF_TURN - d);
    (4 * UNIT * p) / (40_500_000_000 - p)
}

/// The scaled sine of heading `d`.
pub fn sin_scaled(d: i64) -> (r: i64)
    requires
        valid_direction(d as int),
    ensures
        r == sine(d as int),
        -UNIT <= r <= UNIT,
{
    if d < HALF_TURN {
        half_sine_exec(d)
    } else {
        -half_sine_exec(d - HALF_TURN)
    }
}

/// The scaled cosine of heading `d`.
pub fn cos_scaled(d: i64) -> (r: i64)
    requires
        valid_direction(d as int),
    ensures
        r == cosine(d as int),
        -UNIT <= r <= UNIT,
{
    sin_scaled((d + QUARTER_TURN) % FULL_TURN)
}

/// `v` taken into `0 .. side`, re-entering at the opposite edge.
pub fn wrap(v: i128, side: i64) -> (r: i64)
    requires
        side > 0,
    ensures
        r as int == v as int % side as int,
        0 <= r < side,
{
    let m = v.checked_rem_euclid(side as i128);
    match m {
        Some(r) => r as i64,
        None => 0,
    }
}

/// A heading turned by `delta` millidegrees.
pub open spec fn turned(d: int, delta: int) -> int {
    (d + delta) % (FULL_TURN as int)
}

pub fn turn(d: i64, delta: i128) -> (r: i64)
    requires
        -MAX_MOVE <= delta <= MAX_MOVE,
    ensures
        r == turned(d as int, delta as int),
        valid_direction(r as int),
{
    wrap(d as i128 + delta, FULL_TURN)
}

/// The point reached from `v` after moving `units` along its heading, wrapped into `s`.
pub open spec fn advanced(v: Vector, units: int, s: Size) -> Point {
    Point {
        x: ((v.position.x + units * cosine(v.direction as int)) % (s.width as int)) as i64,
        y: ((v.position.y + units * sine(v.direction as int)) % (s.height as int)) as i64,
    }
}

/// Largest distance, in units of `UNIT` micro-pixels, that one move may cover.
pub const MAX_MOVE: u128 = 100_000_000_000_000_000_000_000;

pub fn advance_wrapping(v: Vector, units: u128, s: Size) -> (r: Point)
    requires
        s.wf(),
        valid_direction(v.direction as int),
        units <= MAX_MOVE,
    ensures
        r == advanced(v, units as int, s),
        s.contains(r),
{
    let c = cos_scaled(v.direction);
    let sn = sin_scaled(v.direction);
    let u = units as i128;
    proof {
        assert(-MAX_MOVE * UNIT <= u * c <= MAX_MOVE * UNIT) by (nonlinear_arith)
            requires
                0 <= u <= MAX_MOVE,
                -UNIT <= c <= UNIT,
        ;
        assert(-MAX_MOVE * UNIT <= u * sn <= MAX_MOVE * UNIT) by (nonlinear_arith)
            requires
                0 <= u <= MAX_MOVE,
                -UNIT <= sn <= UNIT,
        ;
    }
    let x = wrap(v.position.x as i128 + u * c as i128, s.width);
    let y = wrap(v.position.y as i128 + u * sn as i128, s.height);
    Point { x, y }
}

pub open spec fn dist2(a: Point, b: Point) -> int {
    (a.x - b.x) * (a.x - b.x) + (a.y - b.y) * (a.y - b.y)
}

/// Whether `a` lies within `radius` of `b`, the boundary included.
pub fn intersect_circle(a: Point, b: Point, radius: i64) -> (r: bool)
    requires
        0 <= radius <= MAX_SIDE_PIXELS * UNITS_PER_PIXEL,
        -MAX_SIDE_PIXELS * UNITS_PER_PIXEL <= a.x <= MAX_SIDE_PIXELS * UNITS_PER_PIXEL,
        -MAX_SIDE_PIXELS * UNITS_PER_PIXEL <= a.y <= MAX_SIDE_PIXELS * UNITS_PER_PIXEL,
        -MAX_SIDE_PIXELS * UNITS_PER_PIXEL <= b.x <= MAX_SIDE_PIXELS * UNITS_PER_PIXEL,
        -MAX_SIDE_PIXELS * UNITS_PER_PIXEL <= b.y <= MAX_SIDE_PIXELS * UNITS_PER_PIXEL,
    ensures
        r == (dist2(a, b) <= radius * radius),
{
    let dx = a.x as i128 - b.x as i128;
    let dy = a.y as i128 - b.y as i128;
    let rr = radius as i128;
    proof {
        assert(0 <= dx * dx <= 4_000_000_000_000_000_000_000_000) by (nonlinear_arith)
            requires
                -2_000_000_000_000 <= dx <= 2_000_000_000_000,
        ;
        assert(0 <= dy * dy <= 4_000_000_000_000_000_000_000_000) by (nonlinear_arith)
            requires
                -2_000_000_000_000 <= dy <= 2_000_000_000_000,
        ;
        assert(0 <= rr * rr <= 1_000_000_000_000_000_000_000_000) by (nonlinear_arith)
            requires
                0 <= rr <= 1_000_000_000_000,
        ;
    }
    dx * dx + dy * dy <= rr * rr
}

pub open spec fn is_floor_sqrt(r: int, n: int) -> bool {
    0 <= r && r * r <= n < (r + 1) * (r + 1)
}

/// The integer square root of `n`, rounded down.
pub open spec fn floor_sqrt(n: int) -> int {
    choose|r: int| is_floor_sqrt(r, n)
}

proof fn lemma_floor_sqrt_unique(r: int, q: int, n: int)
    requires
        is_floor_sqrt(r, n),
        is_floor_sqrt(q, n),
    ensures
        r == q,
{
    if r < q {
        assert((r + 1) * (r + 1) <= q * q) by (nonlinear_arith)
            requires
                0 <= r,
                r + 1 <= q,
        ;
    } else if q < r {
        assert((q + 1) * (q + 1) <= r * r) by (nonlinear_arith)
            requires
                0 <= q,
                q + 1 <= r,
        ;
    }
}

/// Bound on the argument of `isqrt`: 2^82.
pub const ISQRT_LIMIT: u128 = 0x4_0000_0000_0000_0000_0000;

pub fn isqrt(n: u128) -> (r: u128)
    requires
        n < ISQRT_LIMIT,
    ensures
        r == floor_sqrt(n as int),
        is_floor_sqrt(r as int, n as int),
{
    let mut lo: u128 = 0;
    let mut hi: u128 = 0x200_0000_0000;
    assert(hi * hi == ISQRT_LIMIT) by (nonlinear_arith)
        requires
            hi == 0x200_0000_0000u128,
    ;
    while hi - lo > 1
        invariant
            lo < hi <= 0x200_0000_0000,
            lo * lo <= n < hi * hi,
        decreases hi - lo,
    {
        let mid = lo + (hi - lo) / 2;
        assert(mid * mid <= 0x200_0000_0000u128 * 0x200_0000_0000u128) by (nonlinear_arith)
            requires
                mid <= 0x200_0000_0000u128,
        ;
        if mid * mid <= n {
            lo = mid;
        } else {
            hi = mid;
        }
    }
    proof {
        assert(is_floor_sqrt(lo as int, n as int));
        lemma_floor_sqrt_unique(lo as int, floor_sqrt(n as int), n as int);
    }
    lo
}

} // verus!
