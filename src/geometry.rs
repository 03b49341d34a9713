//! Fixed-point plane geometry: positions, velocities, distances and the
//! overlap tests used by movement and projectile impact.
use vstd::prelude::*;

verus! {

/// Length units in one arena tile.
pub const UNITS_PER_TILE: i32 = 1200;

/// A point of the arena, in length units (1/1200 of a tile).
#[derive(Debug, Clone, Copy, PartialEq, Eq, Structural)]
pub struct Position {
    pub x: i32,
    pub y: i32,
}

/// A displacement per tick, in length units.
#[derive(Debug, Clone, Copy, PartialEq, Eq, Structural)]
pub struct Velocity {
    pub x: i64,
    pub y: i64,
}

/// One of the two sides of a match.
#[derive(Debug, Clone, Copy, PartialEq, Eq, Hash, Structural)]
pub enum PlayerId {
    Player1,
    Player2,
}

pub open spec fn abs_int(v: int) -> int {
    if v < 0 { -v } else { v }
}

/// Squared Euclidean distance between two positions.
pub open spec fn dist_sq(a: Position, b: Position) -> int {
    (a.x - b.x) * (a.x - b.x) + (a.y - b.y) * (a.y - b.y)
}

/// `r` is the integer square root of `n`, rounded down.
pub open spec fn is_floor_sqrt(n: int, r: int) -> bool {
    0 <= r && r * r <= n && n < (r + 1) * (r + 1)
}

/// The integer square root of `n`, rounded down.
pub open spec fn floor_sqrt(n: int) -> int {
    choose|r: int| is_floor_sqrt(n, r)
}

/// `v` clamped into `[lo, hi]`.
pub open spec fn clamp_int(v: int, lo: int, hi: int) -> int {
    if v < lo { lo } else if v > hi { hi } else { v }
}

/// A circle at `c` of radius `r` overlaps (or touches) the axis-aligned
/// rectangle centred at `rc` with half extents `hw` and `hh`.
pub open spec fn circle_rect_overlap(c: Position, r: int, rc: Position, hw: int, hh: int) -> bool {
    let px = clamp_int(c.x as int, rc.x - hw, rc.x + hw);
    let py = clamp_int(c.y as int, rc.y - hh, rc.y + hh);
    (c.x - px) * (c.x - px) + (c.y - py) * (c.y - py) <= r * r
}

/// One component of a vector of length `speed` along `(delta, ..)`, whose
/// full length is `dist`, truncated toward zero.
pub open spec fn scaled_component(delta: int, speed: int, dist: int) -> int {
    if dist == 0 {
        0
    } else if delta < 0 {
        -((-delta) * speed / dist)
    } else {
        delta * speed / dist
    }
}

/// The floor square root exists and is unique.
pub proof fn lemma_floor_sqrt_unique(n: int, r: int)
    requires
        is_floor_sqrt(n, r),
    ensures
        floor_sqrt(n) == r,
{
    let s = floor_sqrt(n);
    assert(is_floor_sqrt(n, s));
    if s < r {
        assert((s + 1) * (s + 1) <= r * r) by (nonlinear_arith)
            requires
                0 <= s, s + 1 <= r,
        ;
    } else if r < s {
        assert((r + 1) * (r + 1) <= s * s) by (nonlinear_arith)
            requires
                0 <= r, r + 1 <= s,
        ;
    }
}

/// Any integer whose square is at most `n` is at most the floor root of `n`.
pub proof fn lemma_le_floor_sqrt(n: int, a: int, r: int)
    requires
        is_floor_sqrt(n, r),
        0 <= a,
        a * a <= n,
    ensures
        a <= r,
{
    if a > r {
        assert((r + 1) * (r + 1) <= a * a) by (nonlinear_arith)
            requires
                0 <= r, r + 1 <= a,
        ;
    }
}

/// The integer square root of `n`, rounded down.
pub fn isqrt(n: u128) -> (r: u64)
    requires
        n < 0x4_0000_0000_0000_0000,
    ensures
        is_floor_sqrt(n as int, r as int),
        r as int == floor_sqrt(n as int),
        r <= 0x2_0000_0000,
{
    let mut lo: u128 = 0;
    let mut hi: u128 = 0x2_0000_0000;
    assert(hi * hi == 0x4_0000_0000_0000_0000);
    while hi - lo > 1
        invariant
            lo < hi <= 0x2_0000_0000,
            lo * lo <= n,
            n < hi * hi,
        decreases hi - lo,
    {
        let mid: u128 = lo + (hi - lo) / 2;
        assert(mid * mid <= 0x4_0000_0000_0000_0000) by (nonlinear_arith)
            requires
                mid <= 0x2_0000_0000,
        ;
        if mid * mid <= n {
            lo = mid;
        } else {
            hi = mid;
        }
    }
    assert(hi == lo + 1);
    proof {
        lemma_floor_sqrt_unique(n as int, lo as int);
    }
    lo as u64
}

/// The square of `v`, exactly.
pub fn square_u32(v: u32) -> (r: u128)
    ensures
        r == v * v,
{
    assert(v * v <= 0xffff_ffff * 0xffff_ffff) by (nonlinear_arith)
        requires
            v <= 0xffff_ffff,
    ;
    v as u128 * v as u128
}

impl Position {
    pub fn new(x: i32, y: i32) -> (r: Position)
        ensures
            r.x == x,
            r.y == y,
    {
        Position { x, y }
    }

    /// Squared distance to `other`.
    pub fn distance_sq_to(&self, other: &Position) -> (r: u128)
        ensures
            r as int == dist_sq(*self, *other),
            r < 0x4_0000_0000_0000_0000,
    {
        let dx: i64 = self.x as i64 - other.x as i64;
        let dy: i64 = self.y as i64 - other.y as i64;
        let ax: u128 = if dx < 0 { (-dx) as u128 } else { dx as u128 };
        let ay: u128 = if dy < 0 { (-dy) as u128 } else { dy as u128 };
        assert(ax * ax <= 0x1_0000_0000 * 0x1_0000_0000) by (nonlinear_arith)
            requires
                ax <= 0x1_0000_0000,
        ;
        assert(ay * ay <= 0x1_0000_0000 * 0x1_0000_0000) by (nonlinear_arith)
            requires
                ay <= 0x1_0000_0000,
        ;
        assert(ax * ax == dx * dx) by (nonlinear_arith)
            requires
                ax == abs_int(dx as int),
        ;
        assert(ay * ay == dy * dy) by (nonlinear_arith)
            requires
                ay == abs_int(dy as int),
        ;
        ax * ax + ay * ay
    }

    /// Distance to `other`, rounded down to a whole length unit.
    pub fn distance_to(&self, other: &Position) -> (r: u64)
        ensures
            r as int == floor_sqrt(dist_sq(*self, *other)),
            is_floor_sqrt(dist_sq(*self, *other), r as int),
    {
        let d2 = self.distance_sq_to(other);
        isqrt(d2)
    }

    /// Whether `other` lies within `range` of this position (inclusive).
    pub fn within_range(&self, other: &Position, range: u32) -> (r: bool)
        ensures
            r == (dist_sq(*self, *other) <= range * range),
    {
        let d2 = self.distance_sq_to(other);
        let rr: u128 = square_u32(range);
        d2 <= rr
    }

    /// Whether a circle of radius `circle_radius` centred here overlaps the
    /// rectangle centred at `rect_center` with the given half extents.
    pub fn circle_collides_rect(
        &self,
        circle_radius: u32,
        rect_center: &Position,
        rect_half_width: u32,
        rect_half_height: u32,
    ) -> (r: bool)
        ensures
            r == circle_rect_overlap(
                *self,
                circle_radius as int,
                *rect_center,
                rect_half_width as int,
                rect_half_height as int,
            ),
    {
        let lo_x: i64 = rect_center.x as i64 - rect_half_width as i64;
        let hi_x: i64 = rect_center.x as i64 + rect_half_width as i64;
        let lo_y: i64 = rect_center.y as i64 - rect_half_height as i64;
        let hi_y: i64 = rect_center.y as i64 + rect_half_height as i64;
        let cx: i64 = self.x as i64;
        let cy: i64 = self.y as i64;
        let px: i64 = if cx < lo_x { lo_x } else if cx > hi_x { hi_x } else { cx };
        let py: i64 = if cy < lo_y { lo_y } else if cy > hi_y { hi_y } else { cy };
        let ax: u128 = if cx < px { (px - cx) as u128 } else { (cx - px) as u128 };
        let ay: u128 = if cy < py { (py - cy) as u128 } else { (cy - py) as u128 };
        assert(ax * ax <= 0x2_0000_0000 * 0x2_0000_0000) by (nonlinear_arith)
            requires
                ax <= 0x2_0000_0000,
        ;
        assert(ay * ay <= 0x2_0000_0000 * 0x2_0000_0000) by (nonlinear_arith)
            requires
                ay <= 0x2_0000_0000,
        ;
        assert(ax * ax == (cx - px) * (cx - px)) by (nonlinear_arith)
            requires
                ax == abs_int(cx - px),
        ;
        assert(ay * ay == (cy - py) * (cy - py)) by (nonlinear_arith)
            requires
                ay == abs_int(cy - py),
        ;
        let rr: u128 = square_u32(circle_radius);
        ax * ax + ay * ay <= rr
    }
}

impl Velocity {
    pub fn new(x: i64, y: i64) -> (r: Velocity)
        ensures
            r.x == x,
            r.y == y,
    {
        Velocity { x, y }
    }

    pub fn zero() -> (r: Velocity)
        ensures
            r.x == 0,
            r.y == 0,
    {
        Velocity { x: 0, y: 0 }
    }

    pub fn is_zero(&self) -> (r: bool)
        ensures
            r == (self.x == 0 && self.y == 0),
    {
        self.x == 0 && self.y == 0
    }
}

impl PlayerId {
    pub open spec fn spec_opponent(self) -> PlayerId {
        match self {
            PlayerId::Player1 => PlayerId::Player2,
            PlayerId::Player2 => PlayerId::Player1,
        }
    }

    pub fn opponent(&self) -> (r: PlayerId)
        ensures
            r == self.spec_opponent(),
            r != *self,
    {
        match self {
            PlayerId::Player1 => PlayerId::Player2,
            PlayerId::Player2 => PlayerId::Player1,
        }
    }
}

/// The velocity of length `speed` from `from` toward `to`, each component
/// truncated toward zero; zero when the two points coincide.
pub open spec fn spec_direction_to(from: Position, to: Position, speed: u32) -> Velocity {
    let dist = floor_sqrt(dist_sq(from, to));
    Velocity {
        x: scaled_component(to.x - from.x, speed as int, dist) as i64,
        y: scaled_component(to.y - from.y, speed as int, dist) as i64,
    }
}

/// `|delta| * speed / dist`, given `delta * delta <= dist_sq` and `dist` its
/// floor root; at most `speed`.
fn scale(delta: i64, speed: u32, dist: u64, ghost_n: u128) -> (r: i64)
    requires
        -0x1_0000_0000 <= delta <= 0x1_0000_0000,
        dist > 0,
        is_floor_sqrt(ghost_n as int, dist as int),
        delta * delta <= ghost_n,
    ensures
        r == scaled_component(delta as int, speed as int, dist as int),
        -(speed as int) <= r <= speed,
        speed <= dist ==> abs_int(r as int) <= abs_int(delta as int),
{
    let mag: u128 = if delta < 0 { (-delta) as u128 } else { delta as u128 };
    proof {
        assert(mag * mag == delta * delta) by (nonlinear_arith)
            requires
                mag == abs_int(delta as int),
        ;
        lemma_le_floor_sqrt(ghost_n as int, mag as int, dist as int);
        assert(mag * speed <= dist * speed) by (nonlinear_arith)
            requires
                mag <= dist,
        ;
        assert(mag * speed <= 0x1_0000_0000 * 0xffff_ffff) by (nonlinear_arith)
            requires
                mag <= 0x1_0000_0000, speed <= 0xffff_ffff,
        ;
        assert((mag * speed) / (dist as int) <= speed) by (nonlinear_arith)
            requires
                mag * speed <= dist * speed, dist > 0,
        ;
        if speed <= dist {
            assert((mag * speed) / (dist as int) <= mag) by (nonlinear_arith)
                requires
                    speed <= dist, dist > 0, mag >= 0,
            ;
        }
    }
    let q: u128 = (mag * speed as u128) / dist as u128;
    if delta < 0 {
        -(q as i64)
    } else {
        q as i64
    }
}

impl Position {
    /// The velocity of length `speed` from here toward `to`; zero when the two
    /// points coincide.
    pub fn direction_to(&self, to: &Position, speed: u32) -> (r: Velocity)
        ensures
            r == spec_direction_to(*self, *to, speed),
            -(speed as int) <= r.x <= speed,
            -(speed as int) <= r.y <= speed,
            speed * speed <= dist_sq(*self, *to) ==> abs_int(r.x as int) <= abs_int(to.x - self.x)
                && abs_int(r.y as int) <= abs_int(to.y - self.y),
    {
        let d2 = self.distance_sq_to(to);
        let dist = isqrt(d2);
        if dist == 0 {
            return Velocity { x: 0, y: 0 };
        }
        let dx: i64 = to.x as i64 - self.x as i64;
        let dy: i64 = to.y as i64 - self.y as i64;
        proof {
            let ax = self.x as int - to.x as int;
            let ay = self.y as int - to.y as int;
            assert(d2 == ax * ax + ay * ay);
            assert(dx * dx <= d2 && dy * dy <= d2) by (nonlinear_arith)
                requires
                    d2 == ax * ax + ay * ay, dx == -ax, dy == -ay,
            ;
        }
        proof {
            if speed * speed <= d2 {
                lemma_le_floor_sqrt(d2 as int, speed as int, dist as int);
            }
        }
        let vx = scale(dx, speed, dist, d2);
        let vy = scale(dy, speed, dist, d2);
        Velocity { x: vx, y: vy }
    }
}

} // verus!
