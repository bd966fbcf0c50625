//! Planar vectors with integer components.

use vstd::prelude::*;
use crate::config::{DIRECTION_ONE, DIRECTION_ONE_SECOND, DIRECTION_ONE_SQUARED};
use crate::math::{
    div_toward_zero, floor_sqrt, is_floor_sqrt, isqrt, lemma_floor_sqrt_exists,
    lemma_floor_sqrt_is, magnitude, mul_div, saturate, saturate_i32,
};

verus! {

/// A position, a displacement or a direction in the plane.
///
/// As a direction, its components are fixed-point numbers in which
/// `DIRECTION_ONE` stands for one.
#[derive(Clone, Copy, Debug, PartialEq, Eq, Structural)]
pub struct Vec2 {
    pub x: i32,
    pub y: i32,
}

/// The distance that something of the given speed covers along one axis in
/// `dt` microseconds, when its direction has the given component on that axis.
pub open spec fn displacement(component: i32, speed: u32, dt: u64) -> int {
    div_toward_zero(component * (speed * dt), DIRECTION_ONE_SECOND as int)
}

/// A direction component stretched to the given length.
pub open spec fn stretched(component: i32, length: u32) -> int {
    div_toward_zero(component * length, DIRECTION_ONE as int)
}

impl Vec2 {
    /// The vector without length.
    pub open spec fn zero() -> Vec2 {
        Vec2 { x: 0, y: 0 }
    }

    /// The square of the vector's length.
    pub open spec fn length_squared(self) -> int {
        self.x * self.x + self.y * self.y
    }

    /// The square of the distance between two points.
    pub open spec fn distance_squared(self, other: Vec2) -> int {
        (self.x - other.x) * (self.x - other.x) + (self.y - other.y) * (self.y - other.y)
    }

    /// Whether two points lie at most `distance` apart.
    pub open spec fn is_within(self, other: Vec2, distance: int) -> bool {
        0 <= distance && self.distance_squared(other) <= distance * distance
    }

    /// The vector's length in units of one `DIRECTION_ONE`-th, rounded down.
    pub open spec fn scaled_length(self) -> nat {
        floor_sqrt((self.length_squared() * DIRECTION_ONE_SQUARED) as nat)
    }

    /// The vector of length one that points the same way, or the zero vector
    /// for the zero vector. Each component is rounded toward zero.
    pub open spec fn normalized(self) -> Vec2 {
        if self.x == 0 && self.y == 0 {
            Vec2::zero()
        } else {
            Vec2 {
                x: div_toward_zero(
                    self.x * DIRECTION_ONE_SQUARED,
                    self.scaled_length() as int,
                ) as i32,
                y: div_toward_zero(
                    self.y * DIRECTION_ONE_SQUARED,
                    self.scaled_length() as int,
                ) as i32,
            }
        }
    }

    /// Whether the vector has length one, up to the rounding of its
    /// components.
    pub open spec fn is_unit(self) -> bool {
        (DIRECTION_ONE - 2) * (DIRECTION_ONE - 2) <= self.length_squared() <= (DIRECTION_ONE + 1)
            * (DIRECTION_ONE + 1)
    }

    /// The point shifted by `dx` and `dy`, each coordinate kept within `i32`.
    pub open spec fn translated(self, dx: int, dy: int) -> Vec2 {
        Vec2 { x: saturate(self.x + dx), y: saturate(self.y + dy) }
    }

    /// The point after moving for `dt` microseconds in the given direction at
    /// the given speed.
    pub open spec fn moved(self, direction: Vec2, speed: u32, dt: u64) -> Vec2 {
        self.translated(displacement(direction.x, speed, dt), displacement(direction.y, speed, dt))
    }

    /// The unit vector that points from `other` to `self`, or the zero vector
    /// where the two coincide.
    pub open spec fn direction_from(self, other: Vec2) -> Vec2 {
        Vec2 { x: saturate(self.x - other.x), y: saturate(self.y - other.y) }.normalized()
    }

    /// This direction stretched to the given length.
    pub open spec fn scaled(self, length: u32) -> Vec2 {
        Vec2 { x: saturate(stretched(self.x, length)), y: saturate(stretched(self.y, length)) }
    }

    /// The zero vector.
    pub fn origin() -> (r: Vec2)
        ensures
            r == Vec2::zero(),
    {
        Vec2 { x: 0, y: 0 }
    }

    /// Tells whether `other` lies at most `distance` away.
    pub fn is_within_distance(&self, other: &Vec2, distance: i32) -> (b: bool)
        ensures
            b == self.is_within(*other, distance as int),
    {
        if distance < 0 {
            return false;
        }
        let dx: i128 = self.x as i128 - other.x as i128;
        let dy: i128 = self.y as i128 - other.y as i128;
        let d: i128 = distance as i128;
        assert(0 <= dx * dx <= 0x1_0000_0000 * 0x1_0000_0000) by (nonlinear_arith)
            requires
                -0x1_0000_0000 <= dx <= 0x1_0000_0000,
        ;
        assert(0 <= dy * dy <= 0x1_0000_0000 * 0x1_0000_0000) by (nonlinear_arith)
            requires
                -0x1_0000_0000 <= dy <= 0x1_0000_0000,
        ;
        assert(0 <= d * d <= 0x1_0000_0000 * 0x1_0000_0000) by (nonlinear_arith)
            requires
                0 <= d <= 0x1_0000_0000,
        ;
        dx * dx + dy * dy <= d * d
    }

    /// Scales the vector to length one; the zero vector stays zero.
    pub fn normalize_or_zero(self) -> (r: Vec2)
        ensures
            r == self.normalized(),
    {
        if self.x == 0 && self.y == 0 {
            return Vec2 { x: 0, y: 0 };
        }
        let ax: u128 = magnitude(self.x);
        let ay: u128 = magnitude(self.y);
        assert(ax * ax == self.x * self.x && ax * ax <= 0x8000_0000 * 0x8000_0000)
            by (nonlinear_arith)
            requires
                ax == self.x || ax == -self.x,
                ax <= 0x8000_0000,
        ;
        assert(ay * ay == self.y * self.y && ay * ay <= 0x8000_0000 * 0x8000_0000)
            by (nonlinear_arith)
            requires
                ay == self.y || ay == -self.y,
                ay <= 0x8000_0000,
        ;
        let squared: u128 = ax * ax + ay * ay;
        let length: u64 = isqrt(squared * DIRECTION_ONE_SQUARED);
        proof {
            lemma_scaled_length(self);
            lemma_normalized_in_range(self);
        }
        let x: i128 = mul_div(self.x, DIRECTION_ONE_SQUARED, length as u128);
        let y: i128 = mul_div(self.y, DIRECTION_ONE_SQUARED, length as u128);
        Vec2 { x: x as i32, y: y as i32 }
    }

    /// Shifts the point by `dx` and `dy`, keeping each coordinate within
    /// `i32`.
    pub fn translate(self, dx: i128, dy: i128) -> (r: Vec2)
        ensures
            r == self.translated(dx as int, dy as int),
    {
        Vec2 { x: shift(self.x, dx), y: shift(self.y, dy) }
    }

    /// Moves the point for `dt` microseconds in the given direction at the
    /// given speed.
    pub fn advance(self, direction: Vec2, speed: u32, dt: u64) -> (r: Vec2)
        ensures
            r == self.moved(direction, speed, dt),
    {
        assert(speed * dt <= 0xffff_ffff * 0xffff_ffff_ffff_ffff) by (nonlinear_arith)
            requires
                0 <= speed <= 0xffff_ffff,
                0 <= dt <= 0xffff_ffff_ffff_ffff,
        ;
        let factor: u128 = speed as u128 * dt as u128;
        let dx: i128 = mul_div(direction.x, factor, DIRECTION_ONE_SECOND);
        let dy: i128 = mul_div(direction.y, factor, DIRECTION_ONE_SECOND);
        self.translate(dx, dy)
    }

    /// Computes the unit vector that points from `other` to this point.
    pub fn unit_from(&self, other: &Vec2) -> (r: Vec2)
        ensures
            r == self.direction_from(*other),
    {
        let difference = Vec2 {
            x: saturate_i32(self.x as i128 - other.x as i128),
            y: saturate_i32(self.y as i128 - other.y as i128),
        };
        difference.normalize_or_zero()
    }

    /// Stretches this direction to the given length.
    pub fn scale(self, length: u32) -> (r: Vec2)
        ensures
            r == self.scaled(length),
    {
        let x: i128 = mul_div(self.x, length as u128, DIRECTION_ONE as u128);
        let y: i128 = mul_div(self.y, length as u128, DIRECTION_ONE as u128);
        Vec2 { x: saturate_i32(x), y: saturate_i32(y) }
    }
}

/// Adds `delta` to `coordinate`, keeping the sum within `i32`.
fn shift(coordinate: i32, delta: i128) -> (r: i32)
    ensures
        r == saturate(coordinate + delta),
{
    match (coordinate as i128).checked_add(delta) {
        Some(sum) => saturate_i32(sum),
        None => if delta > 0 {
            i32::MAX
        } else {
            i32::MIN
        },
    }
}

/// The scaled length of a vector other than zero is its true length times
/// `DIRECTION_ONE`, rounded down; so it is at least `DIRECTION_ONE` times the
/// magnitude of either component, and at least `DIRECTION_ONE`.
pub proof fn lemma_scaled_length(v: Vec2)
    requires
        v != Vec2::zero(),
    ensures
        is_floor_sqrt((v.length_squared() * DIRECTION_ONE_SQUARED) as nat, v.scaled_length()),
        v.length_squared() >= 1,
        v.scaled_length() >= DIRECTION_ONE,
        v.scaled_length() >= v.x * DIRECTION_ONE,
        v.scaled_length() >= -v.x * DIRECTION_ONE,
        v.scaled_length() >= v.y * DIRECTION_ONE,
        v.scaled_length() >= -v.y * DIRECTION_ONE,
{
    let x = v.x as int;
    let y = v.y as int;
    let n = v.length_squared();
    let d: int = 1_000_000;
    assert(n >= 1 && n >= x * x && n >= y * y && (-x) * (-x) == x * x && (-y) * (-y) == y * y)
        by (nonlinear_arith)
        requires
            n == x * x + y * y,
            x != 0 || y != 0,
    ;
    let big = (n * DIRECTION_ONE_SQUARED) as nat;
    lemma_floor_sqrt_exists(big);
    let len = v.scaled_length() as int;
    assert(big == n * (d * d)) by (nonlinear_arith)
        requires
            big == n * 1_000_000_000_000,
            d == 1_000_000,
    ;
    lemma_root_dominates(big as int, len, d, 1, n);
    lemma_root_dominates(big as int, len, d, x, n);
    lemma_root_dominates(big as int, len, d, -x, n);
    lemma_root_dominates(big as int, len, d, y, n);
    lemma_root_dominates(big as int, len, d, -y, n);
}

/// If `big` is `n * d * d` with `c * c <= n`, a number whose successor's
/// square exceeds `big` is at least `c * d`.
proof fn lemma_root_dominates(big: int, len: int, d: int, c: int, n: int)
    by (nonlinear_arith)
    requires
        len >= 0,
        d > 0,
        big == n * (d * d),
        big < (len + 1) * (len + 1),
        c * c <= n,
    ensures
        len >= c * d,
{
    if len < c * d {
        assert(len + 1 <= c * d);
        assert((len + 1) * (len + 1) <= (c * d) * (c * d));
        assert((c * d) * (c * d) == (c * c) * (d * d));
        assert((c * c) * (d * d) <= n * (d * d));
    }
}

/// Each component of a normalized vector lies between minus one and one.
pub proof fn lemma_normalized_in_range(v: Vec2)
    ensures
        -DIRECTION_ONE <= v.normalized().x <= DIRECTION_ONE,
        -DIRECTION_ONE <= v.normalized().y <= DIRECTION_ONE,
        v != Vec2::zero() ==> v.normalized().x == div_toward_zero(
            v.x * DIRECTION_ONE_SQUARED,
            v.scaled_length() as int,
        ) && v.normalized().y == div_toward_zero(
            v.y * DIRECTION_ONE_SQUARED,
            v.scaled_length() as int,
        ),
{
    if v != Vec2::zero() {
        lemma_scaled_length(v);
        let len = v.scaled_length() as int;
        lemma_component_in_range(v.x as int, len);
        lemma_component_in_range(v.y as int, len);
    }
}

/// A component divided by a length that dominates it is at most one.
proof fn lemma_component_in_range(c: int, len: int)
    requires
        len > 0,
        len >= c * DIRECTION_ONE,
        len >= -c * DIRECTION_ONE,
    ensures
        -DIRECTION_ONE <= div_toward_zero(c * DIRECTION_ONE_SQUARED, len) <= DIRECTION_ONE,
{
    let d: int = 1_000_000;
    if c >= 0 {
        let a = c * 1_000_000_000_000;
        assert(0 <= a / len <= d) by (nonlinear_arith)
            requires
                a == c * 1_000_000_000_000,
                c >= 0,
                len > 0,
                len >= c * 1_000_000,
                d == 1_000_000,
        ;
    } else {
        let a = -c * 1_000_000_000_000;
        assert(0 <= a / len <= d) by (nonlinear_arith)
            requires
                a == -c * 1_000_000_000_000,
                -c >= 0,
                len > 0,
                len >= -c * 1_000_000,
                d == 1_000_000,
        ;
    }
}

/// For non-negative numbers, the quotient `q` of `x` by `len` satisfies
/// `q * len <= x < (q + 1) * len`, and so do the squares.
proof fn lemma_quotient_squares(x: int, len: int) -> (q: int)
    by (nonlinear_arith)
    requires
        x >= 0,
        len > 0,
    ensures
        q == x / len,
        q >= 0,
        (q * q) * (len * len) <= x * x,
        x * x < ((q + 1) * (q + 1)) * (len * len),
{
    let q = x / len;
    assert(q * len <= x < (q + 1) * len && q >= 0);
    assert((q * len) * (q * len) <= x * x);
    assert((q * len) * (q * len) == (q * q) * (len * len));
    assert(x * x < ((q + 1) * len) * ((q + 1) * len));
    assert(((q + 1) * len) * ((q + 1) * len) == ((q + 1) * (q + 1)) * (len * len));
    q
}

/// If `r * len^2 < (len + 1)^2 * d^2` and `len >= d`, then `r <= (d + 1)^2`.
proof fn lemma_upper_bound(r: int, len: int, d: int)
    by (nonlinear_arith)
    requires
        d > 0,
        len >= d,
        r >= 0,
        r * (len * len) < ((len + 1) * (len + 1)) * (d * d),
    ensures
        r <= (d + 1) * (d + 1),
{
    if r > (d + 1) * (d + 1) {
        assert(r * (len * len) >= ((d + 1) * (d + 1)) * (len * len));
        assert(((d + 1) * (d + 1)) * (len * len) == (d * len + len) * (d * len + len));
        assert(((len + 1) * (len + 1)) * (d * d) == (d * len + d) * (d * len + d));
        assert(d * len + len >= d * len + d);
        assert(d * len + d >= 0);
        assert((d * len + len) * (d * len + len) >= (d * len + d) * (d * len + d));
    }
}

/// If `(a + 1)^2 + (b + 1)^2 > d^2` for non-negative `a` and `b`, then
/// `a^2 + b^2 >= (d - 2)^2`.
proof fn lemma_lower_bound(a: int, b: int, d: int)
    by (nonlinear_arith)
    requires
        a >= 0,
        b >= 0,
        d >= 2,
        (a + 1) * (a + 1) + (b + 1) * (b + 1) > d * d,
    ensures
        a * a + b * b >= (d - 2) * (d - 2),
{
    let r = a * a + b * b;
    if r < (d - 2) * (d - 2) {
        assert((a + b) * (a + b) + (a - b) * (a - b) == 2 * r);
        assert((a - b) * (a - b) >= 0);
        assert((a + b) * (a + b) <= 2 * r);
        assert(2 * (a + b) < 3 * (d - 2)) by {
            if 2 * (a + b) >= 3 * (d - 2) {
                assert((2 * (a + b)) * (2 * (a + b)) >= (3 * (d - 2)) * (3 * (d - 2)));
                assert(4 * ((a + b) * (a + b)) >= 9 * ((d - 2) * (d - 2)));
                assert(8 * r >= 9 * ((d - 2) * (d - 2)));
            }
        }
        assert((a + 1) * (a + 1) + (b + 1) * (b + 1) == r + 2 * (a + b) + 2);
        assert((d - 2) * (d - 2) + 3 * (d - 2) + 2 == d * d - d);
    }
}

/// A vector other than zero, scaled to length one, has length one up to the
/// rounding of its two components.
pub proof fn lemma_normalized_is_unit(v: Vec2)
    requires
        v != Vec2::zero(),
    ensures
        v.normalized().is_unit(),
{
    lemma_scaled_length(v);
    lemma_normalized_in_range(v);
    let d: int = 1_000_000;
    let d2: int = 1_000_000_000_000;
    let len = v.scaled_length() as int;
    let ax: int = if v.x >= 0 { v.x as int } else { -v.x };
    let ay: int = if v.y >= 0 { v.y as int } else { -v.y };
    let n = v.length_squared();
    let a = lemma_quotient_squares(ax * d2, len);
    let b = lemma_quotient_squares(ay * d2, len);
    let unit = v.normalized();
    assert(unit.x == a || unit.x == -a);
    assert(unit.y == b || unit.y == -b);
    let r = unit.length_squared();
    assert(r == a * a + b * b) by (nonlinear_arith)
        requires
            r == unit.x * unit.x + unit.y * unit.y,
            unit.x == a || unit.x == -a,
            unit.y == b || unit.y == -b,
    ;
    let sx = ax * ax;
    let sy = ay * ay;
    assert(sx + sy == n) by (nonlinear_arith)
        requires
            sx == ax * ax,
            sy == ay * ay,
            n == v.x * v.x + v.y * v.y,
            ax == v.x || ax == -v.x,
            ay == v.y || ay == -v.y,
    ;
    assert((ax * d2) * (ax * d2) == sx * (d2 * d2)) by (nonlinear_arith)
        requires
            sx == ax * ax,
    ;
    assert((ay * d2) * (ay * d2) == sy * (d2 * d2)) by (nonlinear_arith)
        requires
            sy == ay * ay,
    ;
    assert((n * d2) * (d * d) == sx * (d2 * d2) + sy * (d2 * d2)) by (nonlinear_arith)
        requires
            sx + sy == n,
            d * d == d2,
    ;
    let big = n * d2;
    assert(r * (len * len) <= big * (d * d)) by (nonlinear_arith)
        requires
            r == a * a + b * b,
            (a * a) * (len * len) <= (ax * d2) * (ax * d2),
            (b * b) * (len * len) <= (ay * d2) * (ay * d2),
            (ax * d2) * (ax * d2) + (ay * d2) * (ay * d2) == big * (d * d),
    ;
    assert(big * (d * d) < ((len + 1) * (len + 1)) * (d * d)) by (nonlinear_arith)
        requires
            big < (len + 1) * (len + 1),
            d == 1_000_000,
    ;
    lemma_upper_bound(r, len, d);
    let s = (a + 1) * (a + 1) + (b + 1) * (b + 1);
    assert(big * (d * d) < s * (len * len)) by (nonlinear_arith)
        requires
            s == (a + 1) * (a + 1) + (b + 1) * (b + 1),
            (ax * d2) * (ax * d2) < ((a + 1) * (a + 1)) * (len * len),
            (ay * d2) * (ay * d2) < ((b + 1) * (b + 1)) * (len * len),
            (ax * d2) * (ax * d2) + (ay * d2) * (ay * d2) == big * (d * d),
    ;
    assert(s > d * d) by (nonlinear_arith)
        requires
            big * (d * d) < s * (len * len),
            len * len <= big,
            len > 0,
            d > 0,
    ;
    lemma_lower_bound(a, b, d);
}

/// The directions that the samples -1, 0 and 1 give. Along an axis the step
/// is one; along a diagonal each component is the square root of one half.
pub proof fn lemma_sampled_directions(x: i32, y: i32)
    requires
        -1 <= x <= 1,
        -1 <= y <= 1,
    ensures
        (Vec2 { x, y }).normalized() == if x != 0 && y != 0 {
            Vec2 { x: (x * 707_107) as i32, y: (y * 707_107) as i32 }
        } else {
            Vec2 { x: (x * DIRECTION_ONE) as i32, y: (y * DIRECTION_ONE) as i32 }
        },
{
    let v = Vec2 { x, y };
    if x != 0 || y != 0 {
        lemma_normalized_in_range(v);
        assert(v.length_squared() == x * x + y * y);
        if x != 0 && y != 0 {
            assert(x * x + y * y == 2) by (nonlinear_arith)
                requires
                    x == 1 || x == -1,
                    y == 1 || y == -1,
            ;
            assert(is_floor_sqrt(2_000_000_000_000, 1_414_213)) by (nonlinear_arith);
            lemma_floor_sqrt_is(2_000_000_000_000, 1_414_213);
            assert(v.scaled_length() == 1_414_213);
            assert(1_000_000_000_000int / 1_414_213 == 707_107) by (nonlinear_arith);
        } else {
            assert(x * x + y * y == 1) by (nonlinear_arith)
                requires
                    (x == 0 && (y == 1 || y == -1)) || (y == 0 && (x == 1 || x == -1)),
            ;
            assert(is_floor_sqrt(1_000_000_000_000, 1_000_000)) by (nonlinear_arith);
            lemma_floor_sqrt_is(1_000_000_000_000, 1_000_000);
            assert(v.scaled_length() == 1_000_000);
            assert(1_000_000_000_000int / 1_000_000 == 1_000_000) by (nonlinear_arith);
            assert(0int / 1_000_000 == 0) by (nonlinear_arith);
        }
    }
}

} // verus!
