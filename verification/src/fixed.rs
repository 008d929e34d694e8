//! Fixed-point numbers.
//!
//! Health, damage, skill points, distances, speeds and the factors of stat
//! modifiers are real numbers in the rules of the game. They are held as
//! integers that count millionths: [`ONE`] stands for 1.0. Time is counted in
//! whole nanoseconds.
//!
//! A quotient is rounded towards zero. A result that is too large to be held
//! is held at the largest value of its type, and likewise at the smallest.

use vstd::prelude::*;

verus! {

/// The fixed-point number that stands for 1.0.
pub const ONE: i64 = 1_000_000;

/// The number of nanoseconds in a second.
pub const NANOS_PER_SEC: u64 = 1_000_000_000;

/// A point or a displacement on the ground plane, in millionths of a tile.
#[derive(Clone, Copy, Debug, PartialEq, Eq, Structural, Hash)]
pub struct Vec2 {
    pub x: i64,
    pub y: i64,
}

/// A point or a displacement in space, in millionths of a tile. `y` is the
/// height above the ground.
#[derive(Clone, Copy, Debug, PartialEq, Eq, Structural, Hash)]
pub struct Vec3 {
    pub x: i64,
    pub y: i64,
    pub z: i64,
}

impl Vec2 {
    pub fn new(x: i64, y: i64) -> (v: Vec2)
        ensures
            v == (Vec2 { x, y }),
    {
        Vec2 { x, y }
    }
}

impl Vec3 {
    pub fn new(x: i64, y: i64, z: i64) -> (v: Vec3)
        ensures
            v == (Vec3 { x, y, z }),
    {
        Vec3 { x, y, z }
    }

    /// The point of the ground plane below or above this one.
    pub open spec fn ground(self) -> Vec2 {
        Vec2 { x: self.x, y: self.z }
    }

    /// Projects the point to the ground plane.
    pub fn to_ground(&self) -> (v: Vec2)
        ensures
            v == self.ground(),
    {
        Vec2 { x: self.x, y: self.z }
    }
}

impl Vec3 {
    /// The sum of the two, axis by axis.
    pub open spec fn plus(self, other: Vec3) -> Vec3 {
        Vec3 {
            x: clamp_i64(self.x + other.x) as i64,
            y: clamp_i64(self.y + other.y) as i64,
            z: clamp_i64(self.z + other.z) as i64,
        }
    }

    /// The difference of the two, axis by axis.
    pub open spec fn minus(self, other: Vec3) -> Vec3 {
        Vec3 {
            x: clamp_i64(self.x - other.x) as i64,
            y: clamp_i64(self.y - other.y) as i64,
            z: clamp_i64(self.z - other.z) as i64,
        }
    }

    /// Adds two vectors.
    pub fn add(&self, other: &Vec3) -> (sum: Vec3)
        ensures
            sum == self.plus(*other),
    {
        Vec3 {
            x: hold_i64(self.x as i128 + other.x as i128),
            y: hold_i64(self.y as i128 + other.y as i128),
            z: hold_i64(self.z as i128 + other.z as i128),
        }
    }

    /// Subtracts a vector from this one.
    pub fn sub(&self, other: &Vec3) -> (difference: Vec3)
        ensures
            difference == self.minus(*other),
    {
        Vec3 {
            x: hold_i64(self.x as i128 - other.x as i128),
            y: hold_i64(self.y as i128 - other.y as i128),
            z: hold_i64(self.z as i128 - other.z as i128),
        }
    }

    /// The square of the distance between two points in space.
    pub open spec fn distance_squared(self, other: Vec3) -> int {
        (self.x - other.x) * (self.x - other.x) + (self.y - other.y) * (self.y - other.y) + (self.z
            - other.z) * (self.z - other.z)
    }
}

/// Whether `root` is the square root of `n`, rounded down.
pub open spec fn is_floor_sqrt(n: int, root: int) -> bool {
    0 <= root && root * root <= n < (root + 1) * (root + 1)
}

/// The square root of a number that is not negative, rounded down.
pub open spec fn floor_sqrt(n: int) -> int {
    choose|root: int| is_floor_sqrt(n, root)
}

/// A number has one square root rounded down.
pub proof fn lemma_floor_sqrt_unique(n: int, a: int, b: int)
    requires
        is_floor_sqrt(n, a),
        is_floor_sqrt(n, b),
    ensures
        a == b,
{
    if a < b {
        assert((a + 1) * (a + 1) <= b * b) by (nonlinear_arith)
            requires
                0 <= a,
                a + 1 <= b,
        ;
    } else if b < a {
        assert((b + 1) * (b + 1) <= a * a) by (nonlinear_arith)
            requires
                0 <= b,
                b + 1 <= a,
        ;
    }
}

/// Computes the square root of a number, rounded down.
pub fn isqrt(n: u128) -> (root: u64)
    ensures
        is_floor_sqrt(n as int, root as int),
        root == floor_sqrt(n as int),
{
    let mut low: u128 = 0;
    let mut high: u128 = 0x1_0000_0000_0000_0000;
    assert(high * high > n) by (nonlinear_arith)
        requires
            high == 0x1_0000_0000_0000_0000,
            n <= u128::MAX,
    ;
    assert(low * low <= n) by (nonlinear_arith)
        requires
            low == 0,
            n >= 0,
    ;
    while high - low > 1
        invariant
            low < high <= 0x1_0000_0000_0000_0000,
            low * low <= n,
            n < high * high,
        decreases high - low,
    {
        let middle: u128 = low + (high - low) / 2;
        assert(middle * middle <= 0xffff_ffff_ffff_ffff * 0xffff_ffff_ffff_ffff)
            by (nonlinear_arith)
            requires
                0 <= middle <= 0xffff_ffff_ffff_ffff,
        ;
        if middle * middle <= n {
            low = middle;
        } else {
            high = middle;
        }
    }
    proof {
        assert(high == low + 1);
        let found = choose|root: int| is_floor_sqrt(n as int, root);
        assert(is_floor_sqrt(n as int, low as int));
        lemma_floor_sqrt_unique(n as int, found, low as int);
    }
    low as u64
}

/// The square of the distance between two points, in square millionths.
pub open spec fn distance_squared(a: Vec2, b: Vec2) -> int {
    (a.x - b.x) * (a.x - b.x) + (a.y - b.y) * (a.y - b.y)
}

/// `value` held to the range of `i32`.
pub open spec fn clamp_i32(value: int) -> int {
    if value < i32::MIN {
        i32::MIN as int
    } else if value > i32::MAX {
        i32::MAX as int
    } else {
        value
    }
}

/// Holds a wide number to the range of `i32`.
pub fn hold_i32(value: i64) -> (held: i32)
    ensures
        held == clamp_i32(value as int),
{
    if value < i32::MIN as i64 {
        i32::MIN
    } else if value > i32::MAX as i64 {
        i32::MAX
    } else {
        value as i32
    }
}

/// `value` held to the range of `i64`.
pub open spec fn clamp_i64(value: int) -> int {
    if value < i64::MIN {
        i64::MIN as int
    } else if value > i64::MAX {
        i64::MAX as int
    } else {
        value
    }
}

/// The quotient of `a` by a positive `b`, rounded towards zero.
pub open spec fn trunc_div(a: int, b: int) -> int {
    if a >= 0 {
        a / b
    } else {
        -((-a) / b)
    }
}

/// Holds a wide number to the range of `i64`.
pub fn hold_i64(value: i128) -> (held: i64)
    ensures
        held == clamp_i64(value as int),
{
    if value < i64::MIN as i128 {
        i64::MIN
    } else if value > i64::MAX as i128 {
        i64::MAX
    } else {
        value as i64
    }
}

/// The product of `a` and `b`, divided by `c`.
pub fn mul_div(a: i64, b: i64, c: i64) -> (q: i64)
    requires
        c > 0,
    ensures
        q == clamp_i64(trunc_div(a * b, c as int)),
{
    assert(-0x4000_0000_0000_0000_0000_0000_0000_0000 <= a * b
        <= 0x4000_0000_0000_0000_0000_0000_0000_0000) by (nonlinear_arith)
        requires
            -0x8000_0000_0000_0000 <= a <= 0x8000_0000_0000_0000,
            -0x8000_0000_0000_0000 <= b <= 0x8000_0000_0000_0000,
    ;
    let product: i128 = a as i128 * b as i128;
    let quotient: i128 = if product >= 0 {
        product / c as i128
    } else {
        -((-product) / c as i128)
    };
    hold_i64(quotient)
}

/// The product of two fixed-point numbers.
pub fn mul_fixed(a: i64, b: i64) -> (product: i64)
    ensures
        product == clamp_i64(trunc_div(a * b, ONE as int)),
{
    mul_div(a, b, ONE)
}

/// The whole part of a fixed-point number, rounded down.
pub fn floor_units(value: i64) -> (whole: i64)
    ensures
        whole == value as int / ONE as int,
{
    if value >= 0 {
        value / ONE
    } else {
        let up: u64 = ((-(value as i128)) as u64 + 999_999) / 1_000_000;
        -(up as i64)
    }
}

/// The distance between two numbers.
pub fn gap(a: i64, b: i64) -> (d: u64)
    ensures
        d == if a >= b {
            a - b
        } else {
            b - a
        },
{
    if a >= b {
        (a as i128 - b as i128) as u64
    } else {
        (b as i128 - a as i128) as u64
    }
}

/// Whether two points are no further apart than `reach`.
pub fn within(a: Vec2, b: Vec2, reach: u64) -> (near: bool)
    ensures
        near == (distance_squared(a, b) <= reach * reach),
{
    let dx: u64 = gap(a.x, b.x);
    let dy: u64 = gap(a.y, b.y);
    proof {
        assert(dx == a.x - b.x || dx == b.x - a.x);
        assert(dy == a.y - b.y || dy == b.y - a.y);
        assert(dx * dx == (a.x - b.x) * (a.x - b.x)) by (nonlinear_arith)
            requires
                dx == a.x - b.x || dx == b.x - a.x,
        ;
        assert(dy * dy == (a.y - b.y) * (a.y - b.y)) by (nonlinear_arith)
            requires
                dy == a.y - b.y || dy == b.y - a.y,
        ;
    }
    if dx > reach || dy > reach {
        proof {
            assert(dx > reach ==> dx * dx > reach * reach) by (nonlinear_arith);
            assert(dy > reach ==> dy * dy > reach * reach) by (nonlinear_arith);
            assert(dx * dx >= 0 && dy * dy >= 0) by (nonlinear_arith);
        }
        false
    } else {
        proof {
            assert(dx * dx <= reach * reach) by (nonlinear_arith)
                requires
                    dx <= reach,
            ;
            assert(dy * dy <= reach * reach) by (nonlinear_arith)
                requires
                    dy <= reach,
            ;
            assert(reach * reach <= u64::MAX * u64::MAX) by (nonlinear_arith)
                requires
                    reach <= u64::MAX,
            ;
        }
        let dx2: u128 = dx as u128 * dx as u128;
        let dy2: u128 = dy as u128 * dy as u128;
        let r2: u128 = reach as u128 * reach as u128;
        dx2 <= r2 && dy2 <= r2 - dx2
    }
}

} // verus!
