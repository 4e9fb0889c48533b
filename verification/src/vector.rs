//! Points and directions with fixed-point components.

use vstd::prelude::*;
use crate::fixed::{
    clamp, clamped, div_trunc, in_limit, is_sqrt, isqrt, lemma_div_trunc_bounds,
    lemma_div_trunc_monotone, product, quotient, sqrt_floor, LIMIT,
};

verus! {

/// A point or a direction in space, in thousandths.
#[derive(Clone, Copy, Debug, PartialEq, Eq, Structural)]
pub struct Vec3 {
    pub x: i64,
    pub y: i64,
    pub z: i64,
}

/// A point or a direction on the ground plane, in thousandths.
#[derive(Clone, Copy, Debug, PartialEq, Eq, Structural)]
pub struct Vec2 {
    pub x: i64,
    pub y: i64,
}

/// Whether `c` can be the difference of two coordinates of the world.
pub open spec fn in_span(c: int) -> bool {
    -2 * LIMIT <= c <= 2 * LIMIT
}

/// One component of a vector brought to length `len`: `c * len / norm`,
/// rounded toward zero.
pub open spec fn stretched(c: int, len: int, norm: int) -> int {
    div_trunc(c * len, norm)
}

/// A component is never longer than the vector it belongs to.
pub proof fn lemma_component_within_norm(c: int, rest: int, norm: int)
    requires
        0 <= rest,
        is_sqrt(c * c + rest, norm),
    ensures
        -norm <= c <= norm,
{
    if c > norm {
        assert((norm + 1) * (norm + 1) <= c * c) by (nonlinear_arith)
            requires
                0 <= norm,
                norm + 1 <= c,
        ;
    }
    if c < -norm {
        assert((norm + 1) * (norm + 1) <= c * c) by (nonlinear_arith)
            requires
                0 <= norm,
                c <= -(norm + 1),
        ;
    }
}

/// A component brought to length `len` is no longer than `len`, and keeps
/// its sign.
pub proof fn lemma_stretched_bounds(c: int, len: int, norm: int)
    requires
        norm > 0,
        -norm <= c <= norm,
        0 <= len,
    ensures
        -len <= stretched(c, len, norm) <= len,
        c >= 0 ==> stretched(c, len, norm) >= 0,
        c <= 0 ==> stretched(c, len, norm) <= 0,
{
    assert(-norm * len <= c * len <= norm * len && (c >= 0 ==> c * len >= 0) && (c <= 0 ==> c * len
        <= 0)) by (nonlinear_arith)
        requires
            -norm <= c <= norm,
            0 <= len,
    ;
    lemma_div_trunc_monotone(c * len, norm * len, norm);
    lemma_div_trunc_monotone(-norm * len, c * len, norm);
    lemma_div_trunc_bounds(c * len, norm);
    assert((norm * len) / norm == len) by (nonlinear_arith)
        requires
            norm > 0,
            0 <= len,
    ;
    assert(-norm * len == -(norm * len)) by (nonlinear_arith);
}

/// One component of a vector brought to length `len`.
pub fn stretch(c: i64, len: i64, norm: u64) -> (r: i64)
    requires
        norm > 0,
        -norm <= c <= norm,
        0 <= len,
    ensures
        r == stretched(c as int, len as int, norm as int),
        -len <= r <= len,
{
    proof {
        lemma_stretched_bounds(c as int, len as int, norm as int);
    }
    let q: i128 = quotient(product(c, len), norm as i128);
    q as i64
}

impl Vec3 {
    /// Whether the point lies inside the world.
    pub open spec fn in_world(self) -> bool {
        in_limit(self.x as int) && in_limit(self.y as int) && in_limit(self.z as int)
    }

    /// Whether the vector can join two points of the world.
    pub open spec fn spans(self) -> bool {
        in_span(self.x as int) && in_span(self.y as int) && in_span(self.z as int)
    }

    /// Sum of the squares of the components.
    pub open spec fn length_squared(self) -> int {
        self.x * self.x + self.y * self.y + self.z * self.z
    }

    /// Length of the vector, rounded down.
    pub open spec fn length(self) -> int {
        sqrt_floor(self.length_squared())
    }

    /// The vector from `self` to `other`.
    pub open spec fn to(self, other: Vec3) -> Vec3 {
        Vec3 {
            x: (other.x - self.x) as i64,
            y: (other.y - self.y) as i64,
            z: (other.z - self.z) as i64,
        }
    }

    /// Square of the distance between two points.
    pub open spec fn distance_squared(self, other: Vec3) -> int {
        self.to(other).length_squared()
    }

    /// The vector turned into one of length `len` that points the same way.
    /// Each component is rounded toward zero.
    pub open spec fn with_length(self, len: int) -> Vec3 {
        Vec3 {
            x: stretched(self.x as int, len, self.length()) as i64,
            y: stretched(self.y as int, len, self.length()) as i64,
            z: stretched(self.z as int, len, self.length()) as i64,
        }
    }

    /// The components on the ground plane: `x` and `z`.
    pub open spec fn ground(self) -> Vec2 {
        Vec2 { x: self.x, y: self.z }
    }

    /// Whether the point lies inside the world.
    pub fn is_in_world(&self) -> (b: bool)
        ensures
            b == self.in_world(),
    {
        -LIMIT <= self.x && self.x <= LIMIT && -LIMIT <= self.y && self.y <= LIMIT && -LIMIT
            <= self.z && self.z <= LIMIT
    }

    /// The nearest point inside the world.
    pub fn held_in_world(&self) -> (v: Vec3)
        ensures
            v == (Vec3 {
                x: clamped(self.x as int) as i64,
                y: clamped(self.y as int) as i64,
                z: clamped(self.z as int) as i64,
            }),
            v.in_world(),
            self.in_world() ==> v == *self,
    {
        Vec3 { x: clamp(self.x as i128), y: clamp(self.y as i128), z: clamp(self.z as i128) }
    }

    /// The vector with the three components given.
    pub fn new(x: i64, y: i64, z: i64) -> (v: Vec3)
        ensures
            v == (Vec3 { x, y, z }),
    {
        Vec3 { x, y, z }
    }

    /// The vector whose three components are `c`.
    pub fn splat(c: i64) -> (v: Vec3)
        ensures
            v == (Vec3 { x: c, y: c, z: c }),
    {
        Vec3 { x: c, y: c, z: c }
    }

    /// The components on the ground plane: `x` and `z`.
    pub fn xz(&self) -> (v: Vec2)
        ensures
            v == self.ground(),
    {
        Vec2 { x: self.x, y: self.z }
    }

    /// The vector from `self` to `other`.
    pub fn toward(&self, other: &Vec3) -> (v: Vec3)
        requires
            self.in_world(),
            other.in_world(),
        ensures
            v == self.to(*other),
            v.spans(),
    {
        Vec3 { x: other.x - self.x, y: other.y - self.y, z: other.z - self.z }
    }

    /// Sum of the squares of the components.
    pub fn norm_squared(&self) -> (n: u128)
        requires
            self.spans(),
        ensures
            n == self.length_squared(),
            n <= 12_000_000_000_000_000_000_000_000_000_000,
    {
        let xx: i128 = product(self.x, self.x);
        let yy: i128 = product(self.y, self.y);
        let zz: i128 = product(self.z, self.z);
        proof {
            lemma_square_bound(self.x as int);
            lemma_square_bound(self.y as int);
            lemma_square_bound(self.z as int);
        }
        (xx + yy + zz) as u128
    }

    /// Square of the distance between two points of the world.
    pub fn distance_squared_to(&self, other: &Vec3) -> (n: u128)
        requires
            self.in_world(),
            other.in_world(),
        ensures
            n == self.distance_squared(*other),
    {
        self.toward(other).norm_squared()
    }

    /// Length of the vector, rounded down.
    pub fn norm(&self) -> (n: u64)
        requires
            self.spans(),
        ensures
            n == self.length(),
            is_sqrt(self.length_squared(), n as int),
    {
        isqrt(self.norm_squared())
    }

    /// The vector turned into one of length `len` that points the same way.
    pub fn scaled_to(&self, len: i64) -> (v: Vec3)
        requires
            self.spans(),
            self.length() > 0,
            0 <= len,
        ensures
            v == self.with_length(len as int),
            -len <= v.x <= len,
            -len <= v.y <= len,
            -len <= v.z <= len,
    {
        let n: u64 = self.norm();
        proof {
            let (x, y, z) = (self.x as int, self.y as int, self.z as int);
            assert(y * y >= 0 && z * z >= 0 && x * x >= 0) by (nonlinear_arith);
            lemma_component_within_norm(x, y * y + z * z, n as int);
            lemma_component_within_norm(y, x * x + z * z, n as int);
            lemma_component_within_norm(z, x * x + y * y, n as int);
        }
        Vec3 { x: stretch(self.x, len, n), y: stretch(self.y, len, n), z: stretch(self.z, len, n) }
    }
}

impl Vec2 {
    /// Whether both components are directions' components: at most one whole
    /// unit in size.
    pub open spec fn is_heading(self) -> bool {
        -1000 <= self.x <= 1000 && -1000 <= self.y <= 1000
    }

    /// Sum of the squares of the components.
    pub open spec fn length_squared(self) -> int {
        self.x * self.x + self.y * self.y
    }

    /// Length of the vector, rounded down.
    pub open spec fn length(self) -> int {
        sqrt_floor(self.length_squared())
    }

    /// The vector of length `len` that points the same way, or the zero
    /// vector where `self` is shorter than one thousandth.
    pub open spec fn with_length_or_zero(self, len: int) -> Vec2 {
        if self.length() == 0 {
            Vec2 { x: 0, y: 0 }
        } else {
            Vec2 {
                x: stretched(self.x as int, len, self.length()) as i64,
                y: stretched(self.y as int, len, self.length()) as i64,
            }
        }
    }

    /// The vector with the two components given.
    pub fn new(x: i64, y: i64) -> (v: Vec2)
        ensures
            v == (Vec2 { x, y }),
    {
        Vec2 { x, y }
    }

    /// The vector of length `len` that points the same way, or the zero
    /// vector where `self` is shorter than one thousandth.
    pub fn scaled_to_or_zero(&self, len: i64) -> (v: Vec2)
        requires
            in_span(self.x as int),
            in_span(self.y as int),
            0 <= len,
        ensures
            v == self.with_length_or_zero(len as int),
            -len <= v.x <= len,
            -len <= v.y <= len,
    {
        let xx: i128 = product(self.x, self.x);
        let yy: i128 = product(self.y, self.y);
        proof {
            lemma_square_bound(self.x as int);
            lemma_square_bound(self.y as int);
        }
        let n: u64 = isqrt((xx + yy) as u128);
        if n == 0 {
            Vec2 { x: 0, y: 0 }
        } else {
            proof {
                let (x, y) = (self.x as int, self.y as int);
                assert(y * y >= 0 && x * x >= 0) by (nonlinear_arith);
                lemma_component_within_norm(x, y * y, n as int);
                lemma_component_within_norm(y, x * x, n as int);
            }
            Vec2 { x: stretch(self.x, len, n), y: stretch(self.y, len, n) }
        }
    }
}

/// The square of a difference of coordinates stays far below 2^124.
pub proof fn lemma_square_bound(c: int)
    requires
        in_span(c),
    ensures
        0 <= c * c <= 4_000_000_000_000_000_000_000_000_000_000,
{
    assert(0 <= c * c <= 4_000_000_000_000_000_000_000_000_000_000) by (nonlinear_arith)
        requires
            -2_000_000_000_000_000 <= c <= 2_000_000_000_000_000,
    ;
}

} // verus!
