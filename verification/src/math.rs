//! Integer vectors: lattice coordinates, which wrap, and pointer-space
//! vectors in whole pixels, which saturate.

use vstd::prelude::*;
use vstd::wrapping::i32_specs;

verus! {

/// The value in the `i32` range nearest to `v`.
pub open spec fn clamp_i32(v: int) -> i32 {
    if v > i32::MAX {
        i32::MAX
    } else if v < i32::MIN {
        i32::MIN
    } else {
        v as i32
    }
}

/// Brings a 64-bit value into the `i32` range by saturation.
pub fn clamp_to_i32(v: i64) -> (r: i32)
    ensures
        r == clamp_i32(v as int),
{
    if v > 2147483647i64 {
        2147483647i32
    } else if v < -2147483648i64 {
        -2147483648i32
    } else {
        v as i32
    }
}

/// The integer nearest to `n / d`, for positive `d`; a quotient that falls
/// halfway between two integers goes to the one farther from zero.
pub open spec fn div_round(n: int, d: int) -> int {
    if n >= 0 {
        (2 * n + d) / (2 * d)
    } else {
        -((2 * (-n) + d) / (2 * d))
    }
}

/// The rounded quotient is within half a divisor of the exact one, and has
/// the sign of the numerator.
pub proof fn lemma_div_round_nearest(n: int, d: int)
    requires
        d > 0,
    ensures
        -d <= 2 * (d * div_round(n, d) - n) <= d,
        n >= 0 ==> div_round(n, d) >= 0,
        n <= 0 ==> div_round(n, d) <= 0,
        div_round(-n, d) == -div_round(n, d),
{
    let m = if n >= 0 {
        n
    } else {
        -n
    };
    let q = (2 * m + d) / (2 * d);
    vstd::arithmetic::div_mod::lemma_fundamental_div_mod(2 * m + d, 2 * d);
    vstd::arithmetic::div_mod::lemma_mod_bound(2 * m + d, 2 * d);
    assert(2 * m + d == (2 * d) * q + (2 * m + d) % (2 * d));
    assert((2 * d) * q == 2 * (d * q)) by (nonlinear_arith);
    assert(q >= 0) by (nonlinear_arith)
        requires
            2 * m + d == (2 * d) * q + (2 * m + d) % (2 * d),
            0 <= (2 * m + d) % (2 * d) < 2 * d,
            m >= 0,
            d > 0,
    ;
    if n < 0 {
        assert(d * (-q) == -(d * q)) by (nonlinear_arith);
    }
    if n == 0 {
        assert(q == 0) by (nonlinear_arith)
            requires
                d == (2 * d) * q + (2 * m + d) % (2 * d),
                0 <= (2 * m + d) % (2 * d) < 2 * d,
                q >= 0,
                d > 0,
        ;
    }
}

/// The rounded quotient of two machine integers.
pub fn div_round_exec(n: i64, d: i64) -> (q: i64)
    requires
        d > 0,
    ensures
        q == div_round(n as int, d as int),
{
    let wide_n: i128 = n as i128;
    let wide_d: i128 = d as i128;
    let magnitude: i128 = if wide_n >= 0 {
        wide_n
    } else {
        -wide_n
    };
    let q: i128 = (2 * magnitude + wide_d) / (2 * wide_d);
    proof {
        lemma_div_round_nearest(n as int, d as int);
        vstd::arithmetic::div_mod::lemma_fundamental_div_mod(
            2 * magnitude + wide_d,
            2 * wide_d,
        );
        vstd::arithmetic::div_mod::lemma_mod_bound(2 * magnitude + wide_d, 2 * wide_d);
        let r = (2 * magnitude + wide_d) % (2 * wide_d);
        assert(0 <= q <= magnitude) by (nonlinear_arith)
            requires
                2 * magnitude + wide_d == (2 * wide_d) * q + r,
                0 <= r < 2 * wide_d,
                magnitude >= 0,
                wide_d > 0,
        ;
    }
    if wide_n >= 0 {
        q as i64
    } else {
        (-q) as i64
    }
}

/// A lattice coordinate. Sums of coordinates wrap around the `i32` range.
#[derive(Clone, Copy, Debug, PartialEq, Eq, Structural, Hash)]
pub struct IVec2 {
    pub x: i32,
    pub y: i32,
}

impl IVec2 {
    pub fn new(x: i32, y: i32) -> (v: IVec2)
        ensures
            v == (IVec2 { x, y }),
    {
        IVec2 { x, y }
    }

    /// The componentwise sum, each component wrapping on overflow.
    pub open spec fn spec_wrapping_add(self, rhs: IVec2) -> IVec2 {
        IVec2 {
            x: i32_specs::wrapping_add(self.x, rhs.x),
            y: i32_specs::wrapping_add(self.y, rhs.y),
        }
    }

    #[verifier::when_used_as_spec(spec_wrapping_add)]
    pub fn wrapping_add(self, rhs: IVec2) -> (r: IVec2)
        ensures
            r == self.spec_wrapping_add(rhs),
    {
        IVec2 { x: self.x.wrapping_add(rhs.x), y: self.y.wrapping_add(rhs.y) }
    }

    /// The componentwise difference, each component wrapping on overflow.
    pub open spec fn spec_wrapping_sub(self, rhs: IVec2) -> IVec2 {
        IVec2 {
            x: i32_specs::wrapping_sub(self.x, rhs.x),
            y: i32_specs::wrapping_sub(self.y, rhs.y),
        }
    }

    #[verifier::when_used_as_spec(spec_wrapping_sub)]
    pub fn wrapping_sub(self, rhs: IVec2) -> (r: IVec2)
        ensures
            r == self.spec_wrapping_sub(rhs),
    {
        IVec2 { x: self.x.wrapping_sub(rhs.x), y: self.y.wrapping_sub(rhs.y) }
    }
}

/// A position or displacement in pointer space, in whole pixels. Arithmetic
/// on these saturates at the ends of the `i32` range.
#[derive(Clone, Copy, Debug, PartialEq, Eq, Structural, Hash)]
pub struct Vec2 {
    pub x: i32,
    pub y: i32,
}

impl Vec2 {
    pub fn new(x: i32, y: i32) -> (v: Vec2)
        ensures
            v == (Vec2 { x, y }),
    {
        Vec2 { x, y }
    }

    pub open spec fn spec_zero() -> Vec2 {
        Vec2 { x: 0, y: 0 }
    }

    #[verifier::when_used_as_spec(spec_zero)]
    pub fn zero() -> (v: Vec2)
        ensures
            v == Vec2::spec_zero(),
    {
        Vec2 { x: 0, y: 0 }
    }

    pub open spec fn spec_is_zero(self) -> bool {
        self.x == 0 && self.y == 0
    }

    #[verifier::when_used_as_spec(spec_is_zero)]
    pub fn is_zero(self) -> (r: bool)
        ensures
            r == self.spec_is_zero(),
    {
        self.x == 0 && self.y == 0
    }

    /// The componentwise sum, each component saturating.
    pub open spec fn spec_saturating_add(self, rhs: Vec2) -> Vec2 {
        Vec2 { x: clamp_i32(self.x + rhs.x), y: clamp_i32(self.y + rhs.y) }
    }

    #[verifier::when_used_as_spec(spec_saturating_add)]
    pub fn saturating_add(self, rhs: Vec2) -> (r: Vec2)
        ensures
            r == self.spec_saturating_add(rhs),
    {
        let x: i64 = self.x as i64 + rhs.x as i64;
        let y: i64 = self.y as i64 + rhs.y as i64;
        Vec2 { x: clamp_to_i32(x), y: clamp_to_i32(y) }
    }

    /// The squared Euclidean length, `x² + y²`.
    pub open spec fn spec_length_squared(self) -> int {
        self.x * self.x + self.y * self.y
    }

    pub fn length_squared(self) -> (r: u64)
        ensures
            r == self.spec_length_squared(),
    {
        let x: i64 = self.x as i64;
        let y: i64 = self.y as i64;
        assert(0 <= x * x <= 0x4000_0000_0000_0000) by (nonlinear_arith)
            requires
                -0x8000_0000 <= x <= 0x7fff_ffff,
        ;
        assert(0 <= y * y <= 0x4000_0000_0000_0000) by (nonlinear_arith)
            requires
                -0x8000_0000 <= y <= 0x7fff_ffff,
        ;
        let xx: u64 = (x * x) as u64;
        let yy: u64 = (y * y) as u64;
        xx + yy
    }
}

} // verus!
