//! Saturating fixed-point scalars.
//!
//! Real quantities are held as `raw / SCALE` with `raw: i64` kept inside
//! `[-RAW_BOUND, RAW_BOUND]`, so every value lies in roughly `[-4096, 4096]`
//! with a resolution of `1 / SCALE`.  Each operation states its result
//! exactly: the mathematical result, rounded toward negative infinity where
//! a division happens, then saturated into the representable range.

use vstd::prelude::*;

verus! {

use vstd::arithmetic::div_mod::lemma_fundamental_div_mod;
use vstd::arithmetic::div_mod::lemma_fundamental_div_mod_converse;

/// Raw units per unit of value: the fixed-point scale factor (2^16).
pub const SCALE: i64 = 65536;

/// Largest raw magnitude a scalar may hold (2^28, about 4096 in value).
pub const RAW_BOUND: i64 = 268435456;

/// A raw representation that lies inside the representable range.
pub open spec fn in_range(r: int) -> bool {
    -(RAW_BOUND as int) <= r <= RAW_BOUND as int
}

/// The raw value `r` saturated into the representable range.
pub open spec fn sat(r: int) -> int {
    if r < -(RAW_BOUND as int) {
        -(RAW_BOUND as int)
    } else if r > RAW_BOUND as int {
        RAW_BOUND as int
    } else {
        r
    }
}

/// Quotient of `p` by `q`, rounded toward negative infinity.
///
/// In specifications `/` is Euclidean division, which rounds toward negative
/// infinity exactly when the divisor is positive; flipping both signs when
/// `q < 0` therefore yields the floor in every case.
pub open spec fn div_floor(p: int, q: int) -> int
    recommends
        q != 0,
{
    if q < 0 {
        (-p) / (-q)
    } else {
        p / q
    }
}

/// Floor of the square root of `n`, defined by counting up.
pub open spec fn sqrt_floor(n: nat) -> nat
    decreases n,
{
    if n == 0 {
        0
    } else {
        let r = sqrt_floor((n - 1) as nat);
        if (r + 1) * (r + 1) <= n {
            r + 1
        } else {
            r
        }
    }
}

/// `sqrt_floor(n)` is the unique `r` with `r^2 <= n < (r+1)^2`.
pub proof fn lemma_sqrt_floor_bounds(n: nat)
    ensures
        sqrt_floor(n) * sqrt_floor(n) <= n,
        n < (sqrt_floor(n) + 1) * (sqrt_floor(n) + 1),
    decreases n,
{
    if n == 0 {
        assert(sqrt_floor(n) == 0);
        assert(sqrt_floor(n) * sqrt_floor(n) <= n) by (nonlinear_arith)
            requires
                sqrt_floor(n) == 0,
                n == 0;
        assert(n < (sqrt_floor(n) + 1) * (sqrt_floor(n) + 1)) by (nonlinear_arith)
            requires
                sqrt_floor(n) == 0,
                n == 0;
    } else {
        lemma_sqrt_floor_bounds((n - 1) as nat);
        let r = sqrt_floor((n - 1) as nat);
        let s = sqrt_floor(n);
        if (r + 1) * (r + 1) <= n {
            assert(s == r + 1);
            assert(s * s <= n) by (nonlinear_arith)
                requires
                    s == r + 1,
                    (r + 1) * (r + 1) <= n;
            assert(n < (s + 1) * (s + 1)) by (nonlinear_arith)
                requires
                    s == r + 1,
                    n - 1 < (r + 1) * (r + 1),
                    r >= 0;
        } else {
            assert(s == r);
            assert(s * s <= n) by (nonlinear_arith)
                requires
                    s == r,
                    r * r <= n - 1;
            assert(n < (s + 1) * (s + 1)) by (nonlinear_arith)
                requires
                    s == r,
                    (r + 1) * (r + 1) > n;
        }
    }
}

/// The rounded-down square root of a perfect square is its root.
pub proof fn lemma_sqrt_floor_of_square(x: nat)
    ensures
        sqrt_floor(x * x) == x,
{
    lemma_sqrt_floor_bounds(x * x);
    let s = sqrt_floor(x * x);
    assert(s == x) by (nonlinear_arith)
        requires
            s * s <= x * x,
            x * x < (s + 1) * (s + 1),
            s >= 0,
            x >= 0;
}

/// A positive common factor cancels from an equation.
pub proof fn lemma_cancel_factor(s: int, x: int, y: int)
    requires
        s > 0,
        s * x == s * y,
    ensures
        x == y,
{
    assert(x == y) by (nonlinear_arith)
        requires
            s > 0,
            s * x == s * y;
}

/// A scalar: the real value `raw / SCALE`.
#[derive(Clone, Copy, PartialEq, Eq, Structural, Debug)]
pub struct Fx {
    pub raw: i64,
}

impl Fx {
    /// The representation invariant: the raw value lies in the range.
    pub open spec fn wf(self) -> bool {
        in_range(self.raw as int)
    }

    /// The scalar with the given raw representation.
    pub fn from_raw(raw: i64) -> (r: Fx)
        requires
            in_range(raw as int),
        ensures
            r.wf(),
            r.raw == raw,
    {
        Fx { raw }
    }

    /// The scalar holding the integer `i` exactly.
    pub fn from_int(i: i64) -> (r: Fx)
        requires
            -4096 <= i <= 4096,
        ensures
            r.wf(),
            r.raw == i * SCALE,
    {
        Fx { raw: i * SCALE }
    }

    /// The scalar zero.
    pub fn zero() -> (r: Fx)
        ensures
            r.wf(),
            r.raw == 0,
    {
        Fx { raw: 0 }
    }

    /// The scalar one.
    pub fn one() -> (r: Fx)
        ensures
            r.wf(),
            r.raw == SCALE,
    {
        Fx { raw: SCALE }
    }

    /// The additive inverse.
    pub fn neg(self) -> (r: Fx)
        requires
            self.wf(),
        ensures
            r.wf(),
            r.raw == -self.raw,
    {
        Fx { raw: -self.raw }
    }

    /// The sum, saturated.
    pub fn add(self, other: Fx) -> (r: Fx)
        requires
            self.wf(),
            other.wf(),
        ensures
            r.wf(),
            r.raw == sat(self.raw + other.raw),
    {
        clamp_raw(self.raw + other.raw)
    }

    /// The difference, saturated.
    pub fn sub(self, other: Fx) -> (r: Fx)
        requires
            self.wf(),
            other.wf(),
        ensures
            r.wf(),
            r.raw == sat(self.raw - other.raw),
    {
        clamp_raw(self.raw - other.raw)
    }

    /// The product, rounded toward negative infinity, then saturated.
    pub fn mul(self, other: Fx) -> (r: Fx)
        requires
            self.wf(),
            other.wf(),
        ensures
            r.wf(),
            r.raw == sat(div_floor(self.raw * other.raw, SCALE as int)),
    {
        proof {
            assert(-0x100000000000000 <= (self.raw as int) * (other.raw as int)
                <= 0x100000000000000) by (nonlinear_arith)
                requires
                    in_range(self.raw as int),
                    in_range(other.raw as int);
        }
        let wide: i128 = (self.raw as i128) * (other.raw as i128);
        clamp_wide(floor_div_wide(wide, SCALE as i128))
    }

    /// The quotient, rounded toward negative infinity, then saturated.
    pub fn div(self, other: Fx) -> (r: Fx)
        requires
            self.wf(),
            other.wf(),
            other.raw != 0,
        ensures
            r.wf(),
            r.raw == sat(div_floor(self.raw * SCALE, other.raw as int)),
    {
        let num: i128 = (self.raw as i128) * (SCALE as i128);
        if other.raw < 0 {
            clamp_wide(floor_div_wide(-num, -(other.raw as i128)))
        } else {
            clamp_wide(floor_div_wide(num, other.raw as i128))
        }
    }

    /// The square root of a non-negative scalar, rounded down, saturated.
    pub fn sqrt(self) -> (r: Fx)
        requires
            self.wf(),
            self.raw >= 0,
        ensures
            r.wf(),
            r.raw == sat(sqrt_floor((self.raw * SCALE) as nat) as int),
    {
        let wide: u128 = (self.raw as u128) * (SCALE as u128);
        let root = isqrt(wide);
        proof {
            assert((root as int) * (root as int) <= wide as int ==> root as int <= 0x400000)
                by (nonlinear_arith)
                requires
                    wide as int <= 0x100000000000,
                    root >= 0;
            lemma_sqrt_floor_bounds(wide as nat);
        }
        clamp_wide(root as i128)
    }
}

/// The raw value clamped into the representable range.
fn clamp_raw(raw: i64) -> (r: Fx)
    ensures
        r.wf(),
        r.raw == sat(raw as int),
{
    if raw < -RAW_BOUND {
        Fx { raw: -RAW_BOUND }
    } else if raw > RAW_BOUND {
        Fx { raw: RAW_BOUND }
    } else {
        Fx { raw }
    }
}

/// A wide raw value clamped into the representable range.
fn clamp_wide(raw: i128) -> (r: Fx)
    ensures
        r.wf(),
        r.raw == sat(raw as int),
{
    if raw < -(RAW_BOUND as i128) {
        Fx { raw: -RAW_BOUND }
    } else if raw > RAW_BOUND as i128 {
        Fx { raw: RAW_BOUND }
    } else {
        Fx { raw: raw as i64 }
    }
}

/// Quotient of wide values, rounded toward negative infinity.
///
/// The sign handling reduces to unsigned division: for a negative dividend
/// the quotient is bumped down by one unless the division is exact.
pub fn floor_div_wide(p: i128, q: i128) -> (r: i128)
    requires
        q > 0,
        -(0x40000000000000000000000000000000 as i128) < p,
    ensures
        r == div_floor(p as int, q as int),
{
    if p >= 0 {
        let d = (p as u128) / (q as u128);
        proof {
            lemma_fundamental_div_mod(p as u128 as int, q as u128 as int);
            lemma_fundamental_div_mod_converse(
                p as int,
                q as int,
                (p as u128 as int) / (q as u128 as int),
                (p as u128 as int) % (q as u128 as int),
            );
        }
        d as i128
    } else {
        let pu = (-p) as u128;
        let qu = q as u128;
        let d = pu / qu;
        let m = pu % qu;
        proof {
            lemma_fundamental_div_mod(pu as int, qu as int);
            if m == 0 {
                assert(p as int == (q as int) * (-(d as int)) + 0) by (nonlinear_arith)
                    requires
                        pu as int == (qu as int) * (d as int) + (m as int),
                        m == 0,
                        p as int == -(pu as int),
                        q as int == qu as int;
                lemma_fundamental_div_mod_converse(p as int, q as int, -(d as int), 0);
            } else {
                assert(p as int == (q as int) * (-(d as int) - 1) + ((qu as int) - (m as int)))
                    by (nonlinear_arith)
                    requires
                        pu as int == (qu as int) * (d as int) + (m as int),
                        p as int == -(pu as int),
                        q as int == qu as int;
                lemma_fundamental_div_mod_converse(
                    p as int,
                    q as int,
                    -(d as int) - 1,
                    (qu as int) - (m as int),
                );
            }
        }
        if m == 0 {
            -(d as i128)
        } else {
            -(d as i128) - 1
        }
    }
}

/// Floor of the square root of a wide unsigned value, by bisection.
pub fn isqrt(n: u128) -> (r: u128)
    ensures
        r == sqrt_floor(n as nat),
{
    let mut lo: u128 = 0;
    let mut hi: u128 = 0x10000000000000000;
    if n < hi {
        hi = n + 1;
        proof {
            assert((hi as int) * (hi as int) > n as int) by (nonlinear_arith)
                requires
                    hi as int == n as int + 1,
                    n >= 0;
        }
    } else {
        proof {
            assert((hi as int) * (hi as int) > n as int) by (nonlinear_arith)
                requires
                    hi as int == 0x10000000000000000,
                    n <= u128::MAX;
        }
    }
    while lo + 1 < hi
        invariant
            0 <= lo < hi,
            hi <= 0x10000000000000000,
            (lo as int) * (lo as int) <= n as int,
            (hi as int) * (hi as int) > n as int,
        decreases hi - lo,
    {
        let mid = lo + (hi - lo) / 2;
        proof {
            assert((mid as int) * (mid as int) <= u128::MAX) by (nonlinear_arith)
                requires
                    0 <= mid < 0x10000000000000000;
        }
        let sq = mid * mid;
        if sq <= n {
            lo = mid;
        } else {
            hi = mid;
        }
    }
    proof {
        lemma_sqrt_floor_bounds(n as nat);
        let s = sqrt_floor(n as nat);
        assert(lo as int == s as int) by (nonlinear_arith)
            requires
                (lo as int) * (lo as int) <= n as int,
                ((lo as int) + 1) * ((lo as int) + 1) > n as int,
                (s as int) * (s as int) <= n as int,
                ((s as int) + 1) * ((s as int) + 1) > n as int,
                lo >= 0,
                s >= 0;
    }
    lo
}

} // verus!
