//! Three-component vectors over fixed-point scalars.
//!
//! The contracts are phrased over exact integer arithmetic on the raw
//! representations: `dot_wide`, `cross_x_wide` and friends compute the
//! mathematical (unrounded) products in raw units, and each executable
//! operation promises its result equals that value rounded once and
//! saturated.

use vstd::prelude::*;

verus! {

use crate::fixed::Fx;
use crate::fixed::SCALE;
use crate::fixed::RAW_BOUND;
use crate::fixed::in_range;
use crate::fixed::sat;
use crate::fixed::div_floor;
use crate::fixed::sqrt_floor;
use crate::fixed::floor_div_wide;
use crate::fixed::isqrt;

/// A point or direction in 3-space.
#[derive(Clone, Copy, PartialEq, Eq, Structural, Debug)]
pub struct Vector {
    pub x: Fx,
    pub y: Fx,
    pub z: Fx,
}

/// Exact dot product of the raw representations (in squared raw units).
pub open spec fn dot_wide(a: Vector, b: Vector) -> int {
    a.x.raw * b.x.raw + a.y.raw * b.y.raw + a.z.raw * b.z.raw
}

/// Exact squared length of the raw representation (in squared raw units).
pub open spec fn norm2_wide(a: Vector) -> int {
    dot_wide(a, a)
}

/// Exact x component of the cross product (in squared raw units).
pub open spec fn cross_x_wide(a: Vector, b: Vector) -> int {
    a.y.raw * b.z.raw - a.z.raw * b.y.raw
}

/// Exact y component of the cross product (in squared raw units).
pub open spec fn cross_y_wide(a: Vector, b: Vector) -> int {
    a.z.raw * b.x.raw - a.x.raw * b.z.raw
}

/// Exact z component of the cross product (in squared raw units).
pub open spec fn cross_z_wide(a: Vector, b: Vector) -> int {
    a.x.raw * b.y.raw - a.y.raw * b.x.raw
}

/// The raw length of a vector: the rounded-down square root of its exact
/// squared raw length.  It is already in plain raw units.
pub open spec fn len_wide(a: Vector) -> int {
    sqrt_floor(norm2_wide(a) as nat) as int
}

/// One component of `a` scaled by `t` (raw units), rounded and saturated.
pub open spec fn scale_comp(t: int, c: int) -> int {
    sat(div_floor(t * c, SCALE as int))
}

/// The componentwise sum as a value (each component saturated).
pub open spec fn add_spec(a: Vector, b: Vector) -> Vector {
    Vector {
        x: (Fx { raw: sat(a.x.raw + b.x.raw) as i64 }),
        y: (Fx { raw: sat(a.y.raw + b.y.raw) as i64 }),
        z: (Fx { raw: sat(a.z.raw + b.z.raw) as i64 }),
    }
}

/// The componentwise difference as a value (each component saturated).
pub open spec fn sub_spec(a: Vector, b: Vector) -> Vector {
    Vector {
        x: (Fx { raw: sat(a.x.raw - b.x.raw) as i64 }),
        y: (Fx { raw: sat(a.y.raw - b.y.raw) as i64 }),
        z: (Fx { raw: sat(a.z.raw - b.z.raw) as i64 }),
    }
}

/// The vector scaled by the raw factor `t`, as a value.
pub open spec fn scale_spec(t: int, a: Vector) -> Vector {
    Vector {
        x: (Fx { raw: scale_comp(t, a.x.raw as int) as i64 }),
        y: (Fx { raw: scale_comp(t, a.y.raw as int) as i64 }),
        z: (Fx { raw: scale_comp(t, a.z.raw as int) as i64 }),
    }
}

/// The componentwise additive inverse, as a value.
pub open spec fn neg_spec(a: Vector) -> Vector {
    Vector {
        x: (Fx { raw: (-(a.x.raw as int)) as i64 }),
        y: (Fx { raw: (-(a.y.raw as int)) as i64 }),
        z: (Fx { raw: (-(a.z.raw as int)) as i64 }),
    }
}

/// The vector divided by the raw scalar `t`, as a value.
pub open spec fn div_scalar_spec(a: Vector, t: int) -> Vector {
    Vector {
        x: (Fx { raw: sat(div_floor(a.x.raw * SCALE, t)) as i64 }),
        y: (Fx { raw: sat(div_floor(a.y.raw * SCALE, t)) as i64 }),
        z: (Fx { raw: sat(div_floor(a.z.raw * SCALE, t)) as i64 }),
    }
}

/// The cross product, as a value (each component rounded and saturated).
pub open spec fn cross_spec(a: Vector, b: Vector) -> Vector {
    Vector {
        x: (Fx { raw: sat(div_floor(cross_x_wide(a, b), SCALE as int)) as i64 }),
        y: (Fx { raw: sat(div_floor(cross_y_wide(a, b), SCALE as int)) as i64 }),
        z: (Fx { raw: sat(div_floor(cross_z_wide(a, b), SCALE as int)) as i64 }),
    }
}

/// The normalized vector, as a value; a zero vector stays zero.
pub open spec fn unit_spec(v: Vector) -> Vector {
    if norm2_wide(v) > 0 {
        div_scalar_spec(v, len_wide(v))
    } else {
        Vector { x: (Fx { raw: 0 }), y: (Fx { raw: 0 }), z: (Fx { raw: 0 }) }
    }
}

impl Vector {
    /// All three components lie in the representable range.
    pub open spec fn wf(self) -> bool {
        self.x.wf() && self.y.wf() && self.z.wf()
    }

    /// The vector with the given components.
    pub fn new(x: Fx, y: Fx, z: Fx) -> (r: Vector)
        requires
            x.wf(),
            y.wf(),
            z.wf(),
        ensures
            r.wf(),
            r == (Vector { x, y, z }),
    {
        Vector { x, y, z }
    }

    /// The zero vector.
    pub fn zero() -> (r: Vector)
        ensures
            r.wf(),
            r.x.raw == 0 && r.y.raw == 0 && r.z.raw == 0,
    {
        Vector { x: Fx::zero(), y: Fx::zero(), z: Fx::zero() }
    }

    /// The x component.
    pub fn x(&self) -> (c: Fx)
        ensures
            c == self.x,
    {
        self.x
    }

    /// The y component.
    pub fn y(&self) -> (c: Fx)
        ensures
            c == self.y,
    {
        self.y
    }

    /// The z component.
    pub fn z(&self) -> (c: Fx)
        ensures
            c == self.z,
    {
        self.z
    }

    /// The red channel, when the vector is read as a color.
    pub fn r(&self) -> (c: Fx)
        ensures
            c == self.x,
    {
        self.x
    }

    /// The green channel, when the vector is read as a color.
    pub fn g(&self) -> (c: Fx)
        ensures
            c == self.y,
    {
        self.y
    }

    /// The blue channel, when the vector is read as a color.
    pub fn b(&self) -> (c: Fx)
        ensures
            c == self.z,
    {
        self.z
    }

    /// The component at `index`: x, y, z in that order.
    pub fn index(&self, index: usize) -> (r: Fx)
        requires
            index < 3,
        ensures
            index == 0 ==> r == self.x,
            index == 1 ==> r == self.y,
            index == 2 ==> r == self.z,
    {
        if index == 0 {
            self.x
        } else if index == 1 {
            self.y
        } else {
            self.z
        }
    }

    /// Replace the component at `index`: x, y, z in that order.
    pub fn set_index(&mut self, index: usize, value: Fx)
        requires
            old(self).wf(),
            value.wf(),
            index < 3,
        ensures
            final(self).wf(),
            index == 0 ==> *final(self) == (Vector { x: value, ..*old(self) }),
            index == 1 ==> *final(self) == (Vector { y: value, ..*old(self) }),
            index == 2 ==> *final(self) == (Vector { z: value, ..*old(self) }),
    {
        if index == 0 {
            self.x = value;
        } else if index == 1 {
            self.y = value;
        } else {
            self.z = value;
        }
    }

    /// The componentwise additive inverse.
    pub fn neg(self) -> (r: Vector)
        requires
            self.wf(),
        ensures
            r.wf(),
            r.x.raw == -self.x.raw,
            r.y.raw == -self.y.raw,
            r.z.raw == -self.z.raw,
            r == neg_spec(self),
    {
        Vector { x: self.x.neg(), y: self.y.neg(), z: self.z.neg() }
    }

    /// The componentwise sum, saturated.
    pub fn add(self, other: Vector) -> (r: Vector)
        requires
            self.wf(),
            other.wf(),
        ensures
            r.wf(),
            r.x.raw == sat(self.x.raw + other.x.raw),
            r.y.raw == sat(self.y.raw + other.y.raw),
            r.z.raw == sat(self.z.raw + other.z.raw),
            r == add_spec(self, other),
    {
        Vector { x: self.x.add(other.x), y: self.y.add(other.y), z: self.z.add(other.z) }
    }

    /// The componentwise difference, saturated.
    pub fn sub(self, other: Vector) -> (r: Vector)
        requires
            self.wf(),
            other.wf(),
        ensures
            r.wf(),
            r.x.raw == sat(self.x.raw - other.x.raw),
            r.y.raw == sat(self.y.raw - other.y.raw),
            r.z.raw == sat(self.z.raw - other.z.raw),
            r == sub_spec(self, other),
    {
        Vector { x: self.x.sub(other.x), y: self.y.sub(other.y), z: self.z.sub(other.z) }
    }

    /// The componentwise product (used for color attenuation).
    pub fn elem_wise_mul(self, other: Vector) -> (r: Vector)
        requires
            self.wf(),
            other.wf(),
        ensures
            r.wf(),
            r.x.raw == sat(div_floor(self.x.raw * other.x.raw, SCALE as int)),
            r.y.raw == sat(div_floor(self.y.raw * other.y.raw, SCALE as int)),
            r.z.raw == sat(div_floor(self.z.raw * other.z.raw, SCALE as int)),
    {
        Vector { x: self.x.mul(other.x), y: self.y.mul(other.y), z: self.z.mul(other.z) }
    }

    /// The componentwise quotient.
    pub fn elem_wise_div(self, other: Vector) -> (r: Vector)
        requires
            self.wf(),
            other.wf(),
            other.x.raw != 0,
            other.y.raw != 0,
            other.z.raw != 0,
        ensures
            r.wf(),
            r.x.raw == sat(div_floor(self.x.raw * SCALE, other.x.raw as int)),
            r.y.raw == sat(div_floor(self.y.raw * SCALE, other.y.raw as int)),
            r.z.raw == sat(div_floor(self.z.raw * SCALE, other.z.raw as int)),
    {
        Vector { x: self.x.div(other.x), y: self.y.div(other.y), z: self.z.div(other.z) }
    }

    /// The vector scaled by `t`.
    pub fn scale(self, t: Fx) -> (r: Vector)
        requires
            self.wf(),
            t.wf(),
        ensures
            r.wf(),
            r.x.raw == scale_comp(t.raw as int, self.x.raw as int),
            r.y.raw == scale_comp(t.raw as int, self.y.raw as int),
            r.z.raw == scale_comp(t.raw as int, self.z.raw as int),
            r == scale_spec(t.raw as int, self),
    {
        Vector { x: t.mul(self.x), y: t.mul(self.y), z: t.mul(self.z) }
    }

    /// The vector divided by the scalar `t`.
    pub fn div_scalar(self, t: Fx) -> (r: Vector)
        requires
            self.wf(),
            t.wf(),
            t.raw != 0,
        ensures
            r.wf(),
            r.x.raw == sat(div_floor(self.x.raw * SCALE, t.raw as int)),
            r.y.raw == sat(div_floor(self.y.raw * SCALE, t.raw as int)),
            r.z.raw == sat(div_floor(self.z.raw * SCALE, t.raw as int)),
            r == div_scalar_spec(self, t.raw as int),
    {
        Vector { x: self.x.div(t), y: self.y.div(t), z: self.z.div(t) }
    }

    /// The squared length, as a saturated scalar.
    pub fn squared_length(&self) -> (r: Fx)
        requires
            self.wf(),
        ensures
            r.wf(),
            r.raw == sat(div_floor(norm2_wide(*self), SCALE as int)),
    {
        let n2 = norm2_exec(self);
        clamp_fx_wide(floor_div_wide(n2, SCALE as i128))
    }

    /// The length, as a saturated scalar.
    pub fn length(&self) -> (r: Fx)
        requires
            self.wf(),
        ensures
            r.wf(),
            r.raw == sat(len_wide(*self)),
    {
        let n2 = norm2_exec(self);
        proof {
            lemma_norm2_nonneg(*self);
        }
        let root = isqrt(n2 as u128);
        proof {
            crate::fixed::lemma_sqrt_floor_bounds(n2 as nat);
            assert((root as int) * (root as int) <= n2 as int ==> root as int
                <= 0x40000000) by (nonlinear_arith)
                requires
                    n2 as int <= 0x1000000000000000,
                    root >= 0;
        }
        clamp_fx_wide(root as i128)
    }

    /// The vector rescaled to unit length.
    ///
    /// A zero vector has no direction; callers must not normalize one.
    pub fn unit_vector(&self) -> (r: Vector)
        requires
            self.wf(),
            norm2_wide(*self) > 0,
        ensures
            r.wf(),
            r.x.raw == sat(div_floor(self.x.raw * SCALE, len_wide(*self))),
            r.y.raw == sat(div_floor(self.y.raw * SCALE, len_wide(*self))),
            r.z.raw == sat(div_floor(self.z.raw * SCALE, len_wide(*self))),
            r == unit_spec(*self),
    {
        let n2 = norm2_exec(self);
        let root = isqrt(n2 as u128);
        proof {
            crate::fixed::lemma_sqrt_floor_bounds(n2 as nat);
            assert((root as int) * (root as int) <= n2 as int && (n2 as int) < ((root as int) + 1)
                * ((root as int) + 1) && n2 > 0 ==> 1 <= root as int
                <= 0x40000000) by (nonlinear_arith)
                requires
                    n2 as int <= 0x1000000000000000,
                    root >= 0;
        }
        let len = root as i128;
        Vector {
            x: clamp_fx_wide(floor_div_wide((self.x.raw as i128) * (SCALE as i128), len)),
            y: clamp_fx_wide(floor_div_wide((self.y.raw as i128) * (SCALE as i128), len)),
            z: clamp_fx_wide(floor_div_wide((self.z.raw as i128) * (SCALE as i128), len)),
        }
    }

    /// Rescale this vector in place to unit length.
    pub fn make_unit_vector(&mut self)
        requires
            old(self).wf(),
            norm2_wide(*old(self)) > 0,
        ensures
            final(self).wf(),
            *final(self) == unit_spec(*old(self)),
    {
        *self = self.unit_vector();
    }

    /// The normalized vector, with the zero vector passed through unchanged.
    ///
    /// The integrator and the materials use this total form: a degenerate
    /// scattered ray keeps a zero direction instead of being undefined.
    pub fn unit_or_zero(&self) -> (r: Vector)
        requires
            self.wf(),
        ensures
            r.wf(),
            r == unit_spec(*self),
    {
        let n2 = norm2_exec(self);
        if n2 > 0 {
            self.unit_vector()
        } else {
            Vector::zero()
        }
    }

    /// The dot product, as a saturated scalar.
    pub fn dot(lhs: &Vector, rhs: &Vector) -> (r: Fx)
        requires
            lhs.wf(),
            rhs.wf(),
        ensures
            r.wf(),
            r.raw == sat(div_floor(dot_wide(*lhs, *rhs), SCALE as int)),
    {
        let w = dot_exec(lhs, rhs);
        clamp_fx_wide(floor_div_wide(w, SCALE as i128))
    }

    /// The cross product, each component rounded once and saturated.
    pub fn cross(lhs: &Vector, rhs: &Vector) -> (r: Vector)
        requires
            lhs.wf(),
            rhs.wf(),
        ensures
            r.wf(),
            r.x.raw == sat(div_floor(cross_x_wide(*lhs, *rhs), SCALE as int)),
            r.y.raw == sat(div_floor(cross_y_wide(*lhs, *rhs), SCALE as int)),
            r.z.raw == sat(div_floor(cross_z_wide(*lhs, *rhs), SCALE as int)),
            r == cross_spec(*lhs, *rhs),
    {
        let cx = mul_raw(lhs.y.raw, rhs.z.raw) - mul_raw(lhs.z.raw, rhs.y.raw);
        let cy = mul_raw(lhs.z.raw, rhs.x.raw) - mul_raw(lhs.x.raw, rhs.z.raw);
        let cz = mul_raw(lhs.x.raw, rhs.y.raw) - mul_raw(lhs.y.raw, rhs.x.raw);
        Vector {
            x: clamp_fx_wide(floor_div_wide(cx, SCALE as i128)),
            y: clamp_fx_wide(floor_div_wide(cy, SCALE as i128)),
            z: clamp_fx_wide(floor_div_wide(cz, SCALE as i128)),
        }
    }
}

/// Exact product of two in-range raw values, in a wide integer.
fn mul_raw(p: i64, q: i64) -> (w: i128)
    requires
        in_range(p as int),
        in_range(q as int),
    ensures
        w == p * q,
        -0x100000000000000 <= w <= 0x100000000000000,
{
    proof {
        assert(-0x100000000000000 <= (p as int) * (q as int)
            <= 0x100000000000000) by (nonlinear_arith)
            requires
                in_range(p as int),
                in_range(q as int);
    }
    (p as i128) * (q as i128)
}

/// Exact dot product of the raw representations, in a wide integer.
pub fn dot_exec(lhs: &Vector, rhs: &Vector) -> (w: i128)
    requires
        lhs.wf(),
        rhs.wf(),
    ensures
        w == dot_wide(*lhs, *rhs),
        -0x300000000000000 <= w <= 0x300000000000000,
{
    mul_raw(lhs.x.raw, rhs.x.raw) + mul_raw(lhs.y.raw, rhs.y.raw) + mul_raw(lhs.z.raw, rhs.z.raw)
}

/// Exact squared raw length, in a wide integer.
pub fn norm2_exec(v: &Vector) -> (w: i128)
    requires
        v.wf(),
    ensures
        w == norm2_wide(*v),
        0 <= w <= 0x300000000000000,
{
    proof {
        lemma_norm2_nonneg(*v);
    }
    dot_exec(v, v)
}

/// The squared length of any vector is non-negative.
pub proof fn lemma_norm2_nonneg(v: Vector)
    ensures
        norm2_wide(v) >= 0,
{
    assert(v.x.raw * v.x.raw + v.y.raw * v.y.raw + v.z.raw * v.z.raw >= 0) by (nonlinear_arith);
}

/// A wide raw value clamped into a scalar.
fn clamp_fx_wide(raw: i128) -> (r: Fx)
    ensures
        r.wf(),
        r.raw == sat(raw as int),
{
    if raw < -(RAW_BOUND as i128) {
        Fx::from_raw(-RAW_BOUND)
    } else if raw > RAW_BOUND as i128 {
        Fx::from_raw(RAW_BOUND)
    } else {
        Fx::from_raw(raw as i64)
    }
}

/// Each component of a normalized vector lies in `[-1, 1]`: a coordinate
/// never exceeds the length it contributes to.
pub proof fn lemma_unit_bounds(v: Vector)
    requires
        v.wf(),
    ensures
        -SCALE <= unit_spec(v).x.raw <= SCALE,
        -SCALE <= unit_spec(v).y.raw <= SCALE,
        -SCALE <= unit_spec(v).z.raw <= SCALE,
{
    lemma_norm2_nonneg(v);
    if norm2_wide(v) > 0 {
        let n2 = norm2_wide(v) as nat;
        crate::fixed::lemma_sqrt_floor_bounds(n2);
        let len = sqrt_floor(n2) as int;
        assert(len >= 1) by (nonlinear_arith)
            requires
                (len + 1) * (len + 1) > n2,
                n2 >= 1,
                len >= 0;
        lemma_unit_comp(v.x.raw as int, v.y.raw as int, v.z.raw as int, len, n2 as int);
        lemma_unit_comp(v.y.raw as int, v.x.raw as int, v.z.raw as int, len, n2 as int);
        lemma_unit_comp(v.z.raw as int, v.x.raw as int, v.y.raw as int, len, n2 as int);
        assert(norm2_wide(v) == v.x.raw * v.x.raw + v.y.raw * v.y.raw + v.z.raw * v.z.raw);
    }
}

/// A coordinate `c` of a vector of squared length `n2` and rounded length
/// `len` divides out to at most one: `|c| <= len`, so `c / len` lies in
/// `[-1, 1]`.
proof fn lemma_unit_comp(c: int, o1: int, o2: int, len: int, n2: int)
    requires
        n2 == c * c + o1 * o1 + o2 * o2,
        len >= 1,
        len * len <= n2,
        n2 < (len + 1) * (len + 1),
    ensures
        -SCALE <= div_floor(c * SCALE, len) <= SCALE,
        sat(div_floor(c * SCALE, len)) == div_floor(c * SCALE, len),
        -SCALE <= sat(div_floor(c * SCALE, len)) <= SCALE,
{
    assert(-len <= c <= len) by (nonlinear_arith)
        requires
            n2 == c * c + o1 * o1 + o2 * o2,
            n2 < (len + 1) * (len + 1),
            len >= 0;
    assert(c * SCALE <= len * SCALE && -(len * SCALE) <= c * SCALE) by (nonlinear_arith)
        requires
            -len <= c <= len,
            SCALE == 65536;
    vstd::arithmetic::div_mod::lemma_div_is_ordered(c * SCALE, len * SCALE, len);
    vstd::arithmetic::div_mod::lemma_div_is_ordered(-(len * SCALE), c * SCALE, len);
    assert(len * SCALE == len * (SCALE as int)) by (nonlinear_arith);
    vstd::arithmetic::div_mod::lemma_div_multiples_vanish(SCALE as int, len);
    vstd::arithmetic::div_mod::lemma_div_multiples_vanish(-(SCALE as int), len);
    assert(len * (-(SCALE as int)) == -(len * SCALE)) by (nonlinear_arith);
}

/// Orthogonality of the executable cross product on whole-valued vectors:
/// when every coordinate is a whole number of moderate size, the fixed
/// point arithmetic rounds nothing away, and the dot product of the
/// computed cross product with either factor is exactly zero.
pub proof fn lemma_cross_orthogonal_exact(a: Vector, b: Vector)
    requires
        a.x.raw % SCALE == 0 && a.y.raw % SCALE == 0 && a.z.raw % SCALE == 0,
        b.x.raw % SCALE == 0 && b.y.raw % SCALE == 0 && b.z.raw % SCALE == 0,
        -40 * SCALE <= a.x.raw <= 40 * SCALE && -40 * SCALE <= a.y.raw <= 40 * SCALE && -40
            * SCALE <= a.z.raw <= 40 * SCALE,
        -40 * SCALE <= b.x.raw <= 40 * SCALE && -40 * SCALE <= b.y.raw <= 40 * SCALE && -40
            * SCALE <= b.z.raw <= 40 * SCALE,
    ensures
        sat(div_floor(dot_wide(cross_spec(a, b), a), SCALE as int)) == 0,
        sat(div_floor(dot_wide(cross_spec(a, b), b), SCALE as int)) == 0,
{
    let s = SCALE as int;
    let ja = Vector {
        x: (Fx { raw: (a.x.raw / SCALE) as i64 }),
        y: (Fx { raw: (a.y.raw / SCALE) as i64 }),
        z: (Fx { raw: (a.z.raw / SCALE) as i64 }),
    };
    let jb = Vector {
        x: (Fx { raw: (b.x.raw / SCALE) as i64 }),
        y: (Fx { raw: (b.y.raw / SCALE) as i64 }),
        z: (Fx { raw: (b.z.raw / SCALE) as i64 }),
    };
    lemma_whole_quotient(a.x.raw as int, ja.x.raw as int);
    lemma_whole_quotient(a.y.raw as int, ja.y.raw as int);
    lemma_whole_quotient(a.z.raw as int, ja.z.raw as int);
    lemma_whole_quotient(b.x.raw as int, jb.x.raw as int);
    lemma_whole_quotient(b.y.raw as int, jb.y.raw as int);
    lemma_whole_quotient(b.z.raw as int, jb.z.raw as int);

    lemma_cross_comp_exact(a.y.raw as int, a.z.raw as int, b.y.raw as int, b.z.raw as int, ja.y.raw as int, ja.z.raw as int, jb.y.raw as int, jb.z.raw as int);
    lemma_cross_comp_exact(a.z.raw as int, a.x.raw as int, b.z.raw as int, b.x.raw as int, ja.z.raw as int, ja.x.raw as int, jb.z.raw as int, jb.x.raw as int);
    lemma_cross_comp_exact(a.x.raw as int, a.y.raw as int, b.x.raw as int, b.y.raw as int, ja.x.raw as int, ja.y.raw as int, jb.x.raw as int, jb.y.raw as int);
    let c = cross_spec(a, b);
    assert(c.x.raw == s * cross_x_wide(ja, jb));
    assert(c.y.raw == s * cross_y_wide(ja, jb));
    assert(c.z.raw == s * cross_z_wide(ja, jb));

    lemma_cross_orthogonal(ja, jb);
    lemma_dot_scaled_zero(
        cross_x_wide(ja, jb),
        cross_y_wide(ja, jb),
        cross_z_wide(ja, jb),
        ja.x.raw as int,
        ja.y.raw as int,
        ja.z.raw as int,
    );
    assert(dot_wide(c, a) == 0);
    lemma_dot_scaled_zero(
        cross_x_wide(ja, jb),
        cross_y_wide(ja, jb),
        cross_z_wide(ja, jb),
        jb.x.raw as int,
        jb.y.raw as int,
        jb.z.raw as int,
    );
    assert(dot_wide(c, b) == 0);
    assert(div_floor(0, s) == 0);
}

/// A raw value divisible by the scale is the scale times its quotient.
proof fn lemma_whole_quotient(raw: int, j: int)
    requires
        raw % (SCALE as int) == 0,
        j == raw / (SCALE as int),
    ensures
        raw == SCALE * j,
{
    vstd::arithmetic::div_mod::lemma_fundamental_div_mod(raw, SCALE as int);
    assert((SCALE as int) * j == SCALE * j);
}

/// A cross-product component of whole-valued coordinates divides exactly
/// by the scale and stays far from saturation.
proof fn lemma_cross_comp_exact(
    a1: int,
    a2: int,
    b1: int,
    b2: int,
    j1: int,
    j2: int,
    k1: int,
    k2: int,
)
    requires
        a1 == SCALE * j1,
        a2 == SCALE * j2,
        b1 == SCALE * k1,
        b2 == SCALE * k2,
        -40 * SCALE <= a1 <= 40 * SCALE,
        -40 * SCALE <= a2 <= 40 * SCALE,
        -40 * SCALE <= b1 <= 40 * SCALE,
        -40 * SCALE <= b2 <= 40 * SCALE,
    ensures
        sat(div_floor(a1 * b2 - a2 * b1, SCALE as int)) == SCALE * (j1 * k2 - j2 * k1),
{
    let s = SCALE as int;
    assert(-40 <= j1 <= 40 && -40 <= j2 <= 40 && -40 <= k1 <= 40 && -40
        <= k2 <= 40) by (nonlinear_arith)
        requires
            a1 == s * j1,
            a2 == s * j2,
            b1 == s * k1,
            b2 == s * k2,
            -40 * s <= a1 <= 40 * s,
            -40 * s <= a2 <= 40 * s,
            -40 * s <= b1 <= 40 * s,
            -40 * s <= b2 <= 40 * s,
            s == 65536;
    let w = j1 * k2 - j2 * k1;
    assert(-3200 <= w <= 3200) by (nonlinear_arith)
        requires
            w == j1 * k2 - j2 * k1,
            -40 <= j1 <= 40,
            -40 <= j2 <= 40,
            -40 <= k1 <= 40,
            -40 <= k2 <= 40;
    assert(a1 * b2 - a2 * b1 == s * (s * w) + 0) by (nonlinear_arith)
        requires
            a1 == s * j1,
            a2 == s * j2,
            b1 == s * k1,
            b2 == s * k2,
            w == j1 * k2 - j2 * k1;
    vstd::arithmetic::div_mod::lemma_fundamental_div_mod_converse(a1 * b2 - a2 * b1, s, s * w, 0);
    assert(in_range(s * w)) by (nonlinear_arith)
        requires
            -3200 <= w <= 3200,
            s == 65536;
}

/// A dot product of scaled components with a vector orthogonal to them is
/// zero.
proof fn lemma_dot_scaled_zero(wx: int, wy: int, wz: int, jx: int, jy: int, jz: int)
    requires
        wx * jx + wy * jy + wz * jz == 0,
    ensures
        (SCALE * wx) * (SCALE * jx) + (SCALE * wy) * (SCALE * jy) + (SCALE * wz) * (SCALE * jz)
            == 0,
{
    let s = SCALE as int;
    assert((s * wx) * (s * jx) == (s * s) * (wx * jx)) by (nonlinear_arith);
    assert((s * wy) * (s * jy) == (s * s) * (wy * jy)) by (nonlinear_arith);
    assert((s * wz) * (s * jz) == (s * s) * (wz * jz)) by (nonlinear_arith);
    assert((s * s) * (wx * jx) + (s * s) * (wy * jy) + (s * s) * (wz * jz) == (s * s) * (wx * jx
        + wy * jy + wz * jz)) by (nonlinear_arith);
    assert((s * s) * (wx * jx + wy * jy + wz * jz) == 0) by (nonlinear_arith)
        requires
            wx * jx + wy * jy + wz * jz == 0;
}

/// A normalized vector has length one, within the rounding tolerance of
/// the representation: its exact squared raw length differs from
/// `SCALE^2` (the square of one) by at most `8 * SCALE + 3` raw units — a
/// relative error below `2^-12`.
///
/// Vectors shorter than one unit are excluded: for them a single rounding
/// step can be a large part of the value (the vector with raw coordinates
/// `(1, 1, 0)` has rounded length one raw unit and normalizes to raw
/// `(SCALE, SCALE, 0)`, of squared length two).
pub proof fn lemma_unit_length(v: Vector)
    requires
        v.wf(),
        norm2_wide(v) >= SCALE * SCALE,
    ensures
        SCALE * SCALE - 6 * SCALE <= norm2_wide(unit_spec(v)),
        norm2_wide(unit_spec(v)) <= SCALE * SCALE + 8 * SCALE + 3,
{
    let s = SCALE as int;
    let n2 = norm2_wide(v);
    let x = v.x.raw as int;
    let y = v.y.raw as int;
    let z = v.z.raw as int;
    crate::fixed::lemma_sqrt_floor_bounds(n2 as nat);
    let len = sqrt_floor(n2 as nat) as int;
    assert(len >= s) by (nonlinear_arith)
        requires
            (len + 1) * (len + 1) > n2,
            n2 >= s * s,
            len >= 0,
            s > 0;

    // Components never exceed the rounded length in magnitude.
    assert(-len <= x <= len && -len <= y <= len && -len <= z <= len) by (nonlinear_arith)
        requires
            n2 == x * x + y * y + z * z,
            n2 < (len + 1) * (len + 1),
            len >= 0;

    // The unit components with their division remainders.
    vstd::arithmetic::div_mod::lemma_fundamental_div_mod(x * s, len);
    vstd::arithmetic::div_mod::lemma_fundamental_div_mod(y * s, len);
    vstd::arithmetic::div_mod::lemma_fundamental_div_mod(z * s, len);
    vstd::arithmetic::div_mod::lemma_mod_bound(x * s, len);
    vstd::arithmetic::div_mod::lemma_mod_bound(y * s, len);
    vstd::arithmetic::div_mod::lemma_mod_bound(z * s, len);
    let ux = (x * s) / len;
    let uy = (y * s) / len;
    let uz = (z * s) / len;
    let ex = (x * s) % len;
    let ey = (y * s) % len;
    let ez = (z * s) % len;

    // The unit vector holds exactly these quotients: no clamping happens.
    lemma_unit_comp(x, y, z, len, n2);
    lemma_unit_comp(y, x, z, len, n2);
    lemma_unit_comp(z, x, y, len, n2);
    let u = unit_spec(v);
    assert(u.x.raw == ux && u.y.raw == uy && u.z.raw == uz);
    let q = ux * ux + uy * uy + uz * uz;
    assert(norm2_wide(u) == q);

    // Square each exact decomposition `x s == len ux + ex`.
    lemma_square_decomposition(len, ux, ex, x * s);
    lemma_square_decomposition(len, uy, ey, y * s);
    lemma_square_decomposition(len, uz, ez, z * s);
    assert((x * s) * (x * s) == (x * x) * (s * s)) by (nonlinear_arith);
    assert((y * s) * (y * s) == (y * y) * (s * s)) by (nonlinear_arith);
    assert((z * s) * (z * s) == (z * z) * (s * s)) by (nonlinear_arith);
    assert((len * len) * (ux * ux) == (x * x) * (s * s) - 2 * ((x * s) * ex) + ex * ex);
    assert((len * len) * (uy * uy) == (y * y) * (s * s) - 2 * ((y * s) * ey) + ey * ey);
    assert((len * len) * (uz * uz) == (z * z) * (s * s) - 2 * ((z * s) * ez) + ez * ez);
    assert((len * len) * q == (len * len) * (ux * ux) + (len * len) * (uy * uy) + (len * len) * (uz
        * uz)) by (nonlinear_arith)
        requires
            q == ux * ux + uy * uy + uz * uz;
    assert((x * x) * (s * s) + (y * y) * (s * s) + (z * z) * (s * s) == n2 * (s
        * s)) by (nonlinear_arith)
        requires
            n2 == x * x + y * y + z * z;

    // Bound the cross terms and the squared remainders.
    assert(-(s * (len * len)) <= (x * s) * ex <= s * (len * len)) by (nonlinear_arith)
        requires
            -len <= x <= len,
            0 <= ex < len,
            s > 0,
            len > 0;
    assert(-(s * (len * len)) <= (y * s) * ey <= s * (len * len)) by (nonlinear_arith)
        requires
            -len <= y <= len,
            0 <= ey < len,
            s > 0,
            len > 0;
    assert(-(s * (len * len)) <= (z * s) * ez <= s * (len * len)) by (nonlinear_arith)
        requires
            -len <= z <= len,
            0 <= ez < len,
            s > 0,
            len > 0;
    assert(0 <= ex * ex <= len * len && 0 <= ey * ey <= len * len && 0 <= ez * ez <= len
        * len) by (nonlinear_arith)
        requires
            0 <= ex < len,
            0 <= ey < len,
            0 <= ez < len;

    // Lower bound: n2 >= len^2, so q >= SCALE^2 - 6 SCALE.
    assert(n2 * (s * s) >= (len * len) * (s * s)) by (nonlinear_arith)
        requires
            n2 >= len * len,
            s > 0;
    assert((len * len) * q >= (len * len) * (s * s) - 6 * (s * (len * len)));
    assert((len * len) * (s * s - 6 * s) == (len * len) * (s * s) - 6 * (s * (len
        * len))) by (nonlinear_arith);
    assert(q >= s * s - 6 * s) by (nonlinear_arith)
        requires
            (len * len) * q >= (len * len) * (s * s - 6 * s),
            len > 0;

    // Upper bound: n2 <= (len+1)^2 - 1 and SCALE <= len, so
    // q <= SCALE^2 + 8 SCALE + 3.
    assert(n2 * (s * s) <= ((len * len) + 2 * len) * (s * s)) by (nonlinear_arith)
        requires
            n2 < (len + 1) * (len + 1),
            s > 0;
    assert(((len * len) + 2 * len) * (s * s) == (len * len) * (s * s) + 2 * (len * (s
        * s))) by (nonlinear_arith);
    assert(2 * (len * (s * s)) <= 2 * (s * (len * len))) by (nonlinear_arith)
        requires
            0 < s <= len;
    assert((len * len) * q <= (len * len) * (s * s) + 8 * (s * (len * len)) + 3 * (len * len));
    assert((len * len) * (s * s + 8 * s + 3) == (len * len) * (s * s) + 8 * (s * (len * len)) + 3
        * (len * len)) by (nonlinear_arith);
    assert(q <= s * s + 8 * s + 3) by (nonlinear_arith)
        requires
            (len * len) * q <= (len * len) * (s * s + 8 * s + 3),
            len > 0;
}

/// Squaring the exact division decomposition `w == len u + e`:
/// `(len u)^2 == w^2 - 2 w e + e^2`.
proof fn lemma_square_decomposition(lenv: int, u: int, e: int, w: int)
    requires
        w == lenv * u + e,
    ensures
        (lenv * lenv) * (u * u) == w * w - 2 * (w * e) + e * e,
{
    assert((lenv * u) * (lenv * u) == (lenv * lenv) * (u * u)) by (nonlinear_arith);
    assert(lenv * u == w - e);
    assert((w - e) * (w - e) == w * w - 2 * (w * e) + e * e) by (nonlinear_arith);
}

/// Orthogonality of the cross product: for all vectors `a` and `b`, the
/// exact cross product is perpendicular to both factors — its exact dot
/// product with each of them is zero.
pub proof fn lemma_cross_orthogonal(a: Vector, b: Vector)
    ensures
        cross_x_wide(a, b) * a.x.raw + cross_y_wide(a, b) * a.y.raw + cross_z_wide(a, b) * a.z.raw
            == 0,
        cross_x_wide(a, b) * b.x.raw + cross_y_wide(a, b) * b.y.raw + cross_z_wide(a, b) * b.z.raw
            == 0,
{
    let ax = a.x.raw as int;
    let ay = a.y.raw as int;
    let az = a.z.raw as int;
    let bx = b.x.raw as int;
    let by = b.y.raw as int;
    let bz = b.z.raw as int;
    assert((ay * bz - az * by) * ax + (az * bx - ax * bz) * ay + (ax * by - ay * bx) * az
        == 0) by (nonlinear_arith);
    assert((ay * bz - az * by) * bx + (az * bx - ax * bz) * by + (ax * by - ay * bx) * bz
        == 0) by (nonlinear_arith);
}

} // verus!
