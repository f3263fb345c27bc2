//! Ray-sphere intersection.
//!
//! The quadratic `a t^2 + 2 b t + c = 0` is evaluated exactly in wide
//! integers (raw-squared units); only the square root of the discriminant
//! and the final division by `a` round, each exactly once, toward negative
//! infinity.  A negative radius models a hollow shell: the normal flips
//! with the radius's sign through the division.

use vstd::prelude::*;

verus! {

use crate::fixed::Fx;
use crate::fixed::SCALE;
use crate::fixed::in_range;
use crate::fixed::sat;
use crate::fixed::RAW_BOUND;
use crate::fixed::div_floor;
use crate::fixed::sqrt_floor;
use crate::fixed::floor_div_wide;
use crate::fixed::isqrt;
use crate::fixed::lemma_sqrt_floor_bounds;
use crate::ray::Ray;
use crate::ray::point_at_comp;
use crate::vector::Vector;
use crate::vector::norm2_wide;
use crate::vector::norm2_exec;
use crate::vector::sub_spec;
use crate::vector::div_scalar_spec;
use crate::materials::Material;
use crate::objects::HitRecord;

/// The exact half-coefficient `b = oc . d` of the sphere quadratic, where
/// `oc` runs from the center to the ray origin (squared raw units).
pub open spec fn b_wide(center: Vector, r: Ray) -> int {
    (r.origin.x.raw - center.x.raw) * r.direction.x.raw + (r.origin.y.raw - center.y.raw)
        * r.direction.y.raw + (r.origin.z.raw - center.z.raw) * r.direction.z.raw
}

/// The exact constant coefficient `c = oc . oc - radius^2` (squared raw
/// units).
pub open spec fn c_wide(center: Vector, radius: Fx, r: Ray) -> int {
    (r.origin.x.raw - center.x.raw) * (r.origin.x.raw - center.x.raw) + (r.origin.y.raw
        - center.y.raw) * (r.origin.y.raw - center.y.raw) + (r.origin.z.raw - center.z.raw)
        * (r.origin.z.raw - center.z.raw) - radius.raw * radius.raw
}

/// The exact discriminant `b^2 - a c` of the sphere quadratic.
pub open spec fn disc_wide(center: Vector, radius: Fx, r: Ray) -> int {
    b_wide(center, r) * b_wide(center, r) - norm2_wide(r.direction) * c_wide(center, radius, r)
}

/// The nearer root `(-b - sqrt(disc)) / a`, in raw parameter units.
pub open spec fn root_near(center: Vector, radius: Fx, r: Ray) -> int {
    div_floor(
        (-b_wide(center, r) - sqrt_floor(disc_wide(center, radius, r) as nat)) * SCALE,
        norm2_wide(r.direction),
    )
}

/// The farther root `(-b + sqrt(disc)) / a`, in raw parameter units.
pub open spec fn root_far(center: Vector, radius: Fx, r: Ray) -> int {
    div_floor(
        (-b_wide(center, r) + sqrt_floor(disc_wide(center, radius, r) as nat)) * SCALE,
        norm2_wide(r.direction),
    )
}

/// The hit record at parameter `t_raw`: the point along the ray there, and
/// the normal `(p - center) / radius`.
pub open spec fn record_at(center: Vector, radius: Fx, material: Material, r: Ray, t_raw: int)
    -> HitRecord {
    let p = Vector {
        x: (Fx { raw: point_at_comp(r.origin.x.raw as int, r.direction.x.raw as int, t_raw) as i64 }),
        y: (Fx { raw: point_at_comp(r.origin.y.raw as int, r.direction.y.raw as int, t_raw) as i64 }),
        z: (Fx { raw: point_at_comp(r.origin.z.raw as int, r.direction.z.raw as int, t_raw) as i64 }),
    };
    HitRecord {
        t: (Fx { raw: t_raw as i64 }),
        p,
        normal: div_scalar_spec(sub_spec(p, center), radius.raw as int),
        material,
    }
}

/// What the sphere intersection returns: the first root strictly inside
/// `(t_min, t_max)`, near root first, when the discriminant is positive;
/// nothing otherwise.  A degenerate ray (zero direction) hits nothing.
pub open spec fn hit_spec(
    center: Vector,
    radius: Fx,
    material: Material,
    r: Ray,
    t_min: int,
    t_max: int,
) -> Option<HitRecord> {
    let a = norm2_wide(r.direction);
    let disc = disc_wide(center, radius, r);
    if a > 0 && disc > 0 {
        let near = root_near(center, radius, r);
        if t_min < near && near < t_max {
            Option::Some(record_at(center, radius, material, r, near))
        } else {
            let far = root_far(center, radius, r);
            if t_min < far && far < t_max {
                Option::Some(record_at(center, radius, material, r, far))
            } else {
                Option::None
            }
        }
    } else {
        Option::None
    }
}

/// Exact product of two raw-sized values, in a wide integer.
fn mul_oc(p: i64, q: i64) -> (w: i128)
    requires
        -0x20000000 <= p <= 0x20000000,
        -0x20000000 <= q <= 0x20000000,
    ensures
        w == p * q,
        -0x400000000000000 <= w <= 0x400000000000000,
{
    proof {
        assert(-0x400000000000000 <= (p as int) * (q as int)
            <= 0x400000000000000) by (nonlinear_arith)
            requires
                -0x20000000 <= p <= 0x20000000,
                -0x20000000 <= q <= 0x20000000;
    }
    (p as i128) * (q as i128)
}

/// Exact product of two quadratic coefficients, in a wide integer.
fn mul_co(p: i128, q: i128) -> (w: i128)
    requires
        -0x1000000000000000 <= p <= 0x1000000000000000,
        -0x1000000000000000 <= q <= 0x1000000000000000,
    ensures
        w == p * q,
        -0x1000000000000000000000000000000 <= w <= 0x1000000000000000000000000000000,
{
    proof {
        assert(-0x1000000000000000000000000000000 <= (p as int) * (q as int)
            <= 0x1000000000000000000000000000000) by (nonlinear_arith)
            requires
                -0x1000000000000000 <= p <= 0x1000000000000000,
                -0x1000000000000000 <= q <= 0x1000000000000000;
    }
    p * q
}

/// Intersect a ray with a sphere over the open parameter interval
/// `(t_min, t_max)`.
pub fn hit(
    center: Vector,
    radius: Fx,
    material: Material,
    r: &Ray,
    t_min: Fx,
    t_max: Fx,
) -> (res: Option<HitRecord>)
    requires
        center.wf(),
        radius.wf(),
        radius.raw != 0,
        material.wf(),
        r.wf(),
        t_min.wf(),
        t_max.wf(),
    ensures
        res == hit_spec(center, radius, material, *r, t_min.raw as int, t_max.raw as int),
        res matches Some(h) ==> h.wf() && t_min.raw < h.t.raw < t_max.raw && h.material
            == material,
{
    let a: i128 = norm2_exec(&r.direction);

    let ocx = r.origin.x.raw - center.x.raw;
    let ocy = r.origin.y.raw - center.y.raw;
    let ocz = r.origin.z.raw - center.z.raw;

    let b: i128 = mul_oc(ocx, r.direction.x.raw) + mul_oc(ocy, r.direction.y.raw) + mul_oc(
        ocz,
        r.direction.z.raw,
    );
    let c: i128 = mul_oc(ocx, ocx) + mul_oc(ocy, ocy) + mul_oc(ocz, ocz) - mul_oc(
        radius.raw,
        radius.raw,
    );

    let discriminant = mul_co(b, b) - mul_co(a, c);
    if a <= 0 || discriminant <= 0 {
        return None;
    }

    let root = isqrt(discriminant as u128);
    proof {
        lemma_sqrt_floor_bounds(discriminant as nat);
        assert((root as int) * (root as int) <= discriminant as int ==> root as int
            <= 0x2000000000000000) by (nonlinear_arith)
            requires
                discriminant as int <= 0x2000000000000000000000000000000,
                root >= 0;
    }
    let s = root as i128;

    let near = floor_div_wide((-b - s) * (SCALE as i128), a);
    if (t_min.raw as i128) < near && near < (t_max.raw as i128) {
        return Some(make_record(center, radius, material, r, near as i64));
    }
    let far = floor_div_wide((-b + s) * (SCALE as i128), a);
    if (t_min.raw as i128) < far && far < (t_max.raw as i128) {
        return Some(make_record(center, radius, material, r, far as i64));
    }
    None
}

/// A ray whose closest approach to the center stays outside the sphere
/// misses.  The squared distance from the center to the ray's line exceeds
/// the squared radius exactly when `(oc . d)^2 < |d|^2 (|oc|^2 - r^2)`,
/// which makes the discriminant negative, so the intersection is empty.
pub proof fn lemma_miss_when_apart(
    center: Vector,
    radius: Fx,
    material: Material,
    r: Ray,
    t_min: int,
    t_max: int,
)
    requires
        b_wide(center, r) * b_wide(center, r) < norm2_wide(r.direction) * c_wide(
            center,
            radius,
            r,
        ),
    ensures
        hit_spec(center, radius, material, r, t_min, t_max) is None,
{
}

/// A ray fired from outside, straight at the center, hits the sphere on
/// the near side at parameter `distance - radius`, and the surface normal
/// there is exactly anti-parallel to the ray's direction.
///
/// The hypotheses pin the configuration down exactly in the fixed-point
/// model: the direction is exactly unit length; the origin sits exactly
/// `m / SCALE` units behind the center along the direction; the radius
/// offset `radius * d / SCALE` is exact in each coordinate; and the hit
/// point and parameter stay in the representable range.
pub proof fn lemma_head_on_hit(
    center: Vector,
    radius: Fx,
    material: Material,
    r: Ray,
    t_min: int,
    t_max: int,
    m: int,
)
    requires
        norm2_wide(r.direction) == SCALE * SCALE,
        SCALE * (r.origin.x.raw - center.x.raw) == -(m * r.direction.x.raw),
        SCALE * (r.origin.y.raw - center.y.raw) == -(m * r.direction.y.raw),
        SCALE * (r.origin.z.raw - center.z.raw) == -(m * r.direction.z.raw),
        (radius.raw * r.direction.x.raw) % (SCALE as int) == 0,
        (radius.raw * r.direction.y.raw) % (SCALE as int) == 0,
        (radius.raw * r.direction.z.raw) % (SCALE as int) == 0,
        0 < radius.raw < m,
        -(RAW_BOUND as int) <= t_min < m - radius.raw < t_max <= RAW_BOUND as int,
        in_range(center.x.raw - (radius.raw * r.direction.x.raw) / (SCALE as int)),
        in_range(center.y.raw - (radius.raw * r.direction.y.raw) / (SCALE as int)),
        in_range(center.z.raw - (radius.raw * r.direction.z.raw) / (SCALE as int)),
        r.wf(),
        center.wf(),
        radius.wf(),
    ensures
        hit_spec(center, radius, material, r, t_min, t_max) matches Some(h) && h.t.raw == m
            - radius.raw && h.normal == crate::vector::neg_spec(r.direction),
{
    let s = SCALE as int;
    let dx = r.direction.x.raw as int;
    let dy = r.direction.y.raw as int;
    let dz = r.direction.z.raw as int;
    let ocx = r.origin.x.raw - center.x.raw;
    let ocy = r.origin.y.raw - center.y.raw;
    let ocz = r.origin.z.raw - center.z.raw;
    let rad = radius.raw as int;
    let a = norm2_wide(r.direction);
    let b = b_wide(center, r);
    let c = c_wide(center, radius, r);

    // Direction components are at most one in magnitude.
    assert(-s <= dx <= s && -s <= dy <= s && -s <= dz <= s) by (nonlinear_arith)
        requires
            dx * dx + dy * dy + dz * dz == s * s,
            s > 0;

    // b == -m * SCALE: multiply the aim hypotheses into the dot product,
    // term by term.
    assert(s * (ocx * dx) == -(m * (dx * dx))) by (nonlinear_arith)
        requires
            s * ocx == -(m * dx);
    assert(s * (ocy * dy) == -(m * (dy * dy))) by (nonlinear_arith)
        requires
            s * ocy == -(m * dy);
    assert(s * (ocz * dz) == -(m * (dz * dz))) by (nonlinear_arith)
        requires
            s * ocz == -(m * dz);
    assert(s * b == s * (ocx * dx) + s * (ocy * dy) + s * (ocz * dz)) by (nonlinear_arith)
        requires
            b == ocx * dx + ocy * dy + ocz * dz;
    assert(-(m * (dx * dx)) + -(m * (dy * dy)) + -(m * (dz * dz)) == -(m * (dx * dx + dy * dy + dz
        * dz))) by (nonlinear_arith);
    assert(s * b == -(m * (s * s)));
    assert(s * (-(m * s)) == -(m * (s * s))) by (nonlinear_arith);
    crate::fixed::lemma_cancel_factor(s, b, -(m * s));
    let b_val = -(m * s);
    assert(b == b_val);

    // |oc|^2 == m^2, term by term, so c == m^2 - radius^2.
    assert((s * ocx) * (s * ocx) == (s * s) * (ocx * ocx)) by (nonlinear_arith);
    assert((s * ocy) * (s * ocy) == (s * s) * (ocy * ocy)) by (nonlinear_arith);
    assert((s * ocz) * (s * ocz) == (s * s) * (ocz * ocz)) by (nonlinear_arith);
    assert((-(m * dx)) * (-(m * dx)) == (m * m) * (dx * dx)) by (nonlinear_arith);
    assert((-(m * dy)) * (-(m * dy)) == (m * m) * (dy * dy)) by (nonlinear_arith);
    assert((-(m * dz)) * (-(m * dz)) == (m * m) * (dz * dz)) by (nonlinear_arith);
    assert((s * s) * (ocx * ocx) + (s * s) * (ocy * ocy) + (s * s) * (ocz * ocz) == (s * s) * (ocx
        * ocx + ocy * ocy + ocz * ocz)) by (nonlinear_arith);
    assert((m * m) * (dx * dx) + (m * m) * (dy * dy) + (m * m) * (dz * dz) == (m * m) * (dx * dx
        + dy * dy + dz * dz)) by (nonlinear_arith);
    assert((s * s) * (ocx * ocx + ocy * ocy + ocz * ocz) == (m * m) * (s * s));
    assert((s * s) * (m * m) == (m * m) * (s * s)) by (nonlinear_arith);
    assert(s * s > 0) by (nonlinear_arith)
        requires
            s > 0;
    crate::fixed::lemma_cancel_factor(s * s, ocx * ocx + ocy * ocy + ocz * ocz, m * m);
    assert(c == m * m - rad * rad);

    // The discriminant is the perfect square (SCALE * radius)^2.
    assert(b * b - a * c == (s * rad) * (s * rad)) by (nonlinear_arith)
        requires
            b == -(m * s),
            a == s * s,
            c == m * m - rad * rad;
    assert(disc_wide(center, radius, r) == b * b - a * c);
    assert(disc_wide(center, radius, r) == (s * rad) * (s * rad));
    assert((s * rad) * (s * rad) > 0) by (nonlinear_arith)
        requires
            s > 0,
            rad > 0;
    crate::fixed::lemma_sqrt_floor_of_square((s * rad) as nat);
    let root = sqrt_floor(disc_wide(center, radius, r) as nat) as int;
    assert(root == s * rad);

    // The near root is exactly m - radius.
    assert((-b - root) * s == (s * s) * (m - rad) + 0) by (nonlinear_arith)
        requires
            b == -(m * s),
            root == s * rad;
    vstd::arithmetic::div_mod::lemma_fundamental_div_mod_converse(
        (-b - root) * s,
        s * s,
        m - rad,
        0,
    );
    assert(root_near(center, radius, r) == m - rad);
    let t = m - rad;

    // The hit point is center - radius * d / SCALE, exactly.
    let rdx = (rad * dx) / s;
    let rdy = (rad * dy) / s;
    let rdz = (rad * dz) / s;
    lemma_exact_point(r.origin.x.raw as int, center.x.raw as int, dx, rad, m, rdx);
    lemma_exact_point(r.origin.y.raw as int, center.y.raw as int, dy, rad, m, rdy);
    lemma_exact_point(r.origin.z.raw as int, center.z.raw as int, dz, rad, m, rdz);

    let h = record_at(center, radius, material, r, t);
    assert(h.p.x.raw == center.x.raw - rdx);
    assert(h.p.y.raw == center.y.raw - rdy);
    assert(h.p.z.raw == center.z.raw - rdz);

    // The normal divides back to the negated direction.
    lemma_exact_normal(dx, rad, rdx);
    lemma_exact_normal(dy, rad, rdy);
    lemma_exact_normal(dz, rad, rdz);
    assert(h.normal == crate::vector::neg_spec(r.direction));
}

/// The hit point coordinate at the near parameter is exactly
/// `center - radius * d / SCALE` under the head-on hypotheses.
proof fn lemma_exact_point(o: int, cen: int, d: int, rad: int, m: int, rd: int)
    requires
        SCALE * (o - cen) == -(m * d),
        (rad * d) % (SCALE as int) == 0,
        rd == (rad * d) / (SCALE as int),
        0 < rad < m,
        m - rad <= RAW_BOUND as int,
        -SCALE <= d <= SCALE,
        in_range(cen - rd),
        in_range(o),
    ensures
        point_at_comp(o, d, m - rad) == cen - rd,
{
    let s = SCALE as int;
    vstd::arithmetic::div_mod::lemma_fundamental_div_mod(rad * d, s);
    assert(rad * d == s * rd);
    let q = -(o - cen) - rd;
    assert((m - rad) * d == s * q + 0) by (nonlinear_arith)
        requires
            s * (o - cen) == -(m * d),
            rad * d == s * rd,
            q == -(o - cen) - rd,
            s > 0;
    vstd::arithmetic::div_mod::lemma_fundamental_div_mod_converse((m - rad) * d, s, q, 0);
    assert(div_floor((m - rad) * d, s) == q);
    assert(-(m - rad) <= q <= m - rad) by (nonlinear_arith)
        requires
            s * q == (m - rad) * d,
            -s <= d <= s,
            m - rad > 0,
            s > 0;
    assert(sat(q) == q);
    assert(sat(o + q) == cen - rd);
}

/// The normal coordinate divides back to the negated direction component.
proof fn lemma_exact_normal(d: int, rad: int, rd: int)
    requires
        (rad * d) % (SCALE as int) == 0,
        rd == (rad * d) / (SCALE as int),
        0 < rad <= RAW_BOUND as int,
        -SCALE <= d <= SCALE,
    ensures
        sat(div_floor(sat(-rd) * SCALE, rad)) == -d,
{
    let s = SCALE as int;
    vstd::arithmetic::div_mod::lemma_fundamental_div_mod(rad * d, s);
    assert(rad * d == s * rd);
    assert(-rad <= rd <= rad) by (nonlinear_arith)
        requires
            s * rd == rad * d,
            -s <= d <= s,
            rad > 0,
            s > 0;
    assert(sat(-rd) == -rd);
    assert((-rd) * s == rad * (-d) + 0) by (nonlinear_arith)
        requires
            rad * d == s * rd;
    vstd::arithmetic::div_mod::lemma_fundamental_div_mod_converse((-rd) * s, rad, -d, 0);
    assert(div_floor((-rd) * s, rad) == -d);
    assert(sat(-d) == -d);
}

/// Build the hit record at an accepted parameter.
fn make_record(center: Vector, radius: Fx, material: Material, r: &Ray, t_raw: i64) -> (h:
    HitRecord)
    requires
        center.wf(),
        radius.wf(),
        radius.raw != 0,
        material.wf(),
        r.wf(),
        in_range(t_raw as int),
    ensures
        h == record_at(center, radius, material, *r, t_raw as int),
        h.wf(),
        h.t.raw == t_raw,
        h.material == material,
{
    let t = Fx::from_raw(t_raw);
    let p = r.point_at_parameter(t);
    let normal = p.sub(center).div_scalar(radius);
    HitRecord { t, p, normal, material }
}

} // verus!
