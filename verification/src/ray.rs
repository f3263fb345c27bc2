//! Rays: an origin and a direction, with the parametric point function.

use vstd::prelude::*;

verus! {

use vstd::arithmetic::div_mod::lemma_fundamental_div_mod_converse;
use crate::fixed::Fx;
use crate::fixed::SCALE;
use crate::fixed::in_range;
use crate::fixed::sat;
use crate::fixed::div_floor;
use crate::vector::Vector;
use crate::vector::scale_comp;

/// A ray. The direction is not required to be unit length.
#[derive(Clone, Copy, PartialEq, Eq, Structural, Debug)]
pub struct Ray {
    pub origin: Vector,
    pub direction: Vector,
}

/// One component of the point at parameter `t` along a ray: the origin
/// component plus the scaled direction component, each step saturated.
pub open spec fn point_at_comp(o: int, d: int, t: int) -> int {
    sat(o + scale_comp(t, d))
}

impl Ray {
    /// Both endpoints of the ray lie in the representable range.
    pub open spec fn wf(self) -> bool {
        self.origin.wf() && self.direction.wf()
    }

    /// The ray from `origin` toward `direction`.
    pub fn new(origin: Vector, direction: Vector) -> (r: Ray)
        requires
            origin.wf(),
            direction.wf(),
        ensures
            r.wf(),
            r == (Ray { origin, direction }),
    {
        Ray { origin, direction }
    }

    /// The point `origin + t * direction`.
    pub fn point_at_parameter(&self, t: Fx) -> (r: Vector)
        requires
            self.wf(),
            t.wf(),
        ensures
            r.wf(),
            r.x.raw == point_at_comp(self.origin.x.raw as int, self.direction.x.raw as int, t.raw as int),
            r.y.raw == point_at_comp(self.origin.y.raw as int, self.direction.y.raw as int, t.raw as int),
            r.z.raw == point_at_comp(self.origin.z.raw as int, self.direction.z.raw as int, t.raw as int),
    {
        self.origin.add(self.direction.scale(t))
    }
}

/// At parameter zero a ray is exactly at its origin.
pub proof fn lemma_point_at_zero(o: int, d: int)
    requires
        in_range(o),
        in_range(d),
    ensures
        point_at_comp(o, d, 0) == o,
{
    assert(0 * d == 0) by (nonlinear_arith);
    assert(div_floor(0, SCALE as int) == 0);
}

/// At parameter one a ray is exactly at `origin + direction` (saturated).
pub proof fn lemma_point_at_one(o: int, d: int)
    requires
        in_range(o),
        in_range(d),
    ensures
        point_at_comp(o, d, SCALE as int) == sat(o + d),
{
    assert((SCALE as int) * d == d * (SCALE as int) + 0) by (nonlinear_arith);
    lemma_fundamental_div_mod_converse((SCALE as int) * d, SCALE as int, d, 0);
    assert(div_floor((SCALE as int) * d, SCALE as int) == d);
}

} // verus!
