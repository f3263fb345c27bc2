//! Scene objects and the intersection protocol.
//!
//! A world is a sphere or an ordered collection of objects, composed
//! recursively.  `Object::hit` returns the nearest valid intersection of a
//! ray over a parameter interval; its result is pinned exactly by a spec
//! mirror, and the closest-hit-wins law over collections is proved below.

use vstd::prelude::*;

verus! {

use crate::fixed::Fx;
use crate::ray::Ray;
use crate::vector::Vector;
use crate::materials::Material;

pub mod sphere;

/// The nearest valid intersection: its parameter, the hit point, the
/// outward surface normal and the material that was hit.
#[derive(Clone, Copy, PartialEq, Eq, Structural, Debug)]
pub struct HitRecord {
    pub t: Fx,
    pub p: Vector,
    pub normal: Vector,
    pub material: Material,
}

impl HitRecord {
    /// Every field lies in range.
    pub open spec fn wf(self) -> bool {
        self.t.wf() && self.p.wf() && self.normal.wf() && self.material.wf()
    }

    /// The record with the given fields.
    pub fn new(t: Fx, p: Vector, normal: Vector, material: Material) -> (h: HitRecord)
        requires
            t.wf(),
            p.wf(),
            normal.wf(),
            material.wf(),
        ensures
            h == (HitRecord { t, p, normal, material }),
            h.wf(),
    {
        HitRecord { t, p, normal, material }
    }
}

/// A world object: one sphere, or an ordered collection of objects.
pub enum Object {
    Sphere { center: Vector, radius: Fx, material: Material },
    Multiple(Vec<Object>),
}

impl Object {
    /// Spheres have a nonzero radius and a valid material, recursively.
    pub open spec fn wf(self) -> bool
        decreases self,
    {
        match self {
            Object::Sphere { center, radius, material } => center.wf() && radius.wf()
                && radius.raw != 0 && material.wf(),
            Object::Multiple(objects) => forall|i: int|
                0 <= i < objects@.len() ==> (#[trigger] objects@[i]).wf(),
        }
    }

    /// A single sphere.
    pub fn new_sphere(center: Vector, radius: Fx, material: Material) -> (o: Object)
        requires
            center.wf(),
            radius.wf(),
            radius.raw != 0,
            material.wf(),
        ensures
            o == (Object::Sphere { center, radius, material }),
            o.wf(),
    {
        Object::Sphere { center, radius, material }
    }

    /// What `hit` returns, as a value.
    pub open spec fn hit_spec(self, r: Ray, t_min: int, t_max: int) -> Option<HitRecord>
        decreases self, 0int,
    {
        match self {
            Object::Sphere { center, radius, material } => sphere::hit_spec(
                center,
                radius,
                material,
                r,
                t_min,
                t_max,
            ),
            Object::Multiple(objects) => list_hit_spec(objects@, r, t_min, t_max, 0),
        }
    }

    /// The nearest valid intersection of `r` with this object over the
    /// open parameter interval `(t_min, t_max)`, or nothing.
    pub fn hit(&self, r: &Ray, t_min: Fx, t_max: Fx) -> (res: Option<HitRecord>)
        requires
            self.wf(),
            r.wf(),
            t_min.wf(),
            t_max.wf(),
        ensures
            res == self.hit_spec(*r, t_min.raw as int, t_max.raw as int),
            res matches Some(h) ==> h.wf() && t_min.raw < h.t.raw < t_max.raw,
        decreases *self, 0int,
    {
        match self {
            Object::Sphere { center, radius, material } => sphere::hit(
                *center,
                *radius,
                *material,
                r,
                t_min,
                t_max,
            ),
            Object::Multiple(objects) => hit_list(objects, r, t_min, t_max, 0),
        }
    }
}

/// What the collection fold returns, as a value: the hit of member `i`
/// combined with the best hit of the members after it, the earlier member
/// winning ties.
pub open spec fn list_hit_spec(objects: Seq<Object>, r: Ray, t_min: int, t_max: int, i: int)
    -> Option<HitRecord>
    decreases objects, objects.len() - i,
{
    if i < 0 || i >= objects.len() {
        Option::None
    } else {
        let cur = objects[i].hit_spec(r, t_min, t_max);
        let rest = list_hit_spec(objects, r, t_min, t_max, i + 1);
        match cur {
            Option::None => rest,
            Option::Some(hc) => match rest {
                Option::None => Option::Some(hc),
                Option::Some(hr) => if hr.t.raw < hc.t.raw {
                    Option::Some(hr)
                } else {
                    Option::Some(hc)
                },
            },
        }
    }
}

/// The nearest valid intersection among the members from index `i` on.
fn hit_list(objects: &Vec<Object>, r: &Ray, t_min: Fx, t_max: Fx, i: usize) -> (res: Option<
    HitRecord>)
    requires
        forall|j: int| 0 <= j < objects@.len() ==> (#[trigger] objects@[j]).wf(),
        i <= objects@.len(),
        r.wf(),
        t_min.wf(),
        t_max.wf(),
    ensures
        res == list_hit_spec(objects@, *r, t_min.raw as int, t_max.raw as int, i as int),
        res matches Some(h) ==> h.wf() && t_min.raw < h.t.raw < t_max.raw,
    decreases objects@, objects@.len() - i,
{
    if i >= objects.len() {
        return None;
    }
    let cur = objects[i].hit(r, t_min, t_max);
    let rest = hit_list(objects, r, t_min, t_max, i + 1);
    match cur {
        None => rest,
        Some(hc) => match rest {
            None => Some(hc),
            Some(hr) => if hr.t.raw < hc.t.raw {
                Some(hr)
            } else {
                Some(hc)
            },
        },
    }
}

/// Closest-hit-wins over a collection: what the fold returns is a member's
/// own hit, no member's hit over the same interval is strictly nearer, and
/// the fold comes up empty only when every member does.
pub proof fn lemma_list_hit_closest(objects: Seq<Object>, r: Ray, t_min: int, t_max: int, i: int)
    requires
        0 <= i <= objects.len(),
    ensures
        list_hit_spec(objects, r, t_min, t_max, i) matches Some(h) ==> (exists|j: int|
            i <= j < objects.len() && #[trigger] objects[j].hit_spec(r, t_min, t_max) == Some(h)),
        list_hit_spec(objects, r, t_min, t_max, i) matches Some(h) ==> (forall|j: int|
            i <= j < objects.len() ==> match #[trigger] objects[j].hit_spec(r, t_min, t_max) {
                Option::Some(other) => h.t.raw <= other.t.raw,
                Option::None => true,
            }),
        list_hit_spec(objects, r, t_min, t_max, i) is None ==> (forall|j: int|
            i <= j < objects.len() ==> #[trigger] objects[j].hit_spec(r, t_min, t_max) is None),
    decreases objects.len() - i,
{
    if i < objects.len() {
        lemma_list_hit_closest(objects, r, t_min, t_max, i + 1);
        let cur = objects[i].hit_spec(r, t_min, t_max);
        let rest = list_hit_spec(objects, r, t_min, t_max, i + 1);
        match cur {
            Option::Some(hc) => {
                let keeps_cur = match rest {
                    Option::Some(hr) => hc.t.raw <= hr.t.raw,
                    Option::None => true,
                };
                if keeps_cur {
                    assert(objects[i].hit_spec(r, t_min, t_max) == Some(hc));
                }
            },
            Option::None => {
            },
        }
    }
}

} // verus!
