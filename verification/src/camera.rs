//! The thin-lens camera: an orthonormal viewing basis and a viewport, with
//! optional depth-of-field via a lens disk.

use vstd::prelude::*;

verus! {

use rand::rngs::StdRng;
use crate::fixed::Fx;
use crate::fixed::SCALE;
use crate::fixed::sat;
use crate::fixed::div_floor;
use crate::ray::Ray;
use crate::vector::Vector;
use crate::vector::norm2_wide;
use crate::vector::add_spec;
use crate::vector::sub_spec;
use crate::vector::scale_spec;
use crate::vector::cross_spec;
use crate::vector::unit_spec;
use crate::sampling::random_in_unit_sphere;

/// Where the camera stands and looks.
#[derive(Clone, Copy, PartialEq, Eq, Structural, Debug)]
pub struct Orientation {
    pub look_from: Vector,
    pub look_at: Vector,
    pub v_up: Vector,
}

impl Orientation {
    /// All vectors lie in range.
    pub open spec fn wf(self) -> bool {
        self.look_from.wf() && self.look_at.wf() && self.v_up.wf()
    }

    /// The orientation with the given vectors.
    pub fn new(look_from: Vector, look_at: Vector, v_up: Vector) -> (o: Orientation)
        requires
            look_from.wf(),
            look_at.wf(),
            v_up.wf(),
        ensures
            o == (Orientation { look_from, look_at, v_up }),
            o.wf(),
    {
        Orientation { look_from, look_at, v_up }
    }
}

/// The lens parameters.  `half_height` is the tangent of half the vertical
/// field of view — the caller converts an angle to its tangent, since that
/// conversion is the one step of camera setup outside this library's
/// arithmetic.
#[derive(Clone, Copy, PartialEq, Eq, Structural, Debug)]
pub struct Lens {
    pub half_height: Fx,
    pub aperture: Fx,
    pub focus_dist: Fx,
}

impl Lens {
    /// All parameters lie in range.
    pub open spec fn wf(self) -> bool {
        self.half_height.wf() && self.aperture.wf() && self.focus_dist.wf()
    }

    /// The lens with the given parameters.
    pub fn new(half_height: Fx, aperture: Fx, focus_dist: Fx) -> (l: Lens)
        requires
            half_height.wf(),
            aperture.wf(),
            focus_dist.wf(),
        ensures
            l == (Lens { half_height, aperture, focus_dist }),
            l.wf(),
    {
        Lens { half_height, aperture, focus_dist }
    }
}

/// The camera: its viewport corners and basis, derived once at
/// construction and immutable afterwards.
#[derive(Clone, Copy, PartialEq, Eq, Structural, Debug)]
pub struct Camera {
    pub origin: Vector,
    pub lower_left_corner: Vector,
    pub horizontal: Vector,
    pub vertical: Vector,
    pub u: Vector,
    pub v: Vector,
    pub lens_radius: Fx,
}

/// The gaze axis of the viewing basis: the unit vector from the scene
/// toward the camera.
pub open spec fn basis_w(orientation: Orientation) -> Vector {
    unit_spec(sub_spec(orientation.look_from, orientation.look_at))
}

/// The horizontal axis of the viewing basis.
pub open spec fn basis_u(orientation: Orientation) -> Vector {
    unit_spec(cross_spec(orientation.v_up, basis_w(orientation)))
}

/// The vertical axis of the viewing basis.
pub open spec fn basis_v(orientation: Orientation) -> Vector {
    cross_spec(basis_w(orientation), basis_u(orientation))
}

/// The camera derived from an orientation, a lens and an aspect ratio,
/// as a value.
pub open spec fn camera_spec(orientation: Orientation, lens: Lens, aspect: Fx) -> Camera {
    let half_height = lens.half_height;
    let half_width = Fx { raw: sat(div_floor(aspect.raw * half_height.raw, SCALE as int)) as i64 };
    let w = basis_w(orientation);
    let u = basis_u(orientation);
    let v = basis_v(orientation);
    let origin = orientation.look_from;
    let hwf = Fx { raw: sat(div_floor(half_width.raw * lens.focus_dist.raw, SCALE as int)) as i64 };
    let hhf = Fx {
        raw: sat(div_floor(half_height.raw * lens.focus_dist.raw, SCALE as int)) as i64,
    };
    Camera {
        origin,
        lower_left_corner: sub_spec(
            sub_spec(sub_spec(origin, scale_spec(hwf.raw as int, u)), scale_spec(hhf.raw as int, v)),
            scale_spec(lens.focus_dist.raw as int, w),
        ),
        horizontal: scale_spec(sat(hwf.raw + hwf.raw), u),
        vertical: scale_spec(sat(hhf.raw + hhf.raw), v),
        u,
        v,
        lens_radius: (Fx {
            raw: sat(div_floor(lens.aperture.raw * SCALE, 2 * SCALE)) as i64,
        }),
    }
}

/// The ray emitted through normalized viewport coordinates `(s, t)`, with
/// the lens-disk sample `rd` given.
pub open spec fn get_ray_spec(cam: Camera, s: Fx, t: Fx, rd: Vector) -> Ray {
    let rdv = scale_spec(cam.lens_radius.raw as int, rd);
    let offset = add_spec(
        scale_spec(rdv.x.raw as int, cam.u),
        scale_spec(rdv.y.raw as int, cam.v),
    );
    Ray {
        origin: add_spec(cam.origin, offset),
        direction: sub_spec(
            sub_spec(
                add_spec(
                    add_spec(cam.lower_left_corner, scale_spec(s.raw as int, cam.horizontal)),
                    scale_spec(t.raw as int, cam.vertical),
                ),
                cam.origin,
            ),
            offset,
        ),
    }
}

impl Camera {
    /// All fields lie in range.
    pub open spec fn wf(self) -> bool {
        self.origin.wf() && self.lower_left_corner.wf() && self.horizontal.wf()
            && self.vertical.wf() && self.u.wf() && self.v.wf() && self.lens_radius.wf()
    }

    /// Build the camera: an orthonormal viewing basis from the orientation,
    /// viewport corners scaled by the focus distance, and the lens radius.
    ///
    /// The camera must look somewhere (`look_from != look_at`) and the up
    /// vector must not be parallel to the gaze axis.
    pub fn new(orientation: Orientation, lens: Lens, aspect: Fx) -> (cam: Camera)
        requires
            orientation.wf(),
            lens.wf(),
            aspect.wf(),
            norm2_wide(sub_spec(orientation.look_from, orientation.look_at)) > 0,
            norm2_wide(cross_spec(orientation.v_up, basis_w(orientation))) > 0,
        ensures
            cam == camera_spec(orientation, lens, aspect),
            cam.wf(),
    {
        let half_height = lens.half_height;
        let half_width = aspect.mul(half_height);

        let w = orientation.look_from.sub(orientation.look_at).unit_vector();
        let u = Vector::cross(&orientation.v_up, &w).unit_vector();
        let v = Vector::cross(&w, &u);

        let origin = orientation.look_from;
        let hwf = half_width.mul(lens.focus_dist);
        let hhf = half_height.mul(lens.focus_dist);
        let lower_left_corner = origin.sub(u.scale(hwf)).sub(v.scale(hhf)).sub(
            w.scale(lens.focus_dist),
        );
        let horizontal = u.scale(hwf.add(hwf));
        let vertical = v.scale(hhf.add(hhf));

        let lens_radius = lens.aperture.div(Fx::from_int(2));

        Camera { origin, lower_left_corner, horizontal, vertical, u, v, lens_radius }
    }

    /// The ray through normalized viewport coordinates `(s, t)`, with the
    /// lens-disk sample `rd` given.
    pub fn get_ray_with(&self, s: Fx, t: Fx, rd: Vector) -> (r: Ray)
        requires
            self.wf(),
            s.wf(),
            t.wf(),
            rd.wf(),
        ensures
            r.wf(),
            r == get_ray_spec(*self, s, t, rd),
    {
        let rdv = rd.scale(self.lens_radius);
        let offset = self.u.scale(rdv.x).add(self.v.scale(rdv.y));
        Ray::new(
            self.origin.add(offset),
            self.lower_left_corner.add(self.horizontal.scale(s)).add(self.vertical.scale(t)).sub(
                self.origin,
            ).sub(offset),
        )
    }

    /// The ray through normalized viewport coordinates `(s, t)`: the origin
    /// is jittered over the lens disk for depth-of-field, so the result is
    /// the viewport ray for some point of the unit ball.  With a zero
    /// aperture the jitter vanishes and the camera degenerates to a
    /// pinhole.
    pub fn get_ray(&self, s: Fx, t: Fx, rng: &mut StdRng) -> (r: Ray)
        requires
            self.wf(),
            s.wf(),
            t.wf(),
        ensures
            r.wf(),
            exists|rd: Vector|
                rd.wf() && norm2_wide(rd) < SCALE * SCALE && r == #[trigger] get_ray_spec(
                    *self,
                    s,
                    t,
                    rd,
                ),
    {
        let rd = random_in_unit_sphere(rng);
        let r = self.get_ray_with(s, t, rd);
        proof {
            assert(r == get_ray_spec(*self, s, t, rd));
        }
        r
    }
}

} // verus!
