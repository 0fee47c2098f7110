//! The camera: maps viewport coordinates and a lens offset to world rays.
use vstd::prelude::*;
use rand::rngs::SmallRng;
use crate::fixed::{div_spec, fdiv, fmul, mul_spec, ONE};
use crate::random::random_in_unit_sphere;
use crate::ray::Ray;
use crate::utils::TWO;
use crate::vec3::{cross_spec, len_spec, unit_spec, v_add, v_div, v_scale, v_sub, Point3, Vec3};

verus! {

#[derive(Clone, Copy, Debug, PartialEq, Eq, Structural)]
pub struct Camera {
    pub origin: Point3,
    pub horizontal: Vec3,
    pub vertical: Vec3,
    pub lower_left_corner: Point3,
    pub lens_radius: i64,
    pub u: Vec3,
    pub v: Vec3,
}

/// The camera looking from `lookfrom` at `lookat`, with `vup` giving the up
/// direction, `tan_half_fov` the tangent of half the vertical field of view,
/// and a lens of diameter `aperture` focused at distance `focus_dist`.
pub open spec fn camera_spec(
    lookfrom: Point3,
    lookat: Point3,
    vup: Vec3,
    tan_half_fov: i64,
    aspect_ratio: i64,
    aperture: i64,
    focus_dist: i64,
) -> Camera {
    let viewport_height = mul_spec(TWO, tan_half_fov);
    let viewport_width = mul_spec(aspect_ratio, viewport_height);
    let w = unit_spec(v_sub(lookfrom, lookat));
    let u = unit_spec(cross_spec(vup, w));
    let v = cross_spec(w, u);
    let horizontal = v_scale(v_scale(u, viewport_width), focus_dist);
    let vertical = v_scale(v_scale(v, viewport_height), focus_dist);
    let lower_left_corner = v_sub(
        v_sub(v_sub(lookfrom, v_div(horizontal, TWO)), v_div(vertical, TWO)),
        v_scale(w, focus_dist),
    );
    Camera {
        origin: lookfrom,
        horizontal,
        vertical,
        lower_left_corner,
        lens_radius: div_spec(aperture, TWO),
        u,
        v,
    }
}

/// The ray through viewport point `(s, t)` from the lens point given by `rd`
/// (a point of the unit ball, of which `x` and `y` are used).
pub open spec fn camera_ray(c: Camera, s: i64, t: i64, rd: Vec3) -> Ray {
    let rd = v_scale(rd, c.lens_radius);
    let offset = v_add(v_scale(c.u, rd.x), v_scale(c.v, rd.y));
    Ray {
        origin: v_add(c.origin, offset),
        direction: v_sub(
            v_sub(v_add(v_add(c.lower_left_corner, v_scale(c.horizontal, s)), v_scale(c.vertical, t)), c.origin),
            offset,
        ),
    }
}

impl Camera {
    pub fn new(
        lookfrom: Point3,
        lookat: Point3,
        vup: Vec3,
        tan_half_fov: i64,
        aspect_ratio: i64,
        aperture: i64,
        focus_dist: i64,
    ) -> (r: Camera)
        ensures
            r == camera_spec(lookfrom, lookat, vup, tan_half_fov, aspect_ratio, aperture, focus_dist),
    {
        let viewport_height = fmul(TWO, tan_half_fov);
        let viewport_width = fmul(aspect_ratio, viewport_height);
        let w = lookfrom.sub(lookat).unit();
        let u = vup.cross(w).unit();
        let v = w.cross(u);
        let horizontal = u.scale(viewport_width).scale(focus_dist);
        let vertical = v.scale(viewport_height).scale(focus_dist);
        let lower_left_corner = lookfrom.sub(horizontal.div(TWO)).sub(vertical.div(TWO)).sub(w.scale(focus_dist));
        Camera { origin: lookfrom, horizontal, vertical, lower_left_corner, lens_radius: fdiv(aperture, TWO), u, v }
    }

    /// The ray for viewport point `(s, t)` through the lens point given by `rd`.
    pub fn get_ray_with(&self, s: i64, t: i64, rd: Vec3) -> (r: Ray)
        ensures
            r == camera_ray(*self, s, t, rd),
    {
        let rd = rd.scale(self.lens_radius);
        let offset = self.u.scale(rd.x).add(self.v.scale(rd.y));
        Ray::new(
            self.origin.add(offset),
            self.lower_left_corner.add(self.horizontal.scale(s)).add(self.vertical.scale(t)).sub(self.origin).sub(offset),
        )
    }

    /// The ray for viewport point `(s, t)` through a random point of the lens.
    pub fn get_ray(&self, s: i64, t: i64, rng: &mut SmallRng) -> (r: Ray)
        ensures
            exists|rd: Vec3| len_spec(rd) < ONE && r == #[trigger] camera_ray(*self, s, t, rd),
    {
        let rd = random_in_unit_sphere(rng);
        self.get_ray_with(s, t, rd)
    }
}

} // verus!
