//! Rays: an origin and a direction.
use vstd::prelude::*;
use crate::vec3::{v_add, v_scale, Point3, Vec3};

verus! {

#[derive(Clone, Copy, Debug, PartialEq, Eq, Structural)]
pub struct Ray {
    pub origin: Point3,
    pub direction: Vec3,
}

/// The point at parameter `t` along the ray: `origin + direction * t`.
pub open spec fn at_spec(r: Ray, t: i64) -> Point3 {
    v_add(r.origin, v_scale(r.direction, t))
}

impl Ray {
    pub fn new(origin: Point3, direction: Vec3) -> (r: Ray)
        ensures
            r.origin == origin,
            r.direction == direction,
    {
        Ray { origin, direction }
    }

    pub fn at(&self, t: i64) -> (r: Point3)
        ensures
            r == at_spec(*self, t),
    {
        self.origin.add(self.direction.scale(t))
    }
}

} // verus!
