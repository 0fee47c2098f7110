//! What an intersection test reports.
use vstd::prelude::*;
use crate::material::Material;
use crate::vec3::{Point3, Vec3};

verus! {

#[derive(Clone, Copy, Debug, PartialEq, Eq, Structural)]
pub struct HitRecord {
    /// The point hit.
    pub p: Point3,
    /// The outward surface normal at `p`.
    pub normal: Vec3,
    /// The ray parameter of `p`.
    pub t: i64,
    /// Whether the ray came from outside the surface.
    pub front: bool,
    /// The material of the surface hit.
    pub material: Material,
}

} // verus!
