//! Rays, and what a surface sends back when one is scattered.

use crate::vec3::Vec3;
use vstd::prelude::*;

verus! {

/// A half-line: where it starts and which way it runs. The direction is held
/// at unit length; keeping it so is the business of whoever builds the ray.
#[derive(Clone, Copy, Debug, PartialEq, Eq, Structural)]
pub struct Ray {
    pub origin: Vec3,
    pub unit_direction: Vec3,
}

impl Ray {
    /// The ray from `origin` along `unit_direction`, which is stored as it is
    /// given.
    pub fn new(origin: Vec3, unit_direction: Vec3) -> (ray: Ray)
        ensures
            ray == (Ray { origin, unit_direction }),
    {
        Ray { origin, unit_direction }
    }

    /// Where the ray starts.
    pub fn origin(&self) -> (r: Vec3)
        ensures
            r == self.origin,
    {
        self.origin
    }

    /// Which way the ray runs.
    pub fn unit_direction(&self) -> (r: Vec3)
        ensures
            r == self.unit_direction,
    {
        self.unit_direction
    }
}

/// The outcome of a scattering event: the ray that leaves the surface, and
/// the share of the light it carries that the surface lets through, channel
/// by channel.
#[derive(Clone, Copy, Debug, PartialEq, Eq, Structural)]
pub struct ScatteredRay {
    pub ray: Ray,
    pub attenuation: Vec3,
}

} // verus!
