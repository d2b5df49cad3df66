use vstd::prelude::*;
use crate::bounds::{BoundingBox, Vec3};
use crate::intersection::Intersections;
use crate::object::Object;
use crate::shapes::triangle::{PlaneCrossing, Triangle};

verus! {

/// A triangle with a normal at each corner, between which the normal at a
/// point of the surface is blended.
#[derive(Clone, Copy, Debug, PartialEq, Eq, Structural)]
pub struct SmoothTriangle {
    pub triangle: Triangle,
    pub n1: Vec3,
    pub n2: Vec3,
    pub n3: Vec3,
}

impl SmoothTriangle {
    pub fn new(p1: Vec3, p2: Vec3, p3: Vec3, n1: Vec3, n2: Vec3, n3: Vec3) -> (smooth: Self)
        ensures
            smooth == (SmoothTriangle { triangle: Triangle { p1, p2, p3 }, n1, n2, n3 }),
    {
        SmoothTriangle { triangle: Triangle::new(p1, p2, p3), n1, n2, n3 }
    }

    /// A ray meets a smooth triangle where it meets the flat one.
    pub fn intersect<'a>(&self, crossing: &PlaneCrossing, object: &'a Object) -> (xs: Intersections<
        'a,
    >)
        ensures
            xs@ == Triangle::spec_intersect(crossing, object),
    {
        self.triangle.intersect(crossing, object)
    }

    pub fn bounds(&self) -> (b: BoundingBox)
        ensures
            b == self.triangle.spec_bounds(),
    {
        self.triangle.bounds()
    }
}

} // verus!
