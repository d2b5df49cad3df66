use vstd::prelude::*;
use crate::bounds::{BoundingBox, Vec3};
use crate::intersection::{Intersection, Intersections};
use crate::object::Object;
use crate::scalar;

verus! {

/// What a ray makes of a triangle's plane: the determinant of the ray's
/// direction with the two edges, the place `(u, v)` of the crossing in the
/// frame of the two edges, the sum of `u` and `v`, and the ray's parameter
/// at the crossing. All but the determinant mean nothing where the
/// determinant is too small.
#[derive(Clone, Copy, Debug, PartialEq, Eq, Structural)]
pub struct PlaneCrossing {
    pub det: i64,
    pub u: i64,
    pub v: i64,
    pub u_plus_v: i64,
    pub t: i64,
}

/// A flat triangle, given by its three corners.
#[derive(Clone, Copy, Debug, PartialEq, Eq, Structural)]
pub struct Triangle {
    pub p1: Vec3,
    pub p2: Vec3,
    pub p3: Vec3,
}

impl Triangle {
    /// Whether the crossing of the triangle's plane lies on the triangle.
    /// It does not where the ray runs along the plane, nor where `u` is
    /// outside 0 to 1, nor where `v` is negative or `u` and `v` together
    /// exceed 1.
    pub open spec fn meets(crossing: &PlaneCrossing) -> bool {
        &&& scalar::magnitude(crossing.det as int) >= scalar::EPSILON
        &&& 0 <= crossing.u <= scalar::ONE
        &&& 0 <= crossing.v
        &&& crossing.u_plus_v <= scalar::ONE
    }

    pub open spec fn spec_intersect<'a>(crossing: &PlaneCrossing, object: &'a Object) -> Seq<
        Intersection<'a>,
    > {
        if Triangle::meets(crossing) {
            seq![Intersection { t: crossing.t, object, u: crossing.u, v: crossing.v }]
        } else {
            Seq::empty()
        }
    }

    /// The least box around the three corners.
    pub open spec fn spec_bounds(&self) -> BoundingBox {
        BoundingBox {
            min: self.p1.lower(self.p2).lower(self.p3),
            max: self.p1.upper(self.p2).upper(self.p3),
        }
    }

    pub fn new(p1: Vec3, p2: Vec3, p3: Vec3) -> (triangle: Self)
        ensures
            triangle == (Triangle { p1, p2, p3 }),
    {
        Triangle { p1, p2, p3 }
    }

    pub fn p1(&self) -> (p: Vec3)
        ensures
            p == self.p1,
    {
        self.p1
    }

    pub fn p2(&self) -> (p: Vec3)
        ensures
            p == self.p2,
    {
        self.p2
    }

    pub fn p3(&self) -> (p: Vec3)
        ensures
            p == self.p3,
    {
        self.p3
    }

    pub fn intersect<'a>(&self, crossing: &PlaneCrossing, object: &'a Object) -> (xs: Intersections<
        'a,
    >)
        ensures
            xs@ == Triangle::spec_intersect(crossing, object),
    {
        let mut xs: Intersections<'a> = Intersections::new();
        if scalar::abs(crossing.det) < scalar::EPSILON as u64 {
            return xs;
        }
        if crossing.u < 0 || crossing.u > scalar::ONE {
            return xs;
        }
        if crossing.v < 0 || crossing.u_plus_v > scalar::ONE {
            return xs;
        }
        xs.push(Intersection::new(crossing.t, object).with_u_v(crossing.u, crossing.v));
        assert(xs@ =~= Triangle::spec_intersect(crossing, object));
        xs
    }

    pub fn bounds(&self) -> (b: BoundingBox)
        ensures
            b == self.spec_bounds(),
    {
        BoundingBox::new(
            Vec3::new(
                scalar::min(scalar::min(self.p1.x, self.p2.x), self.p3.x),
                scalar::min(scalar::min(self.p1.y, self.p2.y), self.p3.y),
                scalar::min(scalar::min(self.p1.z, self.p2.z), self.p3.z),
            ),
            Vec3::new(
                scalar::max(scalar::max(self.p1.x, self.p2.x), self.p3.x),
                scalar::max(scalar::max(self.p1.y, self.p2.y), self.p3.y),
                scalar::max(scalar::max(self.p1.z, self.p2.z), self.p3.z),
            ),
        )
    }
}

} // verus!
