use vstd::prelude::*;
use crate::bounds::{BoundingBox, Vec3};
use crate::intersection::{Intersection, Intersections};
use crate::object::Object;
use crate::scalar;

verus! {

/// The quadratic in the ray's parameter that a ray makes with a surface of
/// the second degree: its leading coefficient, its discriminant, and its
/// two roots. The roots mean nothing where the leading coefficient is zero
/// or the discriminant is negative.
#[derive(Clone, Copy, Debug, PartialEq, Eq, Structural)]
pub struct Roots {
    pub leading: i64,
    pub discriminant: i64,
    pub first: i64,
    pub second: i64,
}

/// The unit sphere around the origin.
#[derive(Clone, Copy, Debug, PartialEq, Eq, Structural)]
pub struct Sphere {}

impl Sphere {
    /// A ray of no length meets nothing, and neither does one whose
    /// quadratic has no real root. Any other ray meets the sphere at both
    /// roots, the smaller first.
    pub open spec fn spec_intersect<'a>(roots: &Roots, object: &'a Object) -> Seq<Intersection<'a>> {
        if roots.leading == 0 || roots.discriminant < 0 {
            Seq::empty()
        } else {
            seq![
                Intersection {
                    t: scalar::min_rank(roots.first as int, roots.second as int) as i64,
                    object,
                    u: 0,
                    v: 0,
                },
                Intersection {
                    t: scalar::max_rank(roots.first as int, roots.second as int) as i64,
                    object,
                    u: 0,
                    v: 0,
                },
            ]
        }
    }

    pub open spec fn spec_bounds() -> BoundingBox {
        BoundingBox {
            min: Vec3 { x: scalar::NEG_ONE, y: scalar::NEG_ONE, z: scalar::NEG_ONE },
            max: Vec3 { x: scalar::ONE, y: scalar::ONE, z: scalar::ONE },
        }
    }

    pub fn new() -> (sphere: Self)
        ensures
            sphere == (Sphere {  }),
    {
        Sphere {  }
    }

    pub fn intersect<'a>(&self, roots: &Roots, object: &'a Object) -> (xs: Intersections<'a>)
        ensures
            xs@ == Sphere::spec_intersect(roots, object),
    {
        let mut xs: Intersections<'a> = Intersections::new();
        if roots.leading == 0 || roots.discriminant < 0 {
            return xs;
        }
        xs.push(Intersection::new(scalar::min(roots.first, roots.second), object));
        xs.push(Intersection::new(scalar::max(roots.first, roots.second), object));
        assert(xs@ =~= Sphere::spec_intersect(roots, object));
        xs
    }

    /// The normal at a point of the unit sphere is the point itself.
    pub fn normal_at(&self, point: Vec3) -> (normal: Vec3)
        ensures
            normal == point,
    {
        point
    }

    pub fn bounds(&self) -> (b: BoundingBox)
        ensures
            b == Sphere::spec_bounds(),
    {
        BoundingBox::new(
            Vec3::new(scalar::NEG_ONE, scalar::NEG_ONE, scalar::NEG_ONE),
            Vec3::new(scalar::ONE, scalar::ONE, scalar::ONE),
        )
    }
}

/// A ray meets the sphere twice or not at all, and of two intersections
/// the first is not the farther; it is the nearer where the two roots
/// differ.
pub proof fn lemma_sphere_intersections_are_ordered(roots: &Roots, object: &Object)
    ensures
        Sphere::spec_intersect(roots, object).len() == 0 || Sphere::spec_intersect(
            roots,
            object,
        ).len() == 2,
        Sphere::spec_intersect(roots, object).len() == 2 ==> {
            let xs = Sphere::spec_intersect(roots, object);
            &&& xs[0].t <= xs[1].t
            &&& roots.first != roots.second ==> xs[0].t < xs[1].t
            &&& roots.first == roots.second ==> xs[0].t == xs[1].t
        },
{
}

impl Default for Sphere {
    fn default() -> (sphere: Self)
        ensures
            sphere == (Sphere {  }),
    {
        Sphere {  }
    }
}

} // verus!
