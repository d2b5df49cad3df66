use vstd::prelude::*;
use crate::bounds::{BoundingBox, Vec3};
use crate::intersection::{Intersection, Intersections};
use crate::object::Object;
use crate::scalar;

verus! {

/// The plane y = 0, without end in x and z.
#[derive(Clone, Copy, Debug, PartialEq, Eq, Structural)]
pub struct Plane {}

impl Plane {
    /// A ray whose direction rises or falls by less than the machine
    /// epsilon runs along the plane and meets nothing. Any other ray meets
    /// the plane once, at `t`.
    pub open spec fn spec_intersect<'a>(direction_y: i64, t: i64, object: &'a Object) -> Seq<
        Intersection<'a>,
    > {
        if scalar::magnitude(direction_y as int) < scalar::EPSILON {
            Seq::empty()
        } else {
            seq![Intersection { t, object, u: 0, v: 0 }]
        }
    }

    pub open spec fn spec_bounds() -> BoundingBox {
        BoundingBox {
            min: Vec3 { x: scalar::NEG_INFINITY, y: 0, z: scalar::NEG_INFINITY },
            max: Vec3 { x: scalar::INFINITY, y: 0, z: scalar::INFINITY },
        }
    }

    pub fn new() -> (plane: Self)
        ensures
            plane == (Plane {  }),
    {
        Plane {  }
    }

    /// `direction_y` is the y component of the ray's direction, and `t` the
    /// parameter at which the ray has the height 0.
    pub fn intersect<'a>(&self, direction_y: i64, t: i64, object: &'a Object) -> (xs: Intersections<
        'a,
    >)
        ensures
            xs@ == Plane::spec_intersect(direction_y, t, object),
    {
        let mut xs: Intersections<'a> = Intersections::new();
        if scalar::abs(direction_y) >= scalar::EPSILON as u64 {
            xs.push(Intersection::new(t, object));
        }
        assert(xs@ =~= Plane::spec_intersect(direction_y, t, object));
        xs
    }

    /// The normal is the same everywhere: straight up.
    pub fn normal_at(&self, point: Vec3) -> (normal: Vec3)
        ensures
            normal == (Vec3 { x: 0, y: scalar::ONE, z: 0 }),
    {
        Vec3::new(0, scalar::ONE, 0)
    }

    pub fn bounds(&self) -> (b: BoundingBox)
        ensures
            b == Plane::spec_bounds(),
    {
        BoundingBox::new(
            Vec3::new(scalar::NEG_INFINITY, 0, scalar::NEG_INFINITY),
            Vec3::new(scalar::INFINITY, 0, scalar::INFINITY),
        )
    }
}

impl Default for Plane {
    fn default() -> (plane: Self)
        ensures
            plane == (Plane {  }),
    {
        Plane {  }
    }
}

} // verus!
