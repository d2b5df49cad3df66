use vstd::prelude::*;
use crate::bounds::{first_exit, last_entry, slab_interval, BoundingBox, Slab, Vec3};
use crate::intersection::{Intersection, Intersections};
use crate::object::Object;
use crate::scalar;

verus! {

/// The cube from -1 to 1 on every axis.
#[derive(Clone, Copy, Debug, PartialEq, Eq, Structural)]
pub struct Cube {}

impl Cube {
    /// Whether a ray passes through the cube: it has entered all three
    /// slabs no later than it leaves the first, and it does both at a time
    /// that is a number with an end. A ray of no length crosses no face: it
    /// is in a slab without beginning and without end, or never, and meets
    /// nothing.
    pub open spec fn passes(x: Slab, y: Slab, z: Slab) -> bool {
        scalar::NEG_INFINITY < last_entry(x, y, z) <= first_exit(x, y, z) < scalar::INFINITY
    }

    /// The ray meets the cube where it passes through it: at the last entry
    /// and at the first exit.
    pub open spec fn spec_intersect<'a>(x: Slab, y: Slab, z: Slab, object: &'a Object) -> Seq<
        Intersection<'a>,
    > {
        if !Cube::passes(x, y, z) {
            Seq::empty()
        } else {
            seq![
                Intersection { t: last_entry(x, y, z) as i64, object, u: 0, v: 0 },
                Intersection { t: first_exit(x, y, z) as i64, object, u: 0, v: 0 },
            ]
        }
    }

    /// The normal of the face that the point lies on: the axis on which the
    /// point is farthest from the origin, with the point's coordinate
    /// there. Where two axes tie, x goes before y and y before z.
    pub open spec fn spec_normal_at(point: Vec3) -> Vec3 {
        let x = scalar::magnitude(point.x as int);
        let y = scalar::magnitude(point.y as int);
        let z = scalar::magnitude(point.z as int);
        if x >= y && x >= z {
            Vec3 { x: point.x, y: 0, z: 0 }
        } else if y >= z {
            Vec3 { x: 0, y: point.y, z: 0 }
        } else {
            Vec3 { x: 0, y: 0, z: point.z }
        }
    }

    pub open spec fn spec_bounds() -> BoundingBox {
        BoundingBox {
            min: Vec3 { x: scalar::NEG_ONE, y: scalar::NEG_ONE, z: scalar::NEG_ONE },
            max: Vec3 { x: scalar::ONE, y: scalar::ONE, z: scalar::ONE },
        }
    }

    pub fn new() -> (cube: Self)
        ensures
            cube == (Cube {  }),
    {
        Cube {  }
    }

    /// `x`, `y` and `z` hold the parameters at which the ray crosses the
    /// cube's two faces across each axis.
    pub fn intersect<'a>(&self, x: Slab, y: Slab, z: Slab, object: &'a Object) -> (xs: Intersections<
        'a,
    >)
        ensures
            xs@ == Cube::spec_intersect(x, y, z, object),
    {
        let (tmin, tmax) = slab_interval(x, y, z);
        let mut xs: Intersections<'a> = Intersections::new();
        if scalar::NEG_INFINITY < tmin && tmin <= tmax && tmax < scalar::INFINITY {
            xs.push(Intersection::new(tmin, object));
            xs.push(Intersection::new(tmax, object));
        }
        assert(xs@ =~= Cube::spec_intersect(x, y, z, object));
        xs
    }

    pub fn normal_at(&self, point: Vec3) -> (normal: Vec3)
        ensures
            normal == Cube::spec_normal_at(point),
    {
        let x: u64 = scalar::abs(point.x);
        let y: u64 = scalar::abs(point.y);
        let z: u64 = scalar::abs(point.z);
        if x >= y && x >= z {
            Vec3::new(point.x, 0, 0)
        } else if y >= z {
            Vec3::new(0, point.y, 0)
        } else {
            Vec3::new(0, 0, point.z)
        }
    }

    pub fn bounds(&self) -> (b: BoundingBox)
        ensures
            b == Cube::spec_bounds(),
    {
        BoundingBox::new(
            Vec3::new(scalar::NEG_ONE, scalar::NEG_ONE, scalar::NEG_ONE),
            Vec3::new(scalar::ONE, scalar::ONE, scalar::ONE),
        )
    }
}

/// A ray meets the cube twice or not at all, and of two intersections the
/// first is not the farther.
pub proof fn lemma_cube_intersections_are_ordered(x: Slab, y: Slab, z: Slab, object: &Object)
    ensures
        Cube::spec_intersect(x, y, z, object).len() == 0 || Cube::spec_intersect(
            x,
            y,
            z,
            object,
        ).len() == 2,
        Cube::spec_intersect(x, y, z, object).len() == 2 ==> Cube::spec_intersect(
            x,
            y,
            z,
            object,
        )[0].t <= Cube::spec_intersect(x, y, z, object)[1].t,
{
}

/// The normal of a cube points along one axis only, and along that axis
/// the point is at least as far from the origin as along the other two.
pub proof fn lemma_cube_normal_is_along_an_axis(point: Vec3)
    ensures
        ({
            let n = Cube::spec_normal_at(point);
            ||| n == (Vec3 { x: point.x, y: 0, z: 0 }) && scalar::magnitude(point.x as int)
                >= scalar::magnitude(point.y as int) && scalar::magnitude(point.x as int)
                >= scalar::magnitude(point.z as int)
            ||| n == (Vec3 { x: 0, y: point.y, z: 0 }) && scalar::magnitude(point.y as int)
                >= scalar::magnitude(point.x as int) && scalar::magnitude(point.y as int)
                >= scalar::magnitude(point.z as int)
            ||| n == (Vec3 { x: 0, y: 0, z: point.z }) && scalar::magnitude(point.z as int)
                >= scalar::magnitude(point.x as int) && scalar::magnitude(point.z as int)
                >= scalar::magnitude(point.y as int)
        }),
{
}

impl Default for Cube {
    fn default() -> (cube: Self)
        ensures
            cube == (Cube {  }),
    {
        Cube {  }
    }
}

} // verus!
