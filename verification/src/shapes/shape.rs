use vstd::prelude::*;
use crate::bounds::{BoundingBox, Slab, Vec3};
use crate::intersection::{Intersection, Intersections};
use crate::object::Object;
use crate::scalar;
use crate::shapes::cube::Cube;
use crate::shapes::cylinder::{CapReach, Cylinder, CylinderRay};
use crate::shapes::group::Group;
use crate::shapes::mesh::Mesh;
use crate::shapes::plane::Plane;
use crate::shapes::smooth_triangle::SmoothTriangle;
use crate::shapes::sphere::{Roots, Sphere};
use crate::shapes::triangle::{PlaneCrossing, Triangle};

verus! {

/// The closed family of shapes.
#[derive(Debug, PartialEq)]
pub enum Shape {
    Sphere(Sphere),
    Plane(Plane),
    Cube(Cube),
    Cylinder(Cylinder),
    Triangle(Triangle),
    SmoothTriangle(SmoothTriangle),
    Mesh(Mesh),
    Group(Group),
}

/// The quantities of the equation of a ray with a primitive in its own
/// space, for each kind of primitive. A plane takes the y component of the
/// ray's direction and the parameter at which the ray has the height 0; a
/// cube takes the times at which the ray crosses its three pairs of faces.
#[derive(Clone, Copy, Debug, PartialEq, Eq, Structural)]
pub enum Facts {
    Sphere(Roots),
    Plane { direction_y: i64, t: i64 },
    Cube(Slab, Slab, Slab),
    Cylinder(CylinderRay),
    Triangle(PlaneCrossing),
    Nothing,
}

/// What the caller's arithmetic gives for the normal of a shape that is
/// curved or tilted: the normal itself, as of a triangle, or where the point
/// lies about a cylinder.
#[derive(Clone, Copy, Debug, PartialEq, Eq, Structural)]
pub enum Curve {
    Normal(Vec3),
    Reach(CapReach),
}

impl Shape {
    /// The intersections of a ray with the shape in its own space, from the
    /// quantities of the ray's equation. Quantities of another kind than
    /// the shape's give none, and a group or a mesh has none of its own.
    pub open spec fn spec_intersect<'a>(&self, facts: Facts, object: &'a Object) -> Seq<
        Intersection<'a>,
    > {
        match (*self, facts) {
            (Shape::Sphere(_), Facts::Sphere(roots)) => Sphere::spec_intersect(&roots, object),
            (Shape::Plane(_), Facts::Plane { direction_y, t }) => Plane::spec_intersect(
                direction_y,
                t,
                object,
            ),
            (Shape::Cube(_), Facts::Cube(x, y, z)) => Cube::spec_intersect(x, y, z, object),
            (Shape::Cylinder(c), Facts::Cylinder(ray)) => c.spec_intersect(&ray, object),
            (Shape::Triangle(_), Facts::Triangle(crossing)) => Triangle::spec_intersect(
                &crossing,
                object,
            ),
            (Shape::SmoothTriangle(_), Facts::Triangle(crossing)) => Triangle::spec_intersect(
                &crossing,
                object,
            ),
            _ => Seq::empty(),
        }
    }

    pub fn intersect<'a>(&self, facts: &Facts, object: &'a Object) -> (xs: Intersections<'a>)
        ensures
            xs@ == self.spec_intersect(*facts, object),
    {
        match (self, facts) {
            (Shape::Sphere(s), Facts::Sphere(roots)) => s.intersect(roots, object),
            (Shape::Plane(p), Facts::Plane { direction_y, t }) => p.intersect(
                *direction_y,
                *t,
                object,
            ),
            (Shape::Cube(c), Facts::Cube(x, y, z)) => c.intersect(*x, *y, *z, object),
            (Shape::Cylinder(c), Facts::Cylinder(ray)) => c.intersect(ray, object),
            (Shape::Triangle(t), Facts::Triangle(crossing)) => t.intersect(crossing, object),
            (Shape::SmoothTriangle(t), Facts::Triangle(crossing)) => t.intersect(crossing, object),
            _ => Intersections::new(),
        }
    }

    /// The box around the shape in its own frame.
    pub open spec fn spec_bounds(&self) -> BoundingBox {
        match self {
            Shape::Sphere(_) => Sphere::spec_bounds(),
            Shape::Plane(_) => Plane::spec_bounds(),
            Shape::Cube(_) => Cube::spec_bounds(),
            Shape::Cylinder(c) => c.spec_bounds(),
            Shape::Triangle(t) => t.spec_bounds(),
            Shape::SmoothTriangle(t) => t.triangle.spec_bounds(),
            Shape::Mesh(m) => m.spec_bounds(),
            Shape::Group(g) => g.spec_bounds(),
        }
    }

    /// The normal that the caller's arithmetic stands for: the normal that
    /// it gives, and for a cylinder the normal at the point, where it says
    /// where the point lies about the cylinder. What it says of a cylinder
    /// stands for no normal of another shape.
    pub open spec fn normal_from(&self, point: Vec3, curve: Curve) -> Vec3 {
        match curve {
            Curve::Normal(normal) => normal,
            Curve::Reach(reach) => match self {
                Shape::Cylinder(_) => Cylinder::spec_normal_at(point, reach),
                _ => Vec3 { x: 0, y: 0, z: 0 },
            },
        }
    }

    /// Whether `normal` is the normal of the shape, in its own space, at a
    /// point of its surface. A sphere, a plane and a cube have their own. A
    /// group or a mesh has no surface of its own, and no normal. For a
    /// cylinder and the triangles `curved` gives the normal, or what it
    /// follows from.
    pub open spec fn normal_is<F: Fn(&Shape, Vec3, i64, i64) -> Curve>(
        &self,
        point: Vec3,
        u: i64,
        v: i64,
        curved: F,
        normal: Vec3,
    ) -> bool {
        match self {
            Shape::Sphere(_) => normal == point,
            Shape::Plane(_) => normal == (Vec3 { x: 0, y: scalar::ONE, z: 0 }),
            Shape::Cube(_) => normal == Cube::spec_normal_at(point),
            Shape::Mesh(_) | Shape::Group(_) => normal == (Vec3 { x: 0, y: 0, z: 0 }),
            _ => exists|curve: Curve|
                {
                    &&& #[trigger] curved.ensures((self, point, u, v), curve)
                    &&& normal == self.normal_from(point, curve)
                },
        }
    }

    /// The normal of the shape, in its own space, at a point of its
    /// surface; `u` and `v` say where on a triangle the point lies.
    pub fn normal_at<F: Fn(&Shape, Vec3, i64, i64) -> Curve>(
        &self,
        point: Vec3,
        u: i64,
        v: i64,
        curved: &F,
    ) -> (normal: Vec3)
        requires
            forall|s: &Shape, p: Vec3, a: i64, b: i64| #[trigger] curved.requires((s, p, a, b)),
        ensures
            self.normal_is(point, u, v, *curved, normal),
    {
        match self {
            Shape::Sphere(s) => s.normal_at(point),
            Shape::Plane(p) => p.normal_at(point),
            Shape::Cube(c) => c.normal_at(point),
            Shape::Mesh(_) | Shape::Group(_) => Vec3::new(0, 0, 0),
            Shape::Cylinder(c) => {
                let curve: Curve = curved(self, point, u, v);
                match curve {
                    Curve::Normal(normal) => normal,
                    Curve::Reach(reach) => c.normal_at(point, &reach),
                }
            },
            Shape::Triangle(_) | Shape::SmoothTriangle(_) => {
                let curve: Curve = curved(self, point, u, v);
                match curve {
                    Curve::Normal(normal) => normal,
                    Curve::Reach(_) => Vec3::new(0, 0, 0),
                }
            },
        }
    }

    pub fn bounds(&self) -> (b: BoundingBox)
        ensures
            b == self.spec_bounds(),
    {
        match self {
            Shape::Sphere(s) => s.bounds(),
            Shape::Plane(p) => p.bounds(),
            Shape::Cube(c) => c.bounds(),
            Shape::Cylinder(c) => c.bounds(),
            Shape::Triangle(t) => t.bounds(),
            Shape::SmoothTriangle(t) => t.bounds(),
            Shape::Mesh(m) => m.bounds(),
            Shape::Group(g) => g.bounds(),
        }
    }

    pub fn as_group(&self) -> (group: Option<&Group>)
        ensures
            match *self {
                Shape::Group(g) => group == Some(&g),
                _ => group is None,
            },
    {
        match self {
            Shape::Group(g) => Some(g),
            _ => None,
        }
    }

    pub fn as_group_mut(&mut self) -> (group: Option<&mut Group>)
        ensures
            match *old(self) {
                Shape::Group(g) => group is Some && *group.unwrap() == g && *final(self)
                    == Shape::Group(*final(group.unwrap())),
                _ => group is None && *final(self) == *old(self),
            },
    {
        match self {
            Shape::Group(g) => Some(g),
            _ => None,
        }
    }
}

} // verus!
