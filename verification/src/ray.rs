//! Rays, and the arithmetic of a ray against the scene.

use vstd::prelude::*;
use crate::bounds::{BoundingBox, Slab, Vec3};
use crate::matrix::Matrix;
use crate::shapes::shape::{Facts, Shape};

verus! {

/// A ray: the point that it starts from and the direction that it goes in.
#[derive(Debug, Clone, Copy, PartialEq, Eq, Structural)]
pub struct Ray {
    pub origin: Vec3,
    pub direction: Vec3,
}

impl Ray {
    pub fn new(origin: Vec3, direction: Vec3) -> (ray: Self)
        ensures
            ray == (Ray { origin, direction }),
    {
        Self { origin, direction }
    }

    /// Whether `moved` is what a matrix makes of the ray: the origin is
    /// mapped as a point and the direction as a vector, which a matrix
    /// moves nowhere. The direction is not brought back to length 1, so that
    /// a parameter of the new ray is one of the old.
    pub open spec fn moves_to<P: Fn(&Matrix, Vec3) -> Vec3, V: Fn(&Matrix, Vec3) -> Vec3>(
        &self,
        mat: &Matrix,
        image: P,
        turn: V,
        moved: Ray,
    ) -> bool {
        &&& image.ensures((mat, self.origin), moved.origin)
        &&& turn.ensures((mat, self.direction), moved.direction)
    }

    /// What a matrix makes of the ray. `image` gives the point that a
    /// matrix makes of a point, and `turn` the vector that it makes of a
    /// vector.
    pub fn transform<P: Fn(&Matrix, Vec3) -> Vec3, V: Fn(&Matrix, Vec3) -> Vec3>(
        &self,
        mat: &Matrix,
        image: &P,
        turn: &V,
    ) -> (moved: Ray)
        requires
            forall|m: &Matrix, p: Vec3| #[trigger] image.requires((m, p)),
            forall|m: &Matrix, p: Vec3| #[trigger] turn.requires((m, p)),
        ensures
            self.moves_to(mat, *image, *turn, moved),
    {
        Ray { origin: image(mat, self.origin), direction: turn(mat, self.direction) }
    }
}

/// A matrix that leaves every point and every vector as it is leaves a ray
/// as it is: an object with such a matrix is met where its shape is met.
pub proof fn lemma_identity_keeps_ray<P: Fn(&Matrix, Vec3) -> Vec3, V: Fn(&Matrix, Vec3) -> Vec3>(
    ray: Ray,
    mat: &Matrix,
    image: P,
    turn: V,
    moved: Ray,
)
    requires
        ray.moves_to(mat, image, turn, moved),
        forall|p: Vec3, q: Vec3| #[trigger] image.ensures((mat, p), q) ==> q == p,
        forall|p: Vec3, q: Vec3| #[trigger] turn.ensures((mat, p), q) ==> q == p,
    ensures
        moved == ray,
{
}

/// The arithmetic of a ray against the scene, which is the caller's:
/// `image` gives the point that a matrix makes of a point, `turn` the vector
/// that a matrix makes of a vector, `facts` the quantities of the equation
/// of a ray with a primitive of a given shape in its own space, and `slabs`
/// the times at which a ray crosses the three pairs of faces of a box.
pub struct Arithmetic<P, V, K, S> {
    pub image: P,
    pub turn: V,
    pub facts: K,
    pub slabs: S,
}

impl<
    P: Fn(&Matrix, Vec3) -> Vec3,
    V: Fn(&Matrix, Vec3) -> Vec3,
    K: Fn(&Shape, &Ray) -> Facts,
    S: Fn(&BoundingBox, &Ray) -> (Slab, Slab, Slab),
> Arithmetic<P, V, K, S> {
    /// Every part of the arithmetic can be asked anything.
    pub open spec fn ready(&self) -> bool {
        &&& forall|m: &Matrix, p: Vec3| #[trigger] self.image.requires((m, p))
        &&& forall|m: &Matrix, p: Vec3| #[trigger] self.turn.requires((m, p))
        &&& forall|s: &Shape, r: &Ray| #[trigger] self.facts.requires((s, r))
        &&& forall|b: &BoundingBox, r: &Ray| #[trigger] self.slabs.requires((b, r))
    }
}

} // verus!
