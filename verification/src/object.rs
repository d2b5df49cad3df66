use vstd::prelude::*;
use crate::bounds::{BoundingBox, Vec3};
use crate::material::Material;
use crate::matrix::Matrix;
use crate::shapes::shape::Curve;
use crate::shapes::Shape;
use crate::transformations::Transform;

verus! {

/// A renderable of the scene: a shape with its material, its transform,
/// its shadow flag, and its box in the world.
///
/// `id` names the object: two intersections are on the same object where
/// the ids are equal, so the primitives of a scene go under different ids.
/// `shadow` says whether the object occludes shadow rays. `bounds` is the
/// shape's own box mapped through the object's transform. A group or a mesh
/// has no transform of its own: one applied to it is handed down to its
/// children, and its box is the union of theirs.
#[derive(Debug, PartialEq)]
pub struct Object {
    pub id: usize,
    pub shape: Shape,
    pub material: Material,
    pub transform: Transform,
    pub shadow: bool,
    pub bounds: BoundingBox,
}

impl Object {
    /// Whether the object is as new: under the id 0, of the default
    /// material, where its shape stands, casting shadows.
    pub open spec fn is_new(self, shape: Shape) -> bool {
        &&& self.id == 0
        &&& self.shape == shape
        &&& self.material.is_default()
        &&& self.transform.is_identity()
        &&& self.transform.consistent()
        &&& self.shadow
        &&& self.bounds == shape.spec_bounds()
    }

    pub fn new(shape: Shape) -> (object: Self)
        ensures
            object.is_new(shape),
    {
        let bounds: BoundingBox = shape.bounds();
        Object {
            id: 0,
            shape,
            material: Material::default(),
            transform: Transform::default(),
            shadow: true,
            bounds,
        }
    }

    pub fn with_id(self, id: usize) -> (object: Self)
        ensures
            object == (Object { id, ..self }),
    {
        Object { id, ..self }
    }

    pub fn with_shadow(self, shadow: bool) -> (object: Self)
        ensures
            object == (Object { shadow, ..self }),
    {
        Object { shadow, ..self }
    }

    pub fn id(&self) -> (id: usize)
        ensures
            id == self.id,
    {
        self.id
    }

    pub fn shape(&self) -> (shape: &Shape)
        ensures
            *shape == self.shape,
    {
        &self.shape
    }

    pub fn material(&self) -> (material: &Material)
        ensures
            *material == self.material,
    {
        &self.material
    }

    pub fn material_mut(&mut self) -> (material: &mut Material)
        ensures
            *material == old(self).material,
            *final(self) == (Object { material: *final(material), ..*old(self) }),
    {
        &mut self.material
    }

    pub fn shadow(&self) -> (shadow: bool)
        ensures
            shadow == self.shadow,
    {
        self.shadow
    }

    pub fn transform(&self) -> (transform: &Transform)
        ensures
            *transform == self.transform,
    {
        &self.transform
    }

    pub fn inverse_transform(&self) -> (matrix: &Matrix)
        ensures
            *matrix == self.transform.inverse_matrix,
    {
        &self.transform.inverse_matrix
    }

    /// Whether `normal` is the normal of the object at a point of the
    /// world: the point is taken to the space of the object by the inverse
    /// of its matrix, the shape gives its normal there, and the transpose of
    /// the inverse takes that normal to the world, where it is brought to
    /// length 1.
    pub open spec fn normal_is<
        M: Fn(&Matrix, Vec3) -> Vec3,
        F: Fn(&Shape, Vec3, i64, i64) -> Curve,
        W: Fn(&Matrix, Vec3) -> Vec3,
    >(&self, world_point: Vec3, u: i64, v: i64, image: M, curved: F, to_world: W, normal: Vec3) -> bool {
        exists|object_point: Vec3, object_normal: Vec3|
            {
                &&& image.ensures((&self.transform.inverse_matrix, world_point), object_point)
                &&& #[trigger] self.shape.normal_is(object_point, u, v, curved, object_normal)
                &&& to_world.ensures(
                    (&self.transform.inverse_transpose_matrix, object_normal),
                    normal,
                )
            }
    }

    /// The point of the object's own space that is a point of the world.
    /// `image` gives the point that a matrix makes of a point.
    pub fn world_to_object<M: Fn(&Matrix, Vec3) -> Vec3>(&self, world_point: Vec3, image: &M) -> (point:
        Vec3)
        requires
            forall|m: &Matrix, p: Vec3| #[trigger] image.requires((m, p)),
        ensures
            image.ensures((&self.transform.inverse_matrix, world_point), point),
    {
        image(&self.transform.inverse_matrix, world_point)
    }

    /// The normal of the object at a point of the world. `image` gives the
    /// point that a matrix makes of a point, `curved` the normal of a
    /// curved or tilted shape in its own space, and `to_world` the vector of
    /// length 1 along what a matrix makes of a vector.
    pub fn normal_at<
        M: Fn(&Matrix, Vec3) -> Vec3,
        F: Fn(&Shape, Vec3, i64, i64) -> Curve,
        W: Fn(&Matrix, Vec3) -> Vec3,
    >(&self, world_point: Vec3, u: i64, v: i64, image: &M, curved: &F, to_world: &W) -> (normal:
        Vec3)
        requires
            forall|m: &Matrix, p: Vec3| #[trigger] image.requires((m, p)),
            forall|s: &Shape, p: Vec3, a: i64, b: i64| #[trigger] curved.requires((s, p, a, b)),
            forall|m: &Matrix, p: Vec3| #[trigger] to_world.requires((m, p)),
        ensures
            self.normal_is(world_point, u, v, *image, *curved, *to_world, normal),
    {
        let object_point: Vec3 = self.world_to_object(world_point, image);
        let object_normal: Vec3 = self.shape.normal_at(object_point, u, v, curved);
        to_world(&self.transform.inverse_transpose_matrix, object_normal)
    }

    pub fn bounds(&self) -> (bounds: &BoundingBox)
        ensures
            *bounds == self.bounds,
    {
        &self.bounds
    }
}

} // verus!
