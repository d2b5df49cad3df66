//! The scene graph: what is handed down from a group or a mesh to what is
//! under it, and copies of the whole.

use vstd::prelude::*;
use crate::bounds::{BoundingBox, Vec3};
use crate::hierarchy::leaves_of;
use crate::material::Material;
use crate::matrix::Matrix;
use crate::object::Object;
use crate::shapes::group::Group;
use crate::shapes::mesh::Mesh;
use crate::shapes::shape::Shape;
use crate::transformations::Transform;

verus! {

/// Whether `after` is the object `before` made of the given material. A
/// mesh hands the material on to its triangles; any other object keeps its
/// shape as it is.
pub open spec fn repainted(before: Object, after: Object, material: Material) -> bool
    decreases before, 1nat,
{
    &&& after.id == before.id
    &&& after.material == material
    &&& after.transform == before.transform
    &&& after.shadow == before.shadow
    &&& after.bounds == before.bounds
    &&& match before.shape {
        Shape::Mesh(m) => after.shape matches Shape::Mesh(h) && repainted_each(m@, h@, material),
        _ => after.shape == before.shape,
    }
}

/// Whether each of the objects `after` is the object at the same place of
/// `before` made of the given material.
pub open spec fn repainted_each(before: Seq<Object>, after: Seq<Object>, material: Material) -> bool
    decreases before, 0nat,
{
    &&& after.len() == before.len()
    &&& forall|i: int| 0 <= i < before.len() ==> repainted(before[i], #[trigger] after[i], material)
}

/// Whether `bounds` is the box in the world of a shape with the box `local`
/// of its own, under a matrix: the box around the points that the matrix
/// makes of the eight corners.
pub open spec fn placed<M: Fn(&Matrix, Vec3) -> Vec3>(
    local: BoundingBox,
    matrix: Matrix,
    image: M,
    bounds: BoundingBox,
) -> bool {
    exists|images: Seq<Vec3>|
        {
            &&& images.len() == 8
            &&& forall|i: int|
                0 <= i < 8 ==> image.ensures((&matrix, local.spec_corners()[i]), #[trigger] images[i])
            &&& bounds == #[trigger] BoundingBox::enclosing(images)
        }
}

/// Whether `after` is the object `before` with a transform applied. A
/// primitive has the transform follow its own, and gets the box that its new
/// transform gives it. A group or a mesh hands the transform down to its
/// children; it keeps no transform of its own, and its box is the union of
/// the boxes that its children then have.
pub open spec fn transformed<
    X: Fn(&Matrix, &Matrix) -> Matrix,
    I: Fn(&Matrix) -> Matrix,
    M: Fn(&Matrix, Vec3) -> Vec3,
>(
    before: Object,
    after: Object,
    transform: Transform,
    multiply: X,
    invert: I,
    image: M,
) -> bool
    decreases before, 1nat,
{
    &&& after.id == before.id
    &&& after.material == before.material
    &&& after.shadow == before.shadow
    &&& match before.shape {
        Shape::Group(g) => {
            &&& after.shape matches Shape::Group(h) && transformed_each(
                g@,
                h@,
                transform,
                multiply,
                invert,
                image,
            ) && after.bounds == Group::union_of(h@)
            &&& after.transform.is_identity()
            &&& after.transform.consistent()
        },
        Shape::Mesh(m) => {
            &&& after.shape matches Shape::Mesh(h) && transformed_each(
                m@,
                h@,
                transform,
                multiply,
                invert,
                image,
            ) && after.bounds == Group::union_of(h@)
            &&& after.transform.is_identity()
            &&& after.transform.consistent()
        },
        _ => {
            &&& after.shape == before.shape
            &&& after.transform.follows(before.transform, transform.matrix, multiply, invert)
            &&& placed(after.shape.spec_bounds(), after.transform.matrix, image, after.bounds)
        },
    }
}

/// Whether each of the objects `after` is the object at the same place of
/// `before` with a transform applied.
pub open spec fn transformed_each<
    X: Fn(&Matrix, &Matrix) -> Matrix,
    I: Fn(&Matrix) -> Matrix,
    M: Fn(&Matrix, Vec3) -> Vec3,
>(before: Seq<Object>, after: Seq<Object>, transform: Transform, multiply: X, invert: I, image: M) -> bool
    decreases before, 0nat,
{
    &&& after.len() == before.len()
    &&& forall|i: int|
        0 <= i < before.len() ==> transformed(
            before[i],
            #[trigger] after[i],
            transform,
            multiply,
            invert,
            image,
        )
}

/// The box in the world of a shape with the box `local` of its own, under a
/// matrix.
pub fn place<M: Fn(&Matrix, Vec3) -> Vec3>(local: BoundingBox, matrix: &Matrix, image: &M) -> (bounds:
    BoundingBox)
    requires
        forall|m: &Matrix, p: Vec3| #[trigger] image.requires((m, p)),
    ensures
        placed(local, *matrix, *image, bounds),
{
    let map = |corner: Vec3| -> (moved: Vec3)
        requires
            image.requires((matrix, corner)),
        ensures
            image.ensures((matrix, corner), moved),
        { image(matrix, corner) };
    let bounds: BoundingBox = local.transform(map);
    proof {
        let images = choose|images: Seq<Vec3>|
            {
                &&& #[trigger] crate::bounds::maps_onto(map, local.spec_corners(), images)
                &&& bounds == BoundingBox::enclosing(images)
            };
        assert forall|i: int| 0 <= i < 8 implies image.ensures(
            (matrix, local.spec_corners()[i]),
            #[trigger] images[i],
        ) by {
            assert(map.ensures((local.spec_corners()[i],), images[i]));
        }
        assert(bounds == BoundingBox::enclosing(images));
    }
    bounds
}

impl Object {
    /// Makes the object of the given material. A mesh hands the material on
    /// to its triangles.
    pub fn set_material(&mut self, material: Material)
        ensures
            repainted(*old(self), *final(self), material),
        decreases *old(self),
    {
        self.material = material;
        match &mut self.shape {
            Shape::Mesh(m) => {
                let ghost before = m@;
                let n: usize = m.triangle_group.objects.len();
                let mut i: usize = 0;
                while i < n
                    invariant
                        i <= n,
                        n == before.len(),
                        m@.len() == n,
                        old(self).shape matches Shape::Mesh(o) && o@ == before,
                        forall|j: int| i <= j < n ==> m@[j] == before[j],
                        forall|j: int| 0 <= j < i ==> repainted(before[j], #[trigger] m@[j], material),
                    decreases n - i,
                {
                    proof {
                        assert(m@[i as int] == before[i as int]);
                        assert(decreases_to!(before => before[i as int]));
                        assert(decreases_to!(*old(self) => before));
                    }
                    m.triangle_group.objects[i].set_material(material);
                    i += 1;
                }
            },
            _ => {},
        }
    }

    /// The object made of the given material.
    pub fn with_material(self, material: Material) -> (object: Self)
        ensures
            repainted(self, object, material),
    {
        let mut object = self;
        object.set_material(material);
        object
    }

    /// Applies a transform to the object. `multiply` gives the product of
    /// two matrices, `invert` the inverse of one, and `image` the point that
    /// a matrix makes of a point. The transform follows the one that a
    /// primitive had: its matrix is multiplied onto that one from the left.
    pub fn apply_transform<
        X: Fn(&Matrix, &Matrix) -> Matrix,
        I: Fn(&Matrix) -> Matrix,
        M: Fn(&Matrix, Vec3) -> Vec3,
    >(&mut self, transform: &Transform, multiply: &X, invert: &I, image: &M)
        requires
            forall|a: &Matrix, b: &Matrix| #[trigger] multiply.requires((a, b)),
            forall|m: &Matrix| #[trigger] invert.requires((m,)),
            forall|m: &Matrix, p: Vec3| #[trigger] image.requires((m, p)),
        ensures
            transformed(*old(self), *final(self), *transform, *multiply, *invert, *image),
        decreases *old(self), 1nat,
    {
        match &mut self.shape {
            Shape::Group(g) => {
                apply_to_each(&mut g.objects, transform, multiply, invert, image);
                self.transform = Transform::identity();
                self.bounds = self.shape.bounds();
            },
            Shape::Mesh(m) => {
                apply_to_each(&mut m.triangle_group.objects, transform, multiply, invert, image);
                self.transform = Transform::identity();
                self.bounds = self.shape.bounds();
            },
            _ => {
                let new_transform: Transform = self.transform.apply(transform, multiply, invert);
                self.bounds = place(self.shape.bounds(), &new_transform.matrix, image);
                self.transform = new_transform;
            },
        }
    }

    /// The object with a transform in place of the one it has. A group or a
    /// mesh, which has none of its own, has the transform applied to its
    /// children.
    pub fn with_transform<
        X: Fn(&Matrix, &Matrix) -> Matrix,
        I: Fn(&Matrix) -> Matrix,
        M: Fn(&Matrix, Vec3) -> Vec3,
    >(self, transform: Transform, multiply: &X, invert: &I, image: &M) -> (object: Self)
        requires
            forall|a: &Matrix, b: &Matrix| #[trigger] multiply.requires((a, b)),
            forall|m: &Matrix| #[trigger] invert.requires((m,)),
            forall|m: &Matrix, p: Vec3| #[trigger] image.requires((m, p)),
        ensures
            match self.shape {
                Shape::Group(_) | Shape::Mesh(_) => transformed(
                    self,
                    object,
                    transform,
                    *multiply, *invert,
                    *image,
                ),
                _ => {
                    &&& object.id == self.id
                    &&& object.shape == self.shape
                    &&& object.material == self.material
                    &&& object.shadow == self.shadow
                    &&& object.transform == transform
                    &&& placed(self.shape.spec_bounds(), transform.matrix, *image, object.bounds)
                },
            },
    {
        let mut object = self;
        match &object.shape {
            Shape::Group(_) | Shape::Mesh(_) => {
                object.apply_transform(&transform, multiply, invert, image);
            },
            _ => {
                object.bounds = place(object.shape.bounds(), &transform.matrix, image);
                object.transform = transform;
            },
        }
        object
    }
}

/// Applies a transform to each of some objects.
fn apply_to_each<X: Fn(&Matrix, &Matrix) -> Matrix,
    I: Fn(&Matrix) -> Matrix, M: Fn(&Matrix, Vec3) -> Vec3>(
    objects: &mut Vec<Object>,
    transform: &Transform,
    multiply: &X,
    invert: &I,
    image: &M,
)
    requires
        forall|a: &Matrix, b: &Matrix| #[trigger] multiply.requires((a, b)),
            forall|m: &Matrix| #[trigger] invert.requires((m,)),
        forall|m: &Matrix, p: Vec3| #[trigger] image.requires((m, p)),
    ensures
        transformed_each(old(objects)@, final(objects)@, *transform, *multiply, *invert, *image),
    decreases *old(objects), 0nat,
{
    let ghost before = objects@;
    let n: usize = objects.len();
    let mut i: usize = 0;
    while i < n
        invariant
            i <= n,
            n == before.len(),
            objects@.len() == n,
            before == old(objects)@,
            forall|a: &Matrix, b: &Matrix| #[trigger] multiply.requires((a, b)),
            forall|m: &Matrix| #[trigger] invert.requires((m,)),
            forall|m: &Matrix, p: Vec3| #[trigger] image.requires((m, p)),
            forall|j: int| i <= j < n ==> objects@[j] == before[j],
            forall|j: int|
                0 <= j < i ==> transformed(
                    before[j],
                    #[trigger] objects@[j],
                    *transform,
                    *multiply, *invert,
                    *image,
                ),
        decreases n - i,
    {
        proof {
            assert(objects@[i as int] == before[i as int]);
            assert(decreases_to!(before => before[i as int]));
            assert(decreases_to!(*old(objects) => before));
        }
        objects[i].apply_transform(transform, multiply, invert, image);
        i += 1;
    }
}

/// A matrix that leaves every point where it is leaves a box as it is: the
/// box in the world of a shape under such a matrix is the shape's own box,
/// where that box holds a point and its corners are numbers.
pub proof fn lemma_identity_keeps_box<M: Fn(&Matrix, Vec3) -> Vec3>(
    local: BoundingBox,
    matrix: Matrix,
    image: M,
    bounds: BoundingBox,
)
    requires
        placed(local, matrix, image, bounds),
        forall|p: Vec3, q: Vec3| #[trigger] image.ensures((&matrix, p), q) ==> q == p,
        local.min.at_most(local.max),
        local.min.is_number(),
        local.max.is_number(),
    ensures
        bounds == local,
{
    let images = choose|images: Seq<Vec3>|
        {
            &&& images.len() == 8
            &&& forall|i: int|
                0 <= i < 8 ==> image.ensures((&matrix, local.spec_corners()[i]), #[trigger] images[i])
            &&& bounds == #[trigger] BoundingBox::enclosing(images)
        };
    assert(images =~= local.spec_corners());
    crate::bounds::lemma_corners_span_box(local);
}

/// Whether an object is as a transform leaves it: a primitive has the
/// inverse that `invert` gives of its matrix, and the box that its matrix
/// gives the box of its shape; a group or a mesh has no transform of its
/// own, its box is the union of the boxes of its children, and its children
/// are as a transform leaves them.
pub open spec fn settled<I: Fn(&Matrix) -> Matrix, M: Fn(&Matrix, Vec3) -> Vec3>(
    object: Object,
    invert: I,
    image: M,
) -> bool
    decreases object, 1nat,
{
    match object.shape {
        Shape::Group(g) => {
            &&& object.transform.is_identity()
            &&& object.transform.consistent()
            &&& object.bounds == Group::union_of(g@)
            &&& settled_each(g@, invert, image)
        },
        Shape::Mesh(m) => {
            &&& object.transform.is_identity()
            &&& object.transform.consistent()
            &&& object.bounds == Group::union_of(m@)
            &&& settled_each(m@, invert, image)
        },
        _ => {
            &&& object.transform.made_of(object.transform.matrix, invert)
            &&& placed(object.shape.spec_bounds(), object.transform.matrix, image, object.bounds)
        },
    }
}

/// Whether each of some objects is as a transform leaves it.
pub open spec fn settled_each<I: Fn(&Matrix) -> Matrix, M: Fn(&Matrix, Vec3) -> Vec3>(
    objects: Seq<Object>,
    invert: I,
    image: M,
) -> bool
    decreases objects, 0nat,
{
    forall|i: int| 0 <= i < objects.len() ==> settled(#[trigger] objects[i], invert, image)
}

/// Whether the arithmetic of matrices is that of functions, for which the
/// given matrix moves nothing: `invert` and `image` give one result for
/// each question, and `multiply` makes of the matrix and another the other.
pub open spec fn neutral<
    X: Fn(&Matrix, &Matrix) -> Matrix,
    I: Fn(&Matrix) -> Matrix,
    M: Fn(&Matrix, Vec3) -> Vec3,
>(matrix: Matrix, multiply: X, invert: I, image: M) -> bool {
    &&& forall|m: Matrix, product: Matrix| #[trigger]
        multiply.ensures((&matrix, &m), product) ==> product == m
    &&& forall|m: Matrix, a: Matrix, b: Matrix|
        #![trigger invert.ensures((&m,), a), invert.ensures((&m,), b)]
        invert.ensures((&m,), a) && invert.ensures((&m,), b) ==> a == b
    &&& forall|m: Matrix, p: Vec3, a: Vec3, b: Vec3|
        #![trigger image.ensures((&m, p), a), image.ensures((&m, p), b)]
        image.ensures((&m, p), a) && image.ensures((&m, p), b) ==> a == b
}

/// The box that a matrix gives a box is one box, where the arithmetic gives
/// one image of a point.
proof fn lemma_placed_once<M: Fn(&Matrix, Vec3) -> Vec3>(
    local: BoundingBox,
    matrix: Matrix,
    image: M,
    first: BoundingBox,
    second: BoundingBox,
)
    requires
        placed(local, matrix, image, first),
        placed(local, matrix, image, second),
        forall|m: Matrix, p: Vec3, a: Vec3, b: Vec3|
            #![trigger image.ensures((&m, p), a), image.ensures((&m, p), b)]
            image.ensures((&m, p), a) && image.ensures((&m, p), b) ==> a == b,
    ensures
        first == second,
{
    let one = choose|images: Seq<Vec3>|
        {
            &&& images.len() == 8
            &&& forall|i: int|
                0 <= i < 8 ==> image.ensures((&matrix, local.spec_corners()[i]), #[trigger] images[i])
            &&& first == #[trigger] BoundingBox::enclosing(images)
        };
    let other = choose|images: Seq<Vec3>|
        {
            &&& images.len() == 8
            &&& forall|i: int|
                0 <= i < 8 ==> image.ensures((&matrix, local.spec_corners()[i]), #[trigger] images[i])
            &&& second == #[trigger] BoundingBox::enclosing(images)
        };
    assert forall|i: int| 0 <= i < 8 implies one[i] == other[i] by {
        assert(image.ensures((&matrix, local.spec_corners()[i]), one[i]));
        assert(image.ensures((&matrix, local.spec_corners()[i]), other[i]));
    }
    assert(one =~= other);
}

/// Objects that are alike, one by one, have the same union of boxes.
proof fn lemma_alike_have_one_union(a: Seq<Object>, b: Seq<Object>)
    requires
        alike_each(a, b),
    ensures
        Group::union_of(a) == Group::union_of(b),
    decreases a.len(),
{
    if a.len() > 0 {
        assert(alike(a.last(), b.last()));
        assert forall|i: int| 0 <= i < a.drop_last().len() implies alike(
            a.drop_last()[i],
            #[trigger] b.drop_last()[i],
        ) by {
            assert(alike(a[i], b[i]));
        }
        lemma_alike_have_one_union(a.drop_last(), b.drop_last());
    }
}

/// Applying the transform that moves nothing leaves an object as it is: its
/// transform, its box, and all that is under it. This holds of an object as
/// a transform leaves it, and of arithmetic for which the matrix of the
/// transform moves nothing.
pub proof fn lemma_identity_keeps_object<
    X: Fn(&Matrix, &Matrix) -> Matrix,
    I: Fn(&Matrix) -> Matrix,
    M: Fn(&Matrix, Vec3) -> Vec3,
>(before: Object, after: Object, transform: Transform, multiply: X, invert: I, image: M)
    requires
        transformed(before, after, transform, multiply, invert, image),
        settled(before, invert, image),
        neutral(transform.matrix, multiply, invert, image),
    ensures
        alike(before, after),
    decreases before, 1nat,
{
    match before.shape {
        Shape::Group(g) => {
            let h = after.shape->Group_0;
            lemma_identity_keeps_objects(g@, h@, transform, multiply, invert, image);
            lemma_alike_have_one_union(g@, h@);
            lemma_identities_are_one(before.transform, after.transform);
        },
        Shape::Mesh(m) => {
            let h = after.shape->Mesh_0;
            lemma_identity_keeps_objects(m@, h@, transform, multiply, invert, image);
            lemma_alike_have_one_union(m@, h@);
            lemma_identities_are_one(before.transform, after.transform);
        },
        _ => {
            assert(after.transform.matrix == before.transform.matrix);
            assert(after.transform.inverse_matrix == before.transform.inverse_matrix);
            assert(after.transform.inverse_transpose_matrix.cols
                =~= before.transform.inverse_transpose_matrix.cols);
            assert(after.transform == before.transform);
            lemma_placed_once(
                before.shape.spec_bounds(),
                before.transform.matrix,
                image,
                before.bounds,
                after.bounds,
            );
        },
    }
}

/// Applying the transform that moves nothing leaves each of some objects
/// as it is.
pub proof fn lemma_identity_keeps_objects<
    X: Fn(&Matrix, &Matrix) -> Matrix,
    I: Fn(&Matrix) -> Matrix,
    M: Fn(&Matrix, Vec3) -> Vec3,
>(before: Seq<Object>, after: Seq<Object>, transform: Transform, multiply: X, invert: I, image: M)
    requires
        transformed_each(before, after, transform, multiply, invert, image),
        settled_each(before, invert, image),
        neutral(transform.matrix, multiply, invert, image),
    ensures
        alike_each(before, after),
    decreases before, 0nat,
{
    assert forall|i: int| 0 <= i < before.len() implies alike(before[i], #[trigger] after[i]) by {
        lemma_identity_keeps_object(before[i], after[i], transform, multiply, invert, image);
    }
}

/// Two transforms that move nothing are one transform.
proof fn lemma_identities_are_one(a: Transform, b: Transform)
    requires
        a.is_identity(),
        b.is_identity(),
    ensures
        a == b,
{
    assert(a.matrix.cols =~= b.matrix.cols);
    assert(a.inverse_matrix.cols =~= b.inverse_matrix.cols);
    assert(a.inverse_transpose_matrix.cols =~= b.inverse_transpose_matrix.cols);
}

/// Whether the corners of the boxes of all the primitives under an object
/// are numbers.
pub open spec fn in_numbers(object: Object) -> bool
    decreases object, 1nat,
{
    match object.shape {
        Shape::Group(g) => each_in_numbers(g@),
        Shape::Mesh(m) => each_in_numbers(m@),
        _ => object.bounds.min.is_number() && object.bounds.max.is_number(),
    }
}

/// Whether the corners of the boxes of all the primitives under some
/// objects are numbers.
pub open spec fn each_in_numbers(objects: Seq<Object>) -> bool
    decreases objects, 0nat,
{
    forall|i: int| 0 <= i < objects.len() ==> in_numbers(#[trigger] objects[i])
}

/// An object that a transform was applied to has boxes that can be relied
/// on, where the arithmetic gave numbers for the corners of the boxes of its
/// primitives: the box of every group under it is the union of the boxes of
/// the children of the group.
pub proof fn lemma_transformed_is_boxed<
    X: Fn(&Matrix, &Matrix) -> Matrix,
    I: Fn(&Matrix) -> Matrix,
    M: Fn(&Matrix, Vec3) -> Vec3,
>(before: Object, after: Object, transform: Transform, multiply: X, invert: I, image: M)
    requires
        transformed(before, after, transform, multiply, invert, image),
        in_numbers(after),
    ensures
        after.boxed(),
    decreases before, 1nat,
{
    match before.shape {
        Shape::Group(g) => {
            let h = after.shape->Group_0;
            lemma_transformed_are_boxed(g@, h@, transform, multiply, invert, image);
            crate::hierarchy::lemma_union_boxes_a_group(after);
        },
        Shape::Mesh(m) => {
            let h = after.shape->Mesh_0;
            lemma_transformed_are_boxed(m@, h@, transform, multiply, invert, image);
            crate::hierarchy::lemma_union_boxes_a_group(after);
        },
        _ => {},
    }
}

/// The same of a row of objects that a transform was applied to.
pub proof fn lemma_transformed_are_boxed<
    X: Fn(&Matrix, &Matrix) -> Matrix,
    I: Fn(&Matrix) -> Matrix,
    M: Fn(&Matrix, Vec3) -> Vec3,
>(before: Seq<Object>, after: Seq<Object>, transform: Transform, multiply: X, invert: I, image: M)
    requires
        transformed_each(before, after, transform, multiply, invert, image),
        each_in_numbers(after),
    ensures
        forall|i: int| 0 <= i < after.len() ==> (#[trigger] after[i]).boxed(),
    decreases before, 0nat,
{
    assert forall|i: int| 0 <= i < after.len() implies (#[trigger] after[i]).boxed() by {
        assert(in_numbers(after[i]));
        assert(decreases_to!(before => before[i]));
        lemma_transformed_is_boxed(before[i], after[i], transform, multiply, invert, image);
    }
}

/// The id that the primitive at the place `k` gets where ids are given out
/// from `first` on: the number that far after `first`, or the greatest
/// number there is where the numbers run out.
pub open spec fn id_from(first: usize, k: int) -> usize {
    if first + k <= usize::MAX {
        (first + k) as usize
    } else {
        usize::MAX
    }
}

/// Whether `after` is the object `before` with the primitives under it
/// named afresh: they go under the ids from `first` on, one after the other
/// in the order in which the hierarchy holds them. Nothing else is changed.
pub open spec fn numbered(before: Object, after: Object, first: usize) -> bool
    decreases before, 1nat,
{
    &&& after.material == before.material
    &&& after.transform == before.transform
    &&& after.shadow == before.shadow
    &&& after.bounds == before.bounds
    &&& match before.shape {
        Shape::Group(g) => {
            &&& after.id == before.id
            &&& after.shape matches Shape::Group(h) && numbered_each(g@, h@, first)
        },
        Shape::Mesh(m) => {
            &&& after.id == before.id
            &&& after.shape matches Shape::Mesh(h) && numbered_each(m@, h@, first)
        },
        _ => after.shape == before.shape && after.id == first,
    }
}

/// Whether the objects `after` are the objects `before` with the
/// primitives under them named afresh from `first` on, those under the
/// first object first.
pub open spec fn numbered_each(before: Seq<Object>, after: Seq<Object>, first: usize) -> bool
    decreases before, 0nat,
{
    &&& after.len() == before.len()
    &&& forall|i: int|
        0 <= i < before.len() ==> numbered(
            before[i],
            #[trigger] after[i],
            id_from(first, leaves_of(before.take(i)).len() as int),
        )
}

impl Object {
    /// Names the primitives under the object afresh, from `first` on, and
    /// returns the id that comes after the last one given out.
    pub fn number(&mut self, first: usize) -> (next: usize)
        ensures
            numbered(*old(self), *final(self), first),
            next == id_from(first, old(self).leaves().len() as int),
        decreases *old(self), 1nat,
    {
        match &mut self.shape {
            Shape::Group(g) => number_each(&mut g.objects, first),
            Shape::Mesh(m) => number_each(&mut m.triangle_group.objects, first),
            _ => {
                self.id = first;
                if first < usize::MAX {
                    first + 1
                } else {
                    first
                }
            },
        }
    }
}

/// Names the primitives under some objects afresh, from `first` on, and
/// returns the id that comes after the last one given out.
pub fn number_each(objects: &mut Vec<Object>, first: usize) -> (next: usize)
    ensures
        numbered_each(old(objects)@, final(objects)@, first),
        next == id_from(first, leaves_of(old(objects)@).len() as int),
    decreases *old(objects), 0nat,
{
    let ghost before = objects@;
    let n: usize = objects.len();
    let mut next: usize = first;
    let mut i: usize = 0;
    proof {
        assert(before.take(0) =~= Seq::<Object>::empty());
    }
    while i < n
        invariant
            i <= n,
            n == before.len(),
            objects@.len() == n,
            before == old(objects)@,
            next == id_from(first, leaves_of(before.take(i as int)).len() as int),
            forall|j: int| i <= j < n ==> objects@[j] == before[j],
            forall|j: int|
                0 <= j < i ==> numbered(
                    before[j],
                    #[trigger] objects@[j],
                    id_from(first, leaves_of(before.take(j)).len() as int),
                ),
        decreases n - i,
    {
        proof {
            assert(objects@[i as int] == before[i as int]);
            assert(decreases_to!(before => before[i as int]));
            assert(decreases_to!(*old(objects) => before));
            assert(before.take(i + 1).drop_last() =~= before.take(i as int));
        }
        next = objects[i].number(next);
        i += 1;
    }
    assert(before.take(n as int) =~= before);
    next
}

/// Where the numbers do not run out, the primitives under an object that
/// was named afresh go under the ids from `first` on, each under the id of
/// its place: no two of them go under the same id.
pub proof fn lemma_numbered_ids_differ(before: Object, after: Object, first: usize)
    requires
        numbered(before, after, first),
    ensures
        after.leaves().len() == before.leaves().len(),
        forall|k: int|
            0 <= k < after.leaves().len() ==> (#[trigger] after.leaves()[k]).id == id_from(first, k),
    decreases before, 1nat,
{
    match before.shape {
        Shape::Group(g) => {
            let h = after.shape->Group_0;
            lemma_numbered_ids_differ_each(g@, h@, first);
        },
        Shape::Mesh(m) => {
            let h = after.shape->Mesh_0;
            lemma_numbered_ids_differ_each(m@, h@, first);
        },
        _ => {
            assert(after.leaves() =~= seq![after]);
            assert(before.leaves() =~= seq![before]);
        },
    }
}

/// Of the ids that are given out from `first` on, no two are the same
/// where the numbers do not run out.
pub proof fn lemma_ids_from_differ(first: usize, count: int, j: int, k: int)
    requires
        first + count <= usize::MAX + 1,
        0 <= j < k < count,
    ensures
        id_from(first, j) != id_from(first, k),
{
}

/// The same of a row of objects that were named afresh.
pub proof fn lemma_numbered_ids_differ_each(before: Seq<Object>, after: Seq<Object>, first: usize)
    requires
        numbered_each(before, after, first),
    ensures
        leaves_of(after).len() == leaves_of(before).len(),
        forall|k: int|
            0 <= k < leaves_of(after).len() ==> (#[trigger] leaves_of(after)[k]).id == id_from(
                first,
                k,
            ),
    decreases before, 0nat,
{
    if before.len() > 0 {
        let b = before.drop_last();
        let a = after.drop_last();
        let last = before.len() - 1;
        assert forall|i: int| 0 <= i < b.len() implies numbered(
            b[i],
            #[trigger] a[i],
            id_from(first, leaves_of(b.take(i)).len() as int),
        ) by {
            assert(b.take(i) =~= before.take(i));
            assert(a[i] == after[i]);
        }
        assert(decreases_to!(before => b));
        lemma_numbered_ids_differ_each(b, a, first);
        assert(before.take(last) =~= b);
        let given = leaves_of(b).len() as int;
        assert(numbered(before[last], after[last], id_from(first, given)));
        assert(decreases_to!(before => before[last]));
        lemma_numbered_ids_differ(before[last], after[last], id_from(first, given));
        assert forall|k: int| 0 <= k < leaves_of(after).len() implies (#[trigger] leaves_of(
            after,
        )[k]).id == id_from(first, k) by {
            if k < given {
                assert(leaves_of(after)[k] == leaves_of(a)[k]);
            } else {
                assert(leaves_of(after)[k] == after[last].leaves()[k - given]);
            }
        }
    }
}

/// Whether two objects are alike: the same but for where they are kept.
pub open spec fn alike(a: Object, b: Object) -> bool
    decreases a, 1nat,
{
    &&& a.id == b.id
    &&& a.material == b.material
    &&& a.transform == b.transform
    &&& a.shadow == b.shadow
    &&& a.bounds == b.bounds
    &&& match a.shape {
        Shape::Group(g) => b.shape matches Shape::Group(h) && alike_each(g@, h@),
        Shape::Mesh(m) => b.shape matches Shape::Mesh(h) && alike_each(m@, h@),
        _ => a.shape == b.shape,
    }
}

/// Whether the objects of two rows are alike, place by place.
pub open spec fn alike_each(a: Seq<Object>, b: Seq<Object>) -> bool
    decreases a, 0nat,
{
    &&& a.len() == b.len()
    &&& forall|i: int| 0 <= i < a.len() ==> alike(a[i], #[trigger] b[i])
}

impl Object {
    /// Whether two objects are alike: the same in every part, and with
    /// children that are alike, one by one.
    pub fn same(&self, other: &Object) -> (same: bool)
        ensures
            same == alike(*self, *other),
        decreases self, 1nat,
    {
        if self.id != other.id || self.shadow != other.shadow || self.bounds != other.bounds {
            return false;
        }
        if !self.material.same(&other.material) || !self.transform.same(&other.transform) {
            return false;
        }
        match (&self.shape, &other.shape) {
            (Shape::Sphere(a), Shape::Sphere(b)) => *a == *b,
            (Shape::Plane(a), Shape::Plane(b)) => *a == *b,
            (Shape::Cube(a), Shape::Cube(b)) => *a == *b,
            (Shape::Cylinder(a), Shape::Cylinder(b)) => *a == *b,
            (Shape::Triangle(a), Shape::Triangle(b)) => *a == *b,
            (Shape::SmoothTriangle(a), Shape::SmoothTriangle(b)) => *a == *b,
            (Shape::Mesh(a), Shape::Mesh(b)) => a.triangle_group.same(&b.triangle_group),
            (Shape::Group(a), Shape::Group(b)) => a.same(b),
            _ => false,
        }
    }
}

impl Group {
    /// Whether the children of two groups are alike, one by one.
    pub fn same(&self, other: &Group) -> (same: bool)
        ensures
            same == alike_each(self@, other@),
        decreases self, 0nat,
    {
        if self.objects.len() != other.objects.len() {
            return false;
        }
        let mut k: usize = 0;
        while k < self.objects.len()
            invariant
                k <= self.objects.len(),
                self.objects.len() == other.objects.len(),
                forall|j: int| 0 <= j < k ==> alike(self.objects@[j], #[trigger] other.objects@[j]),
            decreases self.objects.len() - k,
        {
            if !self.objects[k].same(&other.objects[k]) {
                return false;
            }
            k += 1;
        }
        true
    }
}

impl Clone for Object {
    /// A copy of the object and of all that is under it.
    fn clone(&self) -> (copy: Self)
        ensures
            alike(*self, copy),
        decreases self, 1nat,
    {
        let shape: Shape = match &self.shape {
            Shape::Sphere(s) => Shape::Sphere(*s),
            Shape::Plane(p) => Shape::Plane(*p),
            Shape::Cube(c) => Shape::Cube(*c),
            Shape::Cylinder(c) => Shape::Cylinder(*c),
            Shape::Triangle(t) => Shape::Triangle(*t),
            Shape::SmoothTriangle(t) => Shape::SmoothTriangle(*t),
            Shape::Mesh(m) => Shape::Mesh(m.clone()),
            Shape::Group(g) => Shape::Group(g.clone()),
        };
        Object {
            id: self.id,
            shape,
            material: self.material,
            transform: self.transform,
            shadow: self.shadow,
            bounds: self.bounds,
        }
    }
}

impl Clone for Shape {
    /// A copy of the shape and, for a group or a mesh, of all that is
    /// under it.
    fn clone(&self) -> (copy: Self)
        ensures
            match *self {
                Shape::Group(g) => copy matches Shape::Group(h) && alike_each(g@, h@),
                Shape::Mesh(m) => copy matches Shape::Mesh(h) && alike_each(m@, h@),
                _ => copy == *self,
            },
        decreases self, 1nat,
    {
        match self {
            Shape::Sphere(s) => Shape::Sphere(*s),
            Shape::Plane(p) => Shape::Plane(*p),
            Shape::Cube(c) => Shape::Cube(*c),
            Shape::Cylinder(c) => Shape::Cylinder(*c),
            Shape::Triangle(t) => Shape::Triangle(*t),
            Shape::SmoothTriangle(t) => Shape::SmoothTriangle(*t),
            Shape::Mesh(m) => Shape::Mesh(m.clone()),
            Shape::Group(g) => Shape::Group(g.clone()),
        }
    }
}

impl Clone for Mesh {
    fn clone(&self) -> (copy: Self)
        ensures
            alike_each(self@, copy@),
        decreases self, 1nat,
    {
        Mesh { triangle_group: self.triangle_group.clone() }
    }
}

impl Clone for Group {
    fn clone(&self) -> (copy: Self)
        ensures
            alike_each(self@, copy@),
        decreases self, 0nat,
    {
        let mut objects: Vec<Object> = Vec::with_capacity(self.objects.len());
        let mut k: usize = 0;
        while k < self.objects.len()
            invariant
                k <= self.objects.len(),
                objects@.len() == k,
                forall|j: int| 0 <= j < k ==> alike(self.objects@[j], #[trigger] objects@[j]),
            decreases self.objects.len() - k,
        {
            let child: Object = self.objects[k].clone();
            objects.push(child);
            k += 1;
        }
        Group { objects }
    }
}

} // verus!
