//! Models that are given as lists of corners: the triangles of a model, and
//! the group that holds them.

use vstd::prelude::*;
use crate::bounds::Vec3;
use crate::object::Object;
use crate::shapes::group::Group;
use crate::shapes::shape::Shape;
use crate::shapes::smooth_triangle::SmoothTriangle;
use crate::shapes::triangle::Triangle;

verus! {

/// A model as a list of faces. `positions` holds three ranks for each
/// vertex, and `normals` either nothing or three ranks for each vertex.
/// `indices` names the vertices of the faces, three to a face.
#[derive(Debug)]
pub struct Model {
    pub positions: Vec<i64>,
    pub normals: Vec<i64>,
    pub indices: Vec<u32>,
}

/// Whether a list of ranks, three to a vertex, holds the given vertex.
pub open spec fn holds(values: Seq<i64>, vertex: int) -> bool {
    0 <= vertex && 3 * vertex + 2 < values.len()
}

/// The three ranks of a vertex as a point.
pub open spec fn vertex_of(values: Seq<i64>, vertex: int) -> Vec3 {
    Vec3 { x: values[3 * vertex], y: values[3 * vertex + 1], z: values[3 * vertex + 2] }
}

impl Model {
    /// Whether the model has normals.
    pub open spec fn smooth(&self) -> bool {
        self.normals@.len() > 0
    }

    /// Whether the corner at a place of the list of indices can be read:
    /// its vertex has a position, and a normal where the model has normals.
    pub open spec fn reads(&self, place: int) -> bool {
        &&& holds(self.positions@, self.indices@[place] as int)
        &&& self.smooth() ==> holds(self.normals@, self.indices@[place] as int)
    }

    /// Whether the model is whole: its indices come in threes, and every
    /// corner can be read.
    pub open spec fn complete(&self) -> bool {
        &&& self.indices@.len() % 3 == 0
        &&& forall|place: int| 0 <= place < self.indices@.len() ==> #[trigger] self.reads(place)
    }

    /// The position of the corner at a place of the list of indices.
    pub open spec fn position(&self, place: int) -> Vec3 {
        vertex_of(self.positions@, self.indices@[place] as int)
    }

    /// The normal of the corner at a place of the list of indices.
    pub open spec fn normal(&self, place: int) -> Vec3 {
        vertex_of(self.normals@, self.indices@[place] as int)
    }

    /// The face of the given number: a triangle between the positions of
    /// its three corners, and a smooth one with the normals of the corners
    /// where the model has normals.
    pub open spec fn face(&self, number: int) -> Shape {
        let flat = Triangle {
            p1: self.position(3 * number),
            p2: self.position(3 * number + 1),
            p3: self.position(3 * number + 2),
        };
        if self.smooth() {
            Shape::SmoothTriangle(
                SmoothTriangle {
                    triangle: flat,
                    n1: self.normal(3 * number),
                    n2: self.normal(3 * number + 1),
                    n3: self.normal(3 * number + 2),
                },
            )
        } else {
            Shape::Triangle(flat)
        }
    }

    /// Whether the objects are the faces of the model, in their order, each
    /// a new object.
    pub open spec fn faces(&self, objects: Seq<Object>) -> bool {
        &&& objects.len() == self.indices@.len() / 3
        &&& forall|number: int|
            0 <= number < objects.len() ==> (#[trigger] objects[number]).is_new(self.face(number))
    }

    /// Whether the object is a new group that holds the faces of the model
    /// and nothing else.
    pub open spec fn grouped(&self, object: Object) -> bool {
        &&& object.is_new(object.shape)
        &&& object.shape matches Shape::Group(g) && self.faces(g@)
    }

    /// The point that three ranks of a list stand for, where the list
    /// holds the vertex.
    fn vertex(values: &Vec<i64>, vertex: u32) -> (point: Option<Vec3>)
        ensures
            point is Some <==> holds(values@, vertex as int),
            point is Some ==> point.unwrap() == vertex_of(values@, vertex as int),
    {
        let vertices: usize = values.len() / 3;
        let vertex: usize = vertex as usize;
        if vertex < vertices {
            Some(Vec3::new(values[3 * vertex], values[3 * vertex + 1], values[3 * vertex + 2]))
        } else {
            None
        }
    }

    /// The corner at a place of the list of indices: its position, and its
    /// normal where the model has normals, else its position once more.
    fn corner(&self, place: usize) -> (corner: Option<(Vec3, Vec3)>)
        requires
            place < self.indices@.len(),
        ensures
            corner is Some <==> self.reads(place as int),
            corner is Some ==> corner.unwrap().0 == self.position(place as int),
            corner is Some && self.smooth() ==> corner.unwrap().1 == self.normal(place as int),
    {
        let vertex: u32 = self.indices[place];
        match Model::vertex(&self.positions, vertex) {
            None => None,
            Some(position) => {
                if self.normals.len() > 0 {
                    match Model::vertex(&self.normals, vertex) {
                        None => None,
                        Some(normal) => Some((position, normal)),
                    }
                } else {
                    Some((position, position))
                }
            },
        }
    }

    /// The faces of the model, each a new object, in one new group; `None`
    /// where the model is not whole.
    pub fn group(&self) -> (group: Option<Object>)
        ensures
            group is Some <==> self.complete(),
            group matches Some(object) ==> self.grouped(object),
    {
        if self.indices.len() % 3 != 0 {
            return None;
        }
        let count: usize = self.indices.len() / 3;
        let mut triangles: Vec<Object> = Vec::new();
        let mut number: usize = 0;
        while number < count
            invariant
                number <= count,
                count == self.indices@.len() / 3,
                self.indices@.len() % 3 == 0,
                self.indices@.len() <= usize::MAX,
                triangles@.len() == number,
                forall|place: int| 0 <= place < 3 * number ==> #[trigger] self.reads(place),
                forall|k: int|
                    0 <= k < number ==> (#[trigger] triangles@[k]).is_new(self.face(k)),
            decreases count - number,
        {
            assert(3 * number + 2 < self.indices@.len()) by {
                let n = self.indices@.len() as int;
                assert(n == 3 * (n / 3) + n % 3);
            }
            let first: usize = 3 * number;
            let shape: Shape = match (
                self.corner(first),
                self.corner(first + 1),
                self.corner(first + 2),
            ) {
                (Some(a), Some(b), Some(c)) => {
                    if self.normals.len() > 0 {
                        Shape::SmoothTriangle(SmoothTriangle::new(a.0, b.0, c.0, a.1, b.1, c.1))
                    } else {
                        Shape::Triangle(Triangle::new(a.0, b.0, c.0))
                    }
                },
                _ => {
                    assert(!self.reads(first as int) || !self.reads(first + 1) || !self.reads(
                        first + 2,
                    ));
                    return None;
                },
            };
            assert(shape == self.face(number as int));
            triangles.push(Object::new(shape));
            number += 1;
        }
        Some(Object::new(Shape::Group(Group::new().with_objects(triangles))))
    }
}

/// The models of a scene as objects: a group of triangles for each.
#[derive(Debug)]
pub struct ObjLoader {
    objects: Vec<Object>,
}

impl ObjLoader {
    pub closed spec fn spec_objects(&self) -> Seq<Object> {
        self.objects@
    }

    /// A group for each of the models, in their order; `None` where one of
    /// the models is not whole.
    pub fn from_models(models: &Vec<Model>) -> (loader: Option<Self>)
        ensures
            loader is Some <==> forall|i: int|
                0 <= i < models@.len() ==> (#[trigger] models@[i]).complete(),
            loader matches Some(l) ==> {
                &&& l.spec_objects().len() == models@.len()
                &&& forall|i: int|
                    0 <= i < models@.len() ==> models@[i].grouped(#[trigger] l.spec_objects()[i])
            },
    {
        let mut objects: Vec<Object> = Vec::new();
        let mut index: usize = 0;
        while index < models.len()
            invariant
                index <= models@.len(),
                objects@.len() == index,
                forall|i: int| 0 <= i < index ==> (#[trigger] models@[i]).complete(),
                forall|i: int| 0 <= i < index ==> models@[i].grouped(#[trigger] objects@[i]),
            decreases models@.len() - index,
        {
            match models[index].group() {
                Some(object) => {
                    objects.push(object);
                },
                None => {
                    assert(!models@[index as int].complete());
                    return None;
                },
            }
            index += 1;
        }
        Some(ObjLoader { objects })
    }

    pub fn objects(self) -> (objects: Vec<Object>)
        ensures
            objects@ == self.spec_objects(),
    {
        self.objects
    }
}

} // verus!
