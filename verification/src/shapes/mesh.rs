use vstd::prelude::*;
use crate::bounds::BoundingBox;
use crate::object::Object;
use crate::shapes::group::Group;

verus! {

/// A group whose children are all triangles.
#[derive(Debug, PartialEq)]
pub struct Mesh {
    pub triangle_group: Group,
}

impl View for Mesh {
    type V = Seq<Object>;

    /// The triangles, in order.
    open spec fn view(&self) -> Seq<Object> {
        self.triangle_group@
    }
}

impl Mesh {
    /// The union of the triangles' boxes.
    pub open spec fn spec_bounds(&self) -> BoundingBox {
        Group::union_of(self@)
    }

    pub fn new() -> (mesh: Self)
        ensures
            mesh@ == Seq::<Object>::empty(),
    {
        Mesh { triangle_group: Group::new() }
    }

    pub fn with_triangles(self, triangles: Vec<Object>) -> (mesh: Self)
        ensures
            mesh@ == triangles@,
    {
        Mesh { triangle_group: Group::new().with_objects(triangles) }
    }

    pub fn triangles(&self) -> (triangles: &Vec<Object>)
        ensures
            triangles@ == self@,
    {
        self.triangle_group.objects()
    }

    pub fn triangles_mut(&mut self) -> (triangles: &mut Vec<Object>)
        ensures
            triangles@ == old(self)@,
            final(self)@ == final(triangles)@,
    {
        self.triangle_group.objects_mut()
    }

    pub fn bounds(&self) -> (b: BoundingBox)
        ensures
            b == self.spec_bounds(),
    {
        self.triangle_group.bounds()
    }
}

impl Default for Mesh {
    fn default() -> (mesh: Self)
        ensures
            mesh@ == Seq::<Object>::empty(),
    {
        Mesh::new()
    }
}

} // verus!
