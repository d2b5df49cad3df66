//! The hierarchy of boxes: dividing the groups of a scene so that a ray that
//! misses a box is spared the objects in it.

use vstd::prelude::*;
use crate::bounds::{BoundingBox, Slab, Vec3};
use crate::intersection::{Intersection, Intersections};
use crate::matrix::Matrix;
use crate::object::Object;
use crate::ray::{Arithmetic, Ray};
use crate::shapes::group::Group;
use crate::shapes::mesh::Mesh;
use crate::shapes::shape::{Facts, Shape};

verus! {

/// Whether `xs` holds the intersections of a ray with what is under an
/// object. A primitive is met in its own space: the ray is taken there by
/// the inverse of the primitive's matrix, and the shape decides from the
/// quantities of the equation of the ray taken there. A group or a mesh whose
/// box the ray misses has no intersections; one whose box the ray passes
/// through has those of its children, one child after the other.
pub open spec fn met<
    'a,
    P: Fn(&Matrix, Vec3) -> Vec3,
    V: Fn(&Matrix, Vec3) -> Vec3,
    K: Fn(&Shape, &Ray) -> Facts,
    S: Fn(&BoundingBox, &Ray) -> (Slab, Slab, Slab),
>(object: &'a Object, ray: Ray, xs: Seq<Intersection<'a>>, with: Arithmetic<P, V, K, S>) -> bool
    decreases object, 0nat,
{
    match object.shape {
        Shape::Group(g) => met_within(g@, object.bounds, ray, xs, with),
        Shape::Mesh(m) => met_within(m@, object.bounds, ray, xs, with),
        _ => exists|local: Ray, facts: Facts|
            {
                &&& ray.moves_to(&object.transform.inverse_matrix, with.image, with.turn, local)
                &&& #[trigger] with.facts.ensures((&object.shape, &local), facts)
                &&& xs == object.shape.spec_intersect(facts, object)
            },
    }
}

/// Whether `found` holds, for each of some objects in turn, the
/// intersections of a ray with what is under the object.
pub open spec fn met_each<
    'a,
    P: Fn(&Matrix, Vec3) -> Vec3,
    V: Fn(&Matrix, Vec3) -> Vec3,
    K: Fn(&Shape, &Ray) -> Facts,
    S: Fn(&BoundingBox, &Ray) -> (Slab, Slab, Slab),
>(
    objects: Seq<Object>,
    ray: Ray,
    found: Seq<Seq<Intersection<'a>>>,
    with: Arithmetic<P, V, K, S>,
) -> bool
    decreases objects, 0nat,
{
    &&& found.len() == objects.len()
    &&& forall|i: int| 0 <= i < objects.len() ==> met(&objects[i], ray, #[trigger] found[i], with)
}

/// Whether `all` holds the intersections of a ray with what is under some
/// objects, those under the first object first.
pub open spec fn met_all<
    'a,
    P: Fn(&Matrix, Vec3) -> Vec3,
    V: Fn(&Matrix, Vec3) -> Vec3,
    K: Fn(&Shape, &Ray) -> Facts,
    S: Fn(&BoundingBox, &Ray) -> (Slab, Slab, Slab),
>(objects: Seq<Object>, ray: Ray, all: Seq<Intersection<'a>>, with: Arithmetic<P, V, K, S>) -> bool
    decreases objects, 1nat,
{
    exists|found: Seq<Seq<Intersection<'a>>>|
        met_each(objects, ray, found, with) && all == #[trigger] found.flatten()
}

/// Whether `xs` holds the intersections of a ray with the children of a
/// group that has the given box.
pub open spec fn met_within<
    'a,
    P: Fn(&Matrix, Vec3) -> Vec3,
    V: Fn(&Matrix, Vec3) -> Vec3,
    K: Fn(&Shape, &Ray) -> Facts,
    S: Fn(&BoundingBox, &Ray) -> (Slab, Slab, Slab),
>(
    children: Seq<Object>,
    bounds: BoundingBox,
    ray: Ray,
    xs: Seq<Intersection<'a>>,
    with: Arithmetic<P, V, K, S>,
) -> bool
    decreases children, 2nat,
{
    exists|times: (Slab, Slab, Slab)|
        {
            &&& #[trigger] with.slabs.ensures((&bounds, &ray), times)
            &&& if BoundingBox::intersects(times.0, times.1, times.2) {
                met_all(children, ray, xs, with)
            } else {
                xs == Seq::<Intersection<'a>>::empty()
            }
        }
}

impl Object {
    /// The intersections of a ray with what is under the object, in the
    /// order in which the hierarchy holds its primitives.
    pub fn intersect<
        'a,
        P: Fn(&Matrix, Vec3) -> Vec3,
        V: Fn(&Matrix, Vec3) -> Vec3,
        K: Fn(&Shape, &Ray) -> Facts,
        S: Fn(&BoundingBox, &Ray) -> (Slab, Slab, Slab),
    >(&'a self, ray: &Ray, with: &Arithmetic<P, V, K, S>) -> (xs: Intersections<'a>)
        requires
            with.ready(),
        ensures
            met(self, *ray, xs@, *with),
        decreases self, 0nat,
    {
        match &self.shape {
            Shape::Group(g) => g.intersect(ray, self, with),
            Shape::Mesh(m) => m.intersect(ray, self, with),
            _ => {
                let local: Ray = ray.transform(
                    &self.transform.inverse_matrix,
                    &with.image,
                    &with.turn,
                );
                let facts: Facts = (with.facts)(&self.shape, &local);
                self.shape.intersect(&facts, self)
            },
        }
    }
}

impl Group {
    /// The intersections of a ray with the children of the group, one child
    /// after the other, where the ray passes through the box of the group;
    /// none where it misses the box. `this` is the object whose shape the
    /// group is.
    pub fn intersect<
        'a,
        P: Fn(&Matrix, Vec3) -> Vec3,
        V: Fn(&Matrix, Vec3) -> Vec3,
        K: Fn(&Shape, &Ray) -> Facts,
        S: Fn(&BoundingBox, &Ray) -> (Slab, Slab, Slab),
    >(&'a self, ray: &Ray, this: &'a Object, with: &Arithmetic<P, V, K, S>) -> (xs: Intersections<
        'a,
    >)
        requires
            with.ready(),
        ensures
            met_within(self@, this.bounds, *ray, xs@, *with),
        decreases self, 1nat,
    {
        let (x, y, z) = (with.slabs)(&this.bounds, ray);
        assert(with.slabs.ensures((&this.bounds, ray), (x, y, z)));
        if BoundingBox::intersects(x, y, z) {
            intersect_each(&self.objects, ray, with)
        } else {
            Intersections::new()
        }
    }
}

/// The intersections of a ray with what is under each of some objects, one
/// object after the other.
pub fn intersect_each<
    'a,
    P: Fn(&Matrix, Vec3) -> Vec3,
    V: Fn(&Matrix, Vec3) -> Vec3,
    K: Fn(&Shape, &Ray) -> Facts,
    S: Fn(&BoundingBox, &Ray) -> (Slab, Slab, Slab),
>(objects: &'a Vec<Object>, ray: &Ray, with: &Arithmetic<P, V, K, S>) -> (all: Intersections<'a>)
    requires
        with.ready(),
    ensures
        met_all(objects@, *ray, all@, *with),
    decreases objects, 0nat,
{
    let mut all: Intersections<'a> = Intersections::new();
    let ghost mut found: Seq<Seq<Intersection<'a>>> = Seq::empty();
    let mut k: usize = 0;
    while k < objects.len()
        invariant
            k <= objects.len(),
            with.ready(),
            met_each(objects@.take(k as int), *ray, found, *with),
            all@ == found.flatten(),
        decreases objects.len() - k,
    {
        let xs: Intersections<'a> = objects[k].intersect(ray, with);
        proof {
            let longer = found.push(xs@);
            found.lemma_flatten_push(xs@);
            assert forall|i: int| 0 <= i < k + 1 implies met(
                &objects@.take(k + 1)[i],
                *ray,
                #[trigger] longer[i],
                *with,
            ) by {
                if i < k {
                    assert(objects@.take(k + 1)[i] == objects@.take(k as int)[i]);
                    assert(longer[i] == found[i]);
                }
            }
            found = longer;
        }
        all.append(xs);
        k += 1;
    }
    assert(objects@.take(k as int) =~= objects@);
    assert(met_each(objects@, *ray, found, *with) && all@ == found.flatten());
    all
}

impl Mesh {
    /// The intersections of a ray with the triangles of the mesh, as
    /// `Group::intersect` finds those with the children of a group.
    pub fn intersect<
        'a,
        P: Fn(&Matrix, Vec3) -> Vec3,
        V: Fn(&Matrix, Vec3) -> Vec3,
        K: Fn(&Shape, &Ray) -> Facts,
        S: Fn(&BoundingBox, &Ray) -> (Slab, Slab, Slab),
    >(&'a self, ray: &Ray, this: &'a Object, with: &Arithmetic<P, V, K, S>) -> (xs: Intersections<
        'a,
    >)
        requires
            with.ready(),
        ensures
            met_within(self@, this.bounds, *ray, xs@, *with),
        decreases self, 2nat,
    {
        self.triangle_group.intersect(ray, this, with)
    }
}

/// Whether `mid` is what one division makes of the children `before`, where
/// the box around them is cut into halves across its longest axis, as
/// `measure` gives its extent and its middle. Fewer children than the
/// threshold are left alone.
pub open spec fn divided_once<F: Fn(&BoundingBox) -> (Vec3, Vec3)>(
    before: Seq<Object>,
    mid: Seq<Object>,
    threshold: usize,
    measure: F,
) -> bool {
    if threshold > before.len() {
        mid == before
    } else {
        exists|halves: (BoundingBox, BoundingBox)| #[trigger]
            Group::union_of(before).halves_of(measure, halves) && Group::divided(
                before,
                mid,
                threshold,
                &halves.0,
                &halves.1,
            )
    }
}

/// Whether `after` is what dividing makes of the children `before`, through
/// at most `levels` levels of the hierarchy: the children are divided once,
/// and then what this leaves at this level, the sub-groups it made
/// included, is divided in turn through one level less.
pub open spec fn divided_group<F: Fn(&BoundingBox) -> (Vec3, Vec3)>(
    before: Seq<Object>,
    after: Seq<Object>,
    threshold: usize,
    measure: F,
    levels: nat,
) -> bool
    decreases levels, 0nat,
{
    if levels == 0 {
        after == before
    } else {
        exists|mid: Seq<Object>|
            {
                &&& #[trigger] divided_once(before, mid, threshold, measure)
                &&& after.len() == mid.len()
                &&& forall|i: int|
                    0 <= i < mid.len() ==> divided_object(
                        mid[i],
                        #[trigger] after[i],
                        threshold,
                        measure,
                        (levels - 1) as nat,
                    )
            }
    }
}

/// Whether `after` is what dividing makes of the object `before`. A
/// primitive is left as it is. A group or a mesh keeps its id, its
/// material, its transform, its shadow flag and its box, and has its
/// children divided.
pub open spec fn divided_object<F: Fn(&BoundingBox) -> (Vec3, Vec3)>(
    before: Object,
    after: Object,
    threshold: usize,
    measure: F,
    levels: nat,
) -> bool
    decreases levels, 1nat,
{
    match before.shape {
        Shape::Group(g) => {
            &&& after.id == before.id
            &&& after.material == before.material
            &&& after.transform == before.transform
            &&& after.shadow == before.shadow
            &&& after.bounds == before.bounds
            &&& after.shape matches Shape::Group(h) && divided_group(
                g@,
                h@,
                threshold,
                measure,
                levels,
            )
        },
        Shape::Mesh(m) => {
            &&& after.id == before.id
            &&& after.material == before.material
            &&& after.transform == before.transform
            &&& after.shadow == before.shadow
            &&& after.bounds == before.bounds
            &&& after.shape matches Shape::Mesh(h) && divided_group(
                m@,
                h@,
                threshold,
                measure,
                levels,
            )
        },
        _ => after == before,
    }
}

impl Object {
    /// The primitives under the object, in order: the object itself, or for
    /// a group or a mesh the primitives under its children.
    pub open spec fn leaves(self) -> Seq<Object>
        decreases self,
    {
        match self.shape {
            Shape::Group(g) => leaves_of(g@),
            Shape::Mesh(m) => leaves_of(m@),
            _ => seq![self],
        }
    }

    /// Whether the boxes of the hierarchy under the object can be relied
    /// on: the corners of the object's box are numbers, and where the
    /// object is a group or a mesh, its box holds the box of every child,
    /// and the same is true of every child. A ray that misses such a box
    /// misses everything under it.
    pub open spec fn boxed(self) -> bool
        decreases self,
    {
        &&& self.bounds.min.is_number()
        &&& self.bounds.max.is_number()
        &&& match self.shape {
            Shape::Group(g) => all_boxed_in(g@, self.bounds),
            Shape::Mesh(m) => all_boxed_in(m@, self.bounds),
            _ => true,
        }
    }
}

/// The primitives under some objects, those under the first object first.
pub open spec fn leaves_of(objects: Seq<Object>) -> Seq<Object>
    decreases objects,
{
    if objects.len() == 0 {
        Seq::empty()
    } else {
        leaves_of(objects.drop_last()) + objects.last().leaves()
    }
}

/// Whether a box holds the box of each of some objects, and the boxes under
/// each of them can be relied on.
pub open spec fn all_boxed_in(objects: Seq<Object>, bounds: BoundingBox) -> bool
    decreases objects,
{
    forall|i: int|
        0 <= i < objects.len() ==> bounds.spec_contains_box(&(#[trigger] objects[i]).bounds)
            && objects[i].boxed()
}

impl Group {
    /// Divides the group and what is under it, through at most `levels`
    /// levels. Where the group has at least `threshold` children, the box
    /// around them is halved across its longest axis, where `measure` gives
    /// its extent and its middle; the children that lie wholly in a
    /// half are wrapped in a sub-group, and the others stay. Then every child
    /// is divided in turn, the new sub-groups included.
    ///
    /// `levels` bounds the depth of what is made: between boxes without
    /// extent the halving would not come to an end.
    pub fn divide<F: Fn(&BoundingBox) -> (Vec3, Vec3)>(
        &mut self,
        threshold: usize,
        measure: &F,
        levels: usize,
    )
        requires
            forall|b: &BoundingBox| #[trigger] measure.requires((b,)),
        ensures
            divided_group(old(self)@, final(self)@, threshold, *measure, levels as nat),
        decreases levels, 0nat,
    {
        if levels == 0 {
            return ;
        }
        let ghost before = self@;
        if threshold <= self.objects.len() {
            let whole: BoundingBox = self.bounds();
            let (left, right) = whole.split(measure);
            self.divide_once(threshold, &left, &right);
            assert(Group::union_of(before).halves_of(*measure, (left, right)));
        }
        let ghost mid = self@;
        assert(divided_once(before, mid, threshold, *measure));
        let n: usize = self.objects.len();
        let mut i: usize = 0;
        while i < n
            invariant
                i <= n,
                levels > 0,
                n == mid.len(),
                self@.len() == n,
                forall|b: &BoundingBox| #[trigger] measure.requires((b,)),
                forall|j: int| i <= j < n ==> self@[j] == mid[j],
                forall|j: int|
                    0 <= j < i ==> divided_object(
                        mid[j],
                        #[trigger] self@[j],
                        threshold,
                        *measure,
                        (levels - 1) as nat,
                    ),
            decreases n - i,
        {
            self.objects[i].divide(threshold, measure, levels - 1);
            i += 1;
        }
    }
}

impl Mesh {
    /// Divides the triangles as `Group::divide` divides the children of a
    /// group.
    pub fn divide<F: Fn(&BoundingBox) -> (Vec3, Vec3)>(
        &mut self,
        threshold: usize,
        measure: &F,
        levels: usize,
    )
        requires
            forall|b: &BoundingBox| #[trigger] measure.requires((b,)),
        ensures
            divided_group(old(self)@, final(self)@, threshold, *measure, levels as nat),
        decreases levels, 1nat,
    {
        self.triangle_group.divide(threshold, measure, levels);
    }
}

impl Shape {
    /// Divides a group or a mesh; any other shape is left as it is.
    pub fn divide<F: Fn(&BoundingBox) -> (Vec3, Vec3)>(
        &mut self,
        threshold: usize,
        measure: &F,
        levels: usize,
    )
        requires
            forall|b: &BoundingBox| #[trigger] measure.requires((b,)),
        ensures
            match *old(self) {
                Shape::Group(g) => *final(self) matches Shape::Group(h) && divided_group(
                    g@,
                    h@,
                    threshold,
                    *measure,
                    levels as nat,
                ),
                Shape::Mesh(m) => *final(self) matches Shape::Mesh(h) && divided_group(
                    m@,
                    h@,
                    threshold,
                    *measure,
                    levels as nat,
                ),
                _ => *final(self) == *old(self),
            },
        decreases levels, 2nat,
    {
        match self {
            Shape::Group(g) => g.divide(threshold, measure, levels),
            Shape::Mesh(m) => m.divide(threshold, measure, levels),
            _ => (),
        }
    }
}

impl Object {
    /// Divides the object where it is a group or a mesh, through at most
    /// `levels` levels; its own box stays as it is.
    pub fn divide<F: Fn(&BoundingBox) -> (Vec3, Vec3)>(
        &mut self,
        threshold: usize,
        measure: &F,
        levels: usize,
    )
        requires
            forall|b: &BoundingBox| #[trigger] measure.requires((b,)),
        ensures
            divided_object(*old(self), *final(self), threshold, *measure, levels as nat),
        decreases levels, 3nat,
    {
        self.shape.divide(threshold, measure, levels);
    }
}

/// Dividing an object loses no primitive and makes none up: the
/// primitives under the object are the same before and after, each as
/// often as it was.
pub proof fn lemma_division_keeps_leaves<F: Fn(&BoundingBox) -> (Vec3, Vec3)>(
    before: Object,
    after: Object,
    threshold: usize,
    measure: F,
    levels: nat,
)
    requires
        divided_object(before, after, threshold, measure, levels),
    ensures
        after.leaves().to_multiset() == before.leaves().to_multiset(),
    decreases levels, 1nat,
{
    match before.shape {
        Shape::Group(g) => {
            let h = after.shape->Group_0;
            lemma_division_keeps_leaves_of_group(g@, h@, threshold, measure, levels);
        },
        Shape::Mesh(m) => {
            let h = after.shape->Mesh_0;
            lemma_division_keeps_leaves_of_group(m@, h@, threshold, measure, levels);
        },
        _ => {},
    }
}

/// Dividing the children of a group loses no primitive and makes none up.
pub proof fn lemma_division_keeps_leaves_of_group<
    F: Fn(&BoundingBox) -> (Vec3, Vec3),
>(before: Seq<Object>, after: Seq<Object>, threshold: usize, measure: F, levels: nat)
    requires
        divided_group(before, after, threshold, measure, levels),
    ensures
        leaves_of(after).to_multiset() == leaves_of(before).to_multiset(),
    decreases levels, 0nat,
{
    if levels > 0 {
        let mid = choose|mid: Seq<Object>|
            {
                &&& #[trigger] divided_once(before, mid, threshold, measure)
                &&& after.len() == mid.len()
                &&& forall|i: int|
                    0 <= i < mid.len() ==> divided_object(
                        mid[i],
                        #[trigger] after[i],
                        threshold,
                        measure,
                        (levels - 1) as nat,
                    )
            };
        lemma_one_division_keeps_leaves(before, mid, threshold, measure);
        assert forall|i: int| 0 <= i < mid.len() implies (#[trigger] after[i]).leaves().to_multiset()
            == mid[i].leaves().to_multiset() by {
            lemma_division_keeps_leaves(mid[i], after[i], threshold, measure, (levels - 1) as nat);
        }
        lemma_leaves_go_by_the_children(mid, after);
    }
}

/// Dividing an object leaves its boxes reliable: where the box of every
/// group held all that was under the group before, it does so after.
pub proof fn lemma_division_keeps_boxes<F: Fn(&BoundingBox) -> (Vec3, Vec3)>(
    before: Object,
    after: Object,
    threshold: usize,
    measure: F,
    levels: nat,
)
    requires
        divided_object(before, after, threshold, measure, levels),
        before.boxed(),
    ensures
        after.boxed(),
        after.bounds == before.bounds,
    decreases levels, 1nat,
{
    match before.shape {
        Shape::Group(g) => {
            let h = after.shape->Group_0;
            lemma_division_keeps_boxes_of_group(g@, h@, threshold, measure, levels, before.bounds);
        },
        Shape::Mesh(m) => {
            let h = after.shape->Mesh_0;
            lemma_division_keeps_boxes_of_group(m@, h@, threshold, measure, levels, before.bounds);
        },
        _ => {},
    }
}

/// Dividing the children of a group keeps them within the box of the
/// group, and leaves the boxes under them reliable.
pub proof fn lemma_division_keeps_boxes_of_group<
    F: Fn(&BoundingBox) -> (Vec3, Vec3),
>(
    before: Seq<Object>,
    after: Seq<Object>,
    threshold: usize,
    measure: F,
    levels: nat,
    bounds: BoundingBox,
)
    requires
        divided_group(before, after, threshold, measure, levels),
        bounds.min.is_number(),
        bounds.max.is_number(),
        all_boxed_in(before, bounds),
    ensures
        all_boxed_in(after, bounds),
    decreases levels, 0nat,
{
    if levels > 0 {
        let mid = choose|mid: Seq<Object>|
            {
                &&& #[trigger] divided_once(before, mid, threshold, measure)
                &&& after.len() == mid.len()
                &&& forall|i: int|
                    0 <= i < mid.len() ==> divided_object(
                        mid[i],
                        #[trigger] after[i],
                        threshold,
                        measure,
                        (levels - 1) as nat,
                    )
            };
        lemma_one_division_keeps_boxes(before, mid, threshold, measure, bounds);
        assert forall|i: int| 0 <= i < after.len() implies bounds.spec_contains_box(
            &(#[trigger] after[i]).bounds,
        ) && after[i].boxed() by {
            assert(mid[i].boxed());
            lemma_division_keeps_boxes(mid[i], after[i], threshold, measure, (levels - 1) as nat);
        }
    }
}

/// A group or a mesh whose box is the union of the boxes of its children has
/// reliable boxes where its children have: this is the box that a new
/// object gets.
pub proof fn lemma_union_boxes_a_group(object: Object)
    requires
        match object.shape {
            Shape::Group(g) => object.bounds == Group::union_of(g@) && forall|i: int|
                0 <= i < g@.len() ==> (#[trigger] g@[i]).boxed(),
            Shape::Mesh(m) => object.bounds == Group::union_of(m@) && forall|i: int|
                0 <= i < m@.len() ==> (#[trigger] m@[i]).boxed(),
            _ => object.bounds.min.is_number() && object.bounds.max.is_number(),
        },
    ensures
        object.boxed(),
{
    match object.shape {
        Shape::Group(g) => {
            lemma_union_is_number(g@);
            assert forall|i: int| 0 <= i < g@.len() implies object.bounds.spec_contains_box(
                &(#[trigger] g@[i]).bounds,
            ) && g@[i].boxed() by {
                crate::shapes::group::lemma_union_holds_each_child(g@, i);
            }
        },
        Shape::Mesh(m) => {
            lemma_union_is_number(m@);
            assert forall|i: int| 0 <= i < m@.len() implies object.bounds.spec_contains_box(
                &(#[trigger] m@[i]).bounds,
            ) && m@[i].boxed() by {
                crate::shapes::group::lemma_union_holds_each_child(m@, i);
            }
        },
        _ => {},
    }
}

/// The corners of the union of some boxes are numbers where the corners of
/// the boxes are.
proof fn lemma_union_is_number(objects: Seq<Object>)
    requires
        forall|i: int| 0 <= i < objects.len() ==> (#[trigger] objects[i]).boxed(),
    ensures
        Group::union_of(objects).min.is_number(),
        Group::union_of(objects).max.is_number(),
    decreases objects.len(),
{
    if objects.len() > 0 {
        let shorter = objects.drop_last();
        assert forall|i: int| 0 <= i < shorter.len() implies (#[trigger] shorter[i]).boxed() by {
            assert(shorter[i] == objects[i]);
        }
        lemma_union_is_number(shorter);
        assert(objects[objects.len() - 1].boxed());
    }
}

/// The primitives under some objects and one more are those under the
/// objects and then those under the one.
proof fn lemma_leaves_of_one_more(objects: Seq<Object>, object: Object)
    ensures
        leaves_of(objects.push(object)) == leaves_of(objects) + object.leaves(),
        leaves_of(objects.push(object)).to_multiset() == leaves_of(objects).to_multiset().add(
            object.leaves().to_multiset(),
        ),
{
    assert(objects.push(object).drop_last() =~= objects);
    vstd::seq_lib::lemma_multiset_commutative(leaves_of(objects), object.leaves());
}

/// Two rows of objects with the same primitives under the objects at each
/// place have the same primitives under them.
proof fn lemma_leaves_go_by_the_children(before: Seq<Object>, after: Seq<Object>)
    requires
        before.len() == after.len(),
        forall|i: int|
            0 <= i < before.len() ==> (#[trigger] after[i]).leaves().to_multiset()
                == before[i].leaves().to_multiset(),
    ensures
        leaves_of(after).to_multiset() == leaves_of(before).to_multiset(),
    decreases before.len(),
{
    if before.len() > 0 {
        let b = before.drop_last();
        let a = after.drop_last();
        assert forall|i: int| 0 <= i < b.len() implies (#[trigger] a[i]).leaves().to_multiset()
            == b[i].leaves().to_multiset() by {
            assert(a[i] == after[i]);
            assert(b[i] == before[i]);
        }
        lemma_leaves_go_by_the_children(b, a);
        assert(before =~= b.push(before.last()));
        assert(after =~= a.push(after.last()));
        lemma_leaves_of_one_more(b, before.last());
        lemma_leaves_of_one_more(a, after.last());
        assert(after[after.len() - 1].leaves().to_multiset() == before[before.len()
            - 1].leaves().to_multiset());
    }
}

/// The primitives under the three buckets of a division are together the
/// primitives under the children.
proof fn lemma_buckets_keep_leaves(objects: Seq<Object>, left: &BoundingBox, right: &BoundingBox)
    ensures
        leaves_of(Group::left_bucket(objects, left)).to_multiset().add(
            leaves_of(Group::right_bucket(objects, left, right)).to_multiset(),
        ).add(leaves_of(Group::middle_bucket(objects, left, right)).to_multiset()) == leaves_of(
            objects,
        ).to_multiset(),
    decreases objects.len(),
{
    broadcast use vstd::multiset::group_multiset_axioms;
    broadcast use vstd::seq_lib::group_to_multiset_ensures;

    let in_left = |o: Object| left.spec_contains_box(&o.bounds);
    let in_right = |o: Object|
        !left.spec_contains_box(&o.bounds) && right.spec_contains_box(&o.bounds);
    let in_middle = |o: Object|
        !left.spec_contains_box(&o.bounds) && !right.spec_contains_box(&o.bounds);
    let l = Group::left_bucket(objects, left);
    let r = Group::right_bucket(objects, left, right);
    let m = Group::middle_bucket(objects, left, right);
    if objects.len() == 0 {
        assert(objects.filter(in_left) =~= Seq::<Object>::empty());
        assert(objects.filter(in_right) =~= Seq::<Object>::empty());
        assert(objects.filter(in_middle) =~= Seq::<Object>::empty());
        assert(leaves_of(l).to_multiset().add(leaves_of(r).to_multiset()).add(
            leaves_of(m).to_multiset(),
        ) =~= leaves_of(objects).to_multiset());
    } else {
        let shorter = objects.drop_last();
        let last = objects.last();
        lemma_buckets_keep_leaves(shorter, left, right);
        assert(objects =~= shorter.push(last));
        shorter.lemma_filter_push(last, in_left);
        shorter.lemma_filter_push(last, in_right);
        shorter.lemma_filter_push(last, in_middle);
        let l0 = Group::left_bucket(shorter, left);
        let r0 = Group::right_bucket(shorter, left, right);
        let m0 = Group::middle_bucket(shorter, left, right);
        let under_last = last.leaves().to_multiset();
        let a = leaves_of(l0).to_multiset();
        let b = leaves_of(r0).to_multiset();
        let c = leaves_of(m0).to_multiset();
        lemma_leaves_of_one_more(shorter, last);
        assert(leaves_of(objects).to_multiset() == a.add(b).add(c).add(under_last));
        if in_left(last) {
            assert(l == l0.push(last) && r == r0 && m == m0);
            lemma_leaves_of_one_more(l0, last);
            assert(a.add(under_last).add(b).add(c) =~= a.add(b).add(c).add(under_last));
        } else if in_right(last) {
            assert(l == l0 && r == r0.push(last) && m == m0);
            lemma_leaves_of_one_more(r0, last);
            assert(a.add(b.add(under_last)).add(c) =~= a.add(b).add(c).add(under_last));
        } else {
            assert(l == l0 && r == r0 && m == m0.push(last));
            lemma_leaves_of_one_more(m0, last);
            assert(a.add(b).add(c.add(under_last)) =~= a.add(b).add(c).add(under_last));
        }
    }
}

/// One division of the children of a group loses no primitive and makes
/// none up.
proof fn lemma_one_division_keeps_leaves<F: Fn(&BoundingBox) -> (Vec3, Vec3)>(
    before: Seq<Object>,
    mid: Seq<Object>,
    threshold: usize,
    measure: F,
)
    requires
        divided_once(before, mid, threshold, measure),
    ensures
        leaves_of(mid).to_multiset() == leaves_of(before).to_multiset(),
{
    broadcast use vstd::multiset::group_multiset_axioms;
    broadcast use vstd::seq_lib::group_to_multiset_ensures;

    if threshold <= before.len() {
        let halves = choose|halves: (BoundingBox, BoundingBox)| #[trigger]
            Group::union_of(before).halves_of(measure, halves) && Group::divided(
                before,
                mid,
                threshold,
                &halves.0,
                &halves.1,
            );
        let l = Group::left_bucket(before, &halves.0);
        let r = Group::right_bucket(before, &halves.0, &halves.1);
        let m = Group::middle_bucket(before, &halves.0, &halves.1);
        lemma_buckets_keep_leaves(before, &halves.0, &halves.1);
        let l_count: int = if l.len() > 0 { 1 } else { 0 };
        let with_left = if l.len() > 0 { m.push(mid[m.len() as int]) } else { m };
        let with_both = if r.len() > 0 { with_left.push(mid[m.len() + l_count]) } else { with_left };
        assert(mid.take(m.len() as int) == m);
        assert(mid =~= with_both) by {
            assert forall|i: int| 0 <= i < mid.len() implies mid[i] == with_both[i] by {
                if i < m.len() {
                    assert(mid.take(m.len() as int)[i] == mid[i]);
                }
            }
        }
        let a = leaves_of(l).to_multiset();
        let b = leaves_of(r).to_multiset();
        let c = leaves_of(m).to_multiset();
        if l.len() > 0 {
            lemma_leaves_of_one_more(m, mid[m.len() as int]);
            assert(mid[m.len() as int].leaves() == leaves_of(l));
        } else {
            assert(leaves_of(l) =~= Seq::<Object>::empty());
        }
        assert(leaves_of(with_left).to_multiset() =~= c.add(a));
        if r.len() > 0 {
            lemma_leaves_of_one_more(with_left, mid[m.len() + l_count]);
            assert(mid[m.len() + l_count].leaves() == leaves_of(r));
        } else {
            assert(leaves_of(r) =~= Seq::<Object>::empty());
        }
        assert(leaves_of(with_both).to_multiset() =~= c.add(a).add(b));
        assert(c.add(a).add(b) =~= a.add(b).add(c));
    }
}

/// The union of the boxes of some objects that all lie in one box lies in
/// that box, and its corners are numbers where theirs are.
proof fn lemma_union_lies_within(objects: Seq<Object>, bounds: BoundingBox)
    requires
        objects.len() > 0,
        bounds.min.is_number(),
        bounds.max.is_number(),
        forall|i: int|
            0 <= i < objects.len() ==> bounds.spec_contains_box(&(#[trigger] objects[i]).bounds),
    ensures
        bounds.spec_contains_box(&Group::union_of(objects)),
        Group::union_of(objects).min.is_number(),
        Group::union_of(objects).max.is_number(),
    decreases objects.len(),
{
    let shorter = objects.drop_last();
    assert(bounds.spec_contains_box(&objects[objects.len() - 1].bounds));
    if shorter.len() > 0 {
        assert forall|i: int| 0 <= i < shorter.len() implies bounds.spec_contains_box(
            &(#[trigger] shorter[i]).bounds,
        ) by {
            assert(shorter[i] == objects[i]);
        }
        lemma_union_lies_within(shorter, bounds);
    } else {
        assert(Group::union_of(shorter) == BoundingBox::empty());
    }
}

/// The objects of a bucket are among the children that were divided.
proof fn lemma_bucket_comes_from_children(
    objects: Seq<Object>,
    pred: spec_fn(Object) -> bool,
    bounds: BoundingBox,
)
    requires
        all_boxed_in(objects, bounds),
    ensures
        all_boxed_in(objects.filter(pred), bounds),
{
    let bucket = objects.filter(pred);
    assert forall|i: int| 0 <= i < bucket.len() implies bounds.spec_contains_box(
        &(#[trigger] bucket[i]).bounds,
    ) && bucket[i].boxed() by {
        assert(bucket.contains(bucket[i]));
        objects.lemma_filter_contains_rev(pred, bucket[i]);
        let j = choose|j: int| 0 <= j < objects.len() && objects[j] == bucket[i];
        assert(bounds.spec_contains_box(&objects[j].bounds) && objects[j].boxed());
    }
}

/// A sub-group that wraps objects of reliable boxes within a box has
/// reliable boxes itself and lies within that box.
proof fn lemma_wrap_is_boxed(wrap: Object, children: Seq<Object>, bounds: BoundingBox)
    requires
        Group::wraps(wrap, children),
        children.len() > 0,
        bounds.min.is_number(),
        bounds.max.is_number(),
        all_boxed_in(children, bounds),
    ensures
        wrap.boxed(),
        bounds.spec_contains_box(&wrap.bounds),
{
    lemma_union_lies_within(children, bounds);
    let g = wrap.shape->Group_0;
    assert forall|i: int| 0 <= i < g@.len() implies wrap.bounds.spec_contains_box(
        &(#[trigger] g@[i]).bounds,
    ) && g@[i].boxed() by {
        crate::shapes::group::lemma_union_holds_each_child(children, i);
        assert(children[i].boxed());
    }
}

/// One division of the children of a group keeps what it leaves among them
/// within the box of the group, with reliable boxes.
proof fn lemma_one_division_keeps_boxes<F: Fn(&BoundingBox) -> (Vec3, Vec3)>(
    before: Seq<Object>,
    mid: Seq<Object>,
    threshold: usize,
    measure: F,
    bounds: BoundingBox,
)
    requires
        divided_once(before, mid, threshold, measure),
        bounds.min.is_number(),
        bounds.max.is_number(),
        all_boxed_in(before, bounds),
    ensures
        all_boxed_in(mid, bounds),
{
    if threshold <= before.len() {
        let halves = choose|halves: (BoundingBox, BoundingBox)| #[trigger]
            Group::union_of(before).halves_of(measure, halves) && Group::divided(
                before,
                mid,
                threshold,
                &halves.0,
                &halves.1,
            );
        let left = &halves.0;
        let right = &halves.1;
        let l = Group::left_bucket(before, left);
        let r = Group::right_bucket(before, left, right);
        let m = Group::middle_bucket(before, left, right);
        lemma_bucket_comes_from_children(
            before,
            |o: Object| left.spec_contains_box(&o.bounds),
            bounds,
        );
        lemma_bucket_comes_from_children(
            before,
            |o: Object| !left.spec_contains_box(&o.bounds) && right.spec_contains_box(&o.bounds),
            bounds,
        );
        lemma_bucket_comes_from_children(
            before,
            |o: Object| !left.spec_contains_box(&o.bounds) && !right.spec_contains_box(&o.bounds),
            bounds,
        );
        let l_count: int = if l.len() > 0 { 1 } else { 0 };
        if l.len() > 0 {
            lemma_wrap_is_boxed(mid[m.len() as int], l, bounds);
        }
        if r.len() > 0 {
            lemma_wrap_is_boxed(mid[m.len() + l_count], r, bounds);
        }
        assert forall|i: int| 0 <= i < mid.len() implies bounds.spec_contains_box(
            &(#[trigger] mid[i]).bounds,
        ) && mid[i].boxed() by {
            if i < m.len() {
                assert(mid.take(m.len() as int)[i] == mid[i]);
                assert(m[i].boxed());
            }
        }
    }
}

} // verus!
