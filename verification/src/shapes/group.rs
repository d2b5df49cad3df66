use vstd::prelude::*;
use crate::bounds::BoundingBox;
use crate::object::Object;
use crate::shapes::shape::Shape;

verus! {

/// An ordered collection of child objects.
#[derive(Debug, PartialEq)]
pub struct Group {
    pub objects: Vec<Object>,
}

impl View for Group {
    type V = Seq<Object>;

    /// The children, in order.
    open spec fn view(&self) -> Seq<Object> {
        self.objects@
    }
}

impl Group {
    /// The union of the boxes of some objects: the empty box merged with
    /// each object's box in turn.
    pub open spec fn union_of(objects: Seq<Object>) -> BoundingBox
        decreases objects.len(),
    {
        if objects.len() == 0 {
            BoundingBox::empty()
        } else {
            Group::union_of(objects.drop_last()).spec_merge(&objects.last().bounds)
        }
    }

    /// The union of the children's boxes.
    pub open spec fn spec_bounds(&self) -> BoundingBox {
        Group::union_of(self@)
    }

    /// The children that lie wholly in the left half.
    pub open spec fn left_bucket(objects: Seq<Object>, left: &BoundingBox) -> Seq<Object> {
        objects.filter(|o: Object| left.spec_contains_box(&o.bounds))
    }

    /// The children that lie wholly in the right half and not in the left.
    pub open spec fn right_bucket(
        objects: Seq<Object>,
        left: &BoundingBox,
        right: &BoundingBox,
    ) -> Seq<Object> {
        objects.filter(
            |o: Object| !left.spec_contains_box(&o.bounds) && right.spec_contains_box(&o.bounds),
        )
    }

    /// The children that lie wholly in neither half.
    pub open spec fn middle_bucket(
        objects: Seq<Object>,
        left: &BoundingBox,
        right: &BoundingBox,
    ) -> Seq<Object> {
        objects.filter(
            |o: Object| !left.spec_contains_box(&o.bounds) && !right.spec_contains_box(&o.bounds),
        )
    }

    /// Whether an object is the sub-group that wraps the given children: a
    /// new object whose shape is a group of exactly them, and whose box is
    /// therefore the union of theirs.
    pub open spec fn wraps(object: Object, children: Seq<Object>) -> bool {
        &&& object.shape matches Shape::Group(g) && g@ == children
        &&& object.is_new(object.shape)
        &&& object.bounds == Group::union_of(children)
    }

    /// Whether `after` is what one division makes of the children `before`.
    ///
    /// Fewer children than the threshold are left alone. Otherwise the
    /// children that lie in neither half stay, in order; after them comes a
    /// sub-group of those in the left half, if there are any, and then a
    /// sub-group of those in the right half, if there are any.
    pub open spec fn divided(
        before: Seq<Object>,
        after: Seq<Object>,
        threshold: usize,
        left: &BoundingBox,
        right: &BoundingBox,
    ) -> bool {
        if threshold > before.len() {
            after == before
        } else {
            let l = Group::left_bucket(before, left);
            let r = Group::right_bucket(before, left, right);
            let m = Group::middle_bucket(before, left, right);
            let l_count: int = if l.len() > 0 { 1 } else { 0 };
            let r_count: int = if r.len() > 0 { 1 } else { 0 };
            &&& after.len() == m.len() + l_count + r_count
            &&& after.take(m.len() as int) == m
            &&& l.len() > 0 ==> Group::wraps(after[m.len() as int], l)
            &&& r.len() > 0 ==> Group::wraps(after[m.len() + l_count], r)
        }
    }

    pub fn new() -> (group: Self)
        ensures
            group@ == Seq::<Object>::empty(),
    {
        Group { objects: Vec::new() }
    }

    pub fn with_objects(self, objects: Vec<Object>) -> (group: Self)
        ensures
            group@ == objects@,
    {
        Group { objects }
    }

    pub fn objects(&self) -> (objects: &Vec<Object>)
        ensures
            objects@ == self@,
    {
        &self.objects
    }

    pub fn objects_mut(&mut self) -> (objects: &mut Vec<Object>)
        ensures
            objects@ == old(self)@,
            final(self)@ == final(objects)@,
    {
        &mut self.objects
    }

    pub fn bounds(&self) -> (b: BoundingBox)
        ensures
            b == self.spec_bounds(),
    {
        let mut b: BoundingBox = BoundingBox::default();
        let mut k: usize = 0;
        while k < self.objects.len()
            invariant
                k <= self.objects.len(),
                b == Group::union_of(self.objects@.take(k as int)),
            decreases self.objects.len() - k,
        {
            proof {
                let longer = self.objects@.take(k + 1);
                assert(longer.drop_last() =~= self.objects@.take(k as int));
            }
            b = b.merge(&self.objects[k].bounds);
            k += 1;
        }
        assert(self.objects@.take(k as int) =~= self.objects@);
        b
    }

    /// Takes the children that lie wholly in the left half, and of the rest
    /// those that lie wholly in the right half, out of the group and
    /// returns them as two groups. The others stay. Each of the three keeps
    /// the order that the children had.
    pub fn partition_children(&mut self, left: &BoundingBox, right: &BoundingBox) -> (parts: (
        Group,
        Group,
    ))
        ensures
            parts.0@ == Group::left_bucket(old(self)@, left),
            parts.1@ == Group::right_bucket(old(self)@, left, right),
            final(self)@ == Group::middle_bucket(old(self)@, left, right),
    {
        let mut all: Vec<Object> = Vec::new();
        core::mem::swap(&mut all, &mut self.objects);
        let ghost before: Seq<Object> = all@;
        let ghost in_left = |o: Object| left.spec_contains_box(&o.bounds);
        let ghost in_right = |o: Object|
            !left.spec_contains_box(&o.bounds) && right.spec_contains_box(&o.bounds);
        let ghost in_middle = |o: Object|
            !left.spec_contains_box(&o.bounds) && !right.spec_contains_box(&o.bounds);
        let mut left_objects: Vec<Object> = Vec::new();
        let mut right_objects: Vec<Object> = Vec::new();
        let mut middle_objects: Vec<Object> = Vec::new();
        for object in it: all.into_iter()
            invariant
                it.seq() == before,
                left_objects@ == before.take(it.index() as int).filter(in_left),
                right_objects@ == before.take(it.index() as int).filter(in_right),
                middle_objects@ == before.take(it.index() as int).filter(in_middle),
                in_left == (|o: Object| left.spec_contains_box(&o.bounds)),
                in_right == (|o: Object|
                    !left.spec_contains_box(&o.bounds) && right.spec_contains_box(&o.bounds)),
                in_middle == (|o: Object|
                    !left.spec_contains_box(&o.bounds) && !right.spec_contains_box(&o.bounds)),
        {
            proof {
                let k = it.index() as int;
                let shorter = before.take(k);
                assert(before.take(k + 1) =~= shorter.push(object));
                shorter.lemma_filter_push(object, in_left);
                shorter.lemma_filter_push(object, in_right);
                shorter.lemma_filter_push(object, in_middle);
            }
            if left.contains_box(&object.bounds) {
                left_objects.push(object);
            } else if right.contains_box(&object.bounds) {
                right_objects.push(object);
            } else {
                middle_objects.push(object);
            }
        }
        assert(before.take(before.len() as int) =~= before);
        self.objects = middle_objects;
        (Group::new().with_objects(left_objects), Group::new().with_objects(right_objects))
    }

    /// Appends a sub-group that wraps the given objects.
    pub fn make_subgroup(&mut self, objects: Vec<Object>)
        ensures
            final(self)@.len() == old(self)@.len() + 1,
            final(self)@.drop_last() == old(self)@,
            Group::wraps(final(self)@.last(), objects@),
    {
        let ghost before = self.objects@;
        self.objects.push(Object::new(Shape::Group(Group::new().with_objects(objects))));
        assert(self.objects@.drop_last() =~= before);
    }

    /// Divides the group once between the two given halves of its box,
    /// where it has at least `threshold` children.
    pub fn divide_once(&mut self, threshold: usize, left: &BoundingBox, right: &BoundingBox)
        ensures
            Group::divided(old(self)@, final(self)@, threshold, left, right),
    {
        if threshold <= self.objects.len() {
            let ghost before = self@;
            let (left_group, right_group) = self.partition_children(left, right);
            let ghost middle = self@;
            if !left_group.objects.is_empty() {
                self.make_subgroup(left_group.objects);
            }
            let ghost with_left = self@;
            if !right_group.objects.is_empty() {
                self.make_subgroup(right_group.objects);
            }
            proof {
                assert(with_left.take(middle.len() as int) =~= middle);
                assert(self@.take(middle.len() as int) =~= middle);
            }
        }
    }
}

/// The union of the children's boxes holds both corners of each child's
/// box: a ray that misses the union misses every child.
pub proof fn lemma_union_holds_each_child(objects: Seq<Object>, i: int)
    requires
        0 <= i < objects.len(),
    ensures
        Group::union_of(objects).spec_contains_box(&objects[i].bounds),
    decreases objects.len(),
{
    let before = Group::union_of(objects.drop_last());
    let last = objects.last().bounds;
    if i == objects.len() - 1 {
        crate::bounds::lemma_merge_grows(before, last, last.min);
    } else {
        lemma_union_holds_each_child(objects.drop_last(), i);
        assert(objects.drop_last()[i] == objects[i]);
        crate::bounds::lemma_merge_grows(before, last, objects[i].bounds.min);
        crate::bounds::lemma_merge_grows(before, last, objects[i].bounds.max);
    }
}

/// A division loses no child and makes none up: the three buckets together
/// hold what the group held.
pub proof fn lemma_buckets_hold_every_child(
    objects: Seq<Object>,
    left: &BoundingBox,
    right: &BoundingBox,
)
    ensures
        Group::left_bucket(objects, left).to_multiset().add(
            Group::right_bucket(objects, left, right).to_multiset(),
        ).add(Group::middle_bucket(objects, left, right).to_multiset()) == objects.to_multiset(),
    decreases objects.len(),
{
    broadcast use vstd::seq_lib::group_to_multiset_ensures;

    let in_left = |o: Object| left.spec_contains_box(&o.bounds);
    let in_right = |o: Object|
        !left.spec_contains_box(&o.bounds) && right.spec_contains_box(&o.bounds);
    let in_middle = |o: Object|
        !left.spec_contains_box(&o.bounds) && !right.spec_contains_box(&o.bounds);
    if objects.len() == 0 {
        assert(objects.filter(in_left) =~= Seq::<Object>::empty());
        assert(objects.filter(in_right) =~= Seq::<Object>::empty());
        assert(objects.filter(in_middle) =~= Seq::<Object>::empty());
        assert(Group::left_bucket(objects, left).to_multiset().add(
            Group::right_bucket(objects, left, right).to_multiset(),
        ).add(Group::middle_bucket(objects, left, right).to_multiset()) =~= objects.to_multiset());
    } else {
        let shorter = objects.drop_last();
        let last = objects.last();
        lemma_buckets_hold_every_child(shorter, left, right);
        assert(objects =~= shorter.push(last));
        shorter.lemma_filter_push(last, in_left);
        shorter.lemma_filter_push(last, in_right);
        shorter.lemma_filter_push(last, in_middle);
        assert(Group::left_bucket(objects, left).to_multiset().add(
            Group::right_bucket(objects, left, right).to_multiset(),
        ).add(Group::middle_bucket(objects, left, right).to_multiset()) =~= objects.to_multiset());
    }
}

impl Default for Group {
    fn default() -> (group: Self)
        ensures
            group@ == Seq::<Object>::empty(),
    {
        Group::new()
    }
}

} // verus!
