//! Axis-aligned bounding boxes over ranks.

use vstd::prelude::*;
use crate::scalar;

verus! {

/// Three ranks: a point or a direction of three-dimensional space.
#[derive(Clone, Copy, Debug, PartialEq, Eq, Structural)]
pub struct Vec3 {
    pub x: i64,
    pub y: i64,
    pub z: i64,
}

impl Vec3 {
    pub fn new(x: i64, y: i64, z: i64) -> (v: Self)
        ensures
            v == (Vec3 { x, y, z }),
    {
        Vec3 { x, y, z }
    }

    /// A point with the same rank on all three axes.
    pub fn splat(rank: i64) -> (v: Self)
        ensures
            v == (Vec3 { x: rank, y: rank, z: rank }),
    {
        Vec3 { x: rank, y: rank, z: rank }
    }

    /// The rank of the number with the opposite sign. The least integer,
    /// which is no rank, is taken for the rank below every number.
    pub open spec fn opposite(rank: i64) -> i64 {
        if rank == i64::MIN {
            i64::MAX
        } else {
            (-rank) as i64
        }
    }

    /// The vector that points the other way.
    pub open spec fn spec_negated(self) -> Vec3 {
        Vec3 { x: Vec3::opposite(self.x), y: Vec3::opposite(self.y), z: Vec3::opposite(self.z) }
    }

    /// The vector that points the other way: the sign of a number is the
    /// sign of its rank, so that no arithmetic is needed to turn it.
    #[verifier::when_used_as_spec(spec_negated)]
    pub fn negated(self) -> (v: Vec3)
        ensures
            v == self.spec_negated(),
    {
        Vec3 {
            x: if self.x == i64::MIN { i64::MAX } else { -self.x },
            y: if self.y == i64::MIN { i64::MAX } else { -self.y },
            z: if self.z == i64::MIN { i64::MAX } else { -self.z },
        }
    }

    /// The rank on one axis.
    pub open spec fn along(self, axis: Axis) -> i64 {
        match axis {
            Axis::X => self.x,
            Axis::Y => self.y,
            Axis::Z => self.z,
        }
    }

    /// The same point with the rank on one axis replaced.
    pub open spec fn with_along(self, axis: Axis, rank: i64) -> Vec3 {
        match axis {
            Axis::X => Vec3 { x: rank, ..self },
            Axis::Y => Vec3 { y: rank, ..self },
            Axis::Z => Vec3 { z: rank, ..self },
        }
    }

    /// The point whose rank on each axis is the smaller of the two.
    pub open spec fn lower(self, other: Vec3) -> Vec3 {
        Vec3 {
            x: scalar::min_rank(self.x as int, other.x as int) as i64,
            y: scalar::min_rank(self.y as int, other.y as int) as i64,
            z: scalar::min_rank(self.z as int, other.z as int) as i64,
        }
    }

    /// The point whose rank on each axis is the larger of the two.
    pub open spec fn upper(self, other: Vec3) -> Vec3 {
        Vec3 {
            x: scalar::max_rank(self.x as int, other.x as int) as i64,
            y: scalar::max_rank(self.y as int, other.y as int) as i64,
            z: scalar::max_rank(self.z as int, other.z as int) as i64,
        }
    }

    /// All three ranks stand for numbers.
    pub open spec fn is_number(self) -> bool {
        scalar::is_number(self.x as int) && scalar::is_number(self.y as int) && scalar::is_number(
            self.z as int,
        )
    }

    /// On every axis this point is at most the other.
    pub open spec fn at_most(self, other: Vec3) -> bool {
        self.x <= other.x && self.y <= other.y && self.z <= other.z
    }
}

/// One of the three coordinate axes.
#[derive(Clone, Copy, Debug, PartialEq, Eq, Structural)]
pub enum Axis {
    X,
    Y,
    Z,
}

/// The entry and exit times of a ray through the slab between two parallel
/// planes, in the order in which they were computed.
#[derive(Clone, Copy, Debug, PartialEq, Eq, Structural)]
pub struct Slab {
    pub first: i64,
    pub second: i64,
}

impl Slab {
    /// The time at which the ray enters the slab: the smaller of the two.
    pub open spec fn entry(self) -> int {
        scalar::min_rank(self.first as int, self.second as int)
    }

    /// The time at which the ray leaves the slab: the larger of the two.
    pub open spec fn exit(self) -> int {
        scalar::max_rank(self.first as int, self.second as int)
    }
}

/// Whether a ray moves along an axis: the part of its direction along the
/// axis is a number whose size is the machine epsilon or more.
pub open spec fn moves(direction: i64) -> bool {
    scalar::is_number(direction as int) && scalar::magnitude(direction as int) >= scalar::EPSILON
}

/// The time at which a ray that does not move along an axis crosses a
/// plane across the axis that lies `distance` away: at the end of time on
/// the side on which the plane lies, and at no time where the ray is in the
/// plane. What is no time is no number.
pub open spec fn never(distance: i64) -> i64 {
    if 0 < distance <= scalar::INFINITY {
        scalar::INFINITY
    } else if scalar::NEG_INFINITY <= distance < 0 {
        scalar::NEG_INFINITY
    } else {
        i64::MAX
    }
}

/// A time of entry: a time that is no number bounds nothing, and stands
/// for the beginning of time.
pub open spec fn entering(time: i64) -> i64 {
    if scalar::is_number(time as int) {
        time
    } else {
        scalar::NEG_INFINITY
    }
}

/// A time of exit: a time that is no number bounds nothing, and stands for
/// the end of time.
pub open spec fn leaving(time: i64) -> i64 {
    if scalar::is_number(time as int) {
        time
    } else {
        scalar::INFINITY
    }
}

impl Slab {
    /// Whether the slab holds the times at which a ray crosses the two
    /// planes across one axis, which lie `near` and `far` away from the
    /// origin of the ray. Where the ray moves along the axis, the times are
    /// the distances over the direction, as `over` gives them. Where it does
    /// not, it runs beside the planes and never crosses them.
    pub open spec fn crosses<D: Fn(i64, i64) -> i64>(
        self,
        direction: i64,
        near: i64,
        far: i64,
        over: D,
    ) -> bool {
        if moves(direction) {
            exists|first: i64, second: i64|
                #![trigger over.ensures((near, direction), first), over.ensures((far, direction), second)]
                {
                    &&& over.ensures((near, direction), first)
                    &&& over.ensures((far, direction), second)
                    &&& self == (Slab { first: entering(first), second: leaving(second) })
                }
        } else {
            self == (Slab { first: entering(never(near)), second: leaving(never(far)) })
        }
    }

    /// The times at which a ray crosses the two planes across one axis.
    /// `direction` is the part of the direction of the ray along the axis,
    /// `near` and `far` are the distances from the origin of the ray to the
    /// two planes, and `over` gives a quotient.
    pub fn across<D: Fn(i64, i64) -> i64>(direction: i64, near: i64, far: i64, over: &D) -> (slab:
        Slab)
        requires
            forall|a: i64, b: i64| #[trigger] over.requires((a, b)),
        ensures
            slab.crosses(direction, near, far, *over),
    {
        let (first, second) = if scalar::NEG_INFINITY <= direction && direction
            <= scalar::INFINITY && scalar::abs(direction) >= scalar::EPSILON as u64 {
            let first: i64 = over(near, direction);
            let second: i64 = over(far, direction);
            (first, second)
        } else {
            (Slab::beside(near), Slab::beside(far))
        };
        Slab {
            first: if scalar::NEG_INFINITY <= first && first <= scalar::INFINITY {
                first
            } else {
                scalar::NEG_INFINITY
            },
            second: if scalar::NEG_INFINITY <= second && second <= scalar::INFINITY {
                second
            } else {
                scalar::INFINITY
            },
        }
    }

    /// The time at which a ray that does not move along an axis crosses a
    /// plane across the axis.
    fn beside(distance: i64) -> (time: i64)
        ensures
            time == never(distance),
    {
        if 0 < distance && distance <= scalar::INFINITY {
            scalar::INFINITY
        } else if scalar::NEG_INFINITY <= distance && distance < 0 {
            scalar::NEG_INFINITY
        } else {
            i64::MAX
        }
    }
}

/// The last of the three entry times: from then on the ray is inside all
/// three slabs, until the first exit.
pub open spec fn last_entry(x: Slab, y: Slab, z: Slab) -> int {
    scalar::max_rank(x.entry(), scalar::max_rank(y.entry(), z.entry()))
}

/// The first of the three exit times.
pub open spec fn first_exit(x: Slab, y: Slab, z: Slab) -> int {
    scalar::min_rank(x.exit(), scalar::min_rank(y.exit(), z.exit()))
}

/// The stretch of a ray that lies inside three slabs at once, as the pair of
/// the last entry and the first exit. The stretch is empty where the first
/// number is the larger.
pub fn slab_interval(x: Slab, y: Slab, z: Slab) -> (r: (i64, i64))
    ensures
        r.0 == last_entry(x, y, z),
        r.1 == first_exit(x, y, z),
{
    let enter: i64 = scalar::max(
        scalar::min(x.first, x.second),
        scalar::max(scalar::min(y.first, y.second), scalar::min(z.first, z.second)),
    );
    let leave: i64 = scalar::min(
        scalar::max(x.first, x.second),
        scalar::min(scalar::max(y.first, y.second), scalar::max(z.first, z.second)),
    );
    (enter, leave)
}

/// An axis-aligned box, given by its least and its greatest corner.
///
/// A box whose least corner is not at most its greatest holds no point. The
/// empty box of `default` is the one such box that any point can be added to:
/// its least corner is at positive infinity and its greatest at negative
/// infinity.
#[derive(Clone, Copy, Debug, PartialEq, Eq, Structural)]
pub struct BoundingBox {
    pub min: Vec3,
    pub max: Vec3,
}

/// Whether each of the images is what the map gives for the point at the
/// same place.
pub open spec fn maps_onto<F: Fn(Vec3) -> Vec3>(map: F, points: Seq<Vec3>, images: Seq<Vec3>) -> bool {
    &&& images.len() == points.len()
    &&& forall|i: int| 0 <= i < points.len() ==> map.ensures((#[trigger] points[i],), images[i])
}

impl BoundingBox {
    /// The box that holds no point and takes any.
    pub open spec fn empty() -> BoundingBox {
        BoundingBox {
            min: Vec3 { x: scalar::INFINITY, y: scalar::INFINITY, z: scalar::INFINITY },
            max: Vec3 { x: scalar::NEG_INFINITY, y: scalar::NEG_INFINITY, z: scalar::NEG_INFINITY },
        }
    }

    /// The point lies in the box, its faces included.
    pub open spec fn spec_contains_point(&self, point: Vec3) -> bool {
        self.min.at_most(point) && point.at_most(self.max)
    }

    /// Both corners of the other box lie in this one.
    pub open spec fn spec_contains_box(&self, other: &BoundingBox) -> bool {
        self.spec_contains_point(other.min) && self.spec_contains_point(other.max)
    }

    /// The least box that holds this box and the point.
    pub open spec fn spec_add_point(self, point: Vec3) -> BoundingBox {
        BoundingBox { min: self.min.lower(point), max: self.max.upper(point) }
    }

    /// The least box that holds this box and both corners of the other.
    pub open spec fn spec_merge(self, other: &BoundingBox) -> BoundingBox {
        self.spec_add_point(other.min).spec_add_point(other.max)
    }

    /// The least box that holds all the points: the empty box with the
    /// points added one by one.
    pub open spec fn enclosing(points: Seq<Vec3>) -> BoundingBox
        decreases points.len(),
    {
        if points.len() == 0 {
            BoundingBox::empty()
        } else {
            BoundingBox::enclosing(points.drop_last()).spec_add_point(points.last())
        }
    }

    /// The eight corners: the least one first, the greatest one last, x
    /// changing fastest and z slowest.
    pub open spec fn spec_corners(&self) -> Seq<Vec3> {
        let lo = self.min;
        let hi = self.max;
        seq![
            lo,
            Vec3 { x: hi.x, y: lo.y, z: lo.z },
            Vec3 { x: lo.x, y: hi.y, z: lo.z },
            Vec3 { x: hi.x, y: hi.y, z: lo.z },
            Vec3 { x: lo.x, y: lo.y, z: hi.z },
            Vec3 { x: hi.x, y: lo.y, z: hi.z },
            Vec3 { x: lo.x, y: hi.y, z: hi.z },
            hi,
        ]
    }

    pub fn new(min: Vec3, max: Vec3) -> (b: Self)
        ensures
            b == (BoundingBox { min, max }),
    {
        Self { min, max }
    }

    pub fn min(&self) -> (p: Vec3)
        ensures
            p == self.min,
    {
        self.min
    }

    pub fn max(&self) -> (p: Vec3)
        ensures
            p == self.max,
    {
        self.max
    }

    #[verifier::when_used_as_spec(spec_merge)]
    pub fn merge(self, other: &BoundingBox) -> (b: Self)
        ensures
            b == self.spec_merge(other),
    {
        self.add_point(other.min).add_point(other.max)
    }

    #[verifier::when_used_as_spec(spec_add_point)]
    pub fn add_point(self, new_point: Vec3) -> (b: Self)
        ensures
            b == self.spec_add_point(new_point),
    {
        let min: Vec3 = Vec3::new(
            scalar::min(self.min.x, new_point.x),
            scalar::min(self.min.y, new_point.y),
            scalar::min(self.min.z, new_point.z),
        );
        let max: Vec3 = Vec3::new(
            scalar::max(self.max.x, new_point.x),
            scalar::max(self.max.y, new_point.y),
            scalar::max(self.max.z, new_point.z),
        );
        Self { min, max }
    }

    #[verifier::when_used_as_spec(spec_contains_point)]
    pub fn contains_point(&self, point: Vec3) -> (inside: bool)
        ensures
            inside == self.spec_contains_point(point),
    {
        point.x >= self.min.x && point.y >= self.min.y && point.z >= self.min.z
            && point.x <= self.max.x && point.y <= self.max.y && point.z <= self.max.z
    }

    #[verifier::when_used_as_spec(spec_contains_box)]
    pub fn contains_box(&self, other: &BoundingBox) -> (inside: bool)
        ensures
            inside == self.spec_contains_box(other),
    {
        self.contains_point(other.min) && self.contains_point(other.max)
    }

    pub fn corners(&self) -> (c: [Vec3; 8])
        ensures
            c@ == self.spec_corners(),
    {
        let c: [Vec3; 8] = [
            self.min,
            Vec3::new(self.max.x, self.min.y, self.min.z),
            Vec3::new(self.min.x, self.max.y, self.min.z),
            Vec3::new(self.max.x, self.max.y, self.min.z),
            Vec3::new(self.min.x, self.min.y, self.max.z),
            Vec3::new(self.max.x, self.min.y, self.max.z),
            Vec3::new(self.min.x, self.max.y, self.max.z),
            self.max,
        ];
        assert(c@ =~= self.spec_corners());
        c
    }

    /// The box around the images of the eight corners under a map of
    /// space, such as a matrix gives. It is the least box that holds all
    /// eight images.
    pub fn transform<F: Fn(Vec3) -> Vec3>(self, map: F) -> (b: Self)
        requires
            forall|p: Vec3| #[trigger] map.requires((p,)),
        ensures
            exists|images: Seq<Vec3>|
                {
                    &&& #[trigger] maps_onto(map, self.spec_corners(), images)
                    &&& b == BoundingBox::enclosing(images)
                    &&& forall|i: int| 0 <= i < 8 ==> b.spec_contains_point(#[trigger] images[i])
                },
    {
        let c: [Vec3; 8] = self.corners();
        let mut b: BoundingBox = BoundingBox::default();
        let ghost mut images: Seq<Vec3> = Seq::empty();
        let mut k: usize = 0;
        while k < 8
            invariant
                k <= 8,
                c@ == self.spec_corners(),
                forall|p: Vec3| #[trigger] map.requires((p,)),
                images.len() == k,
                forall|i: int| 0 <= i < k ==> map.ensures((#[trigger] c@[i],), images[i]),
                b == BoundingBox::enclosing(images),
            decreases 8 - k,
        {
            let image: Vec3 = map(c[k]);
            b = b.add_point(image);
            proof {
                let longer = images.push(image);
                assert(longer.drop_last() =~= images);
                images = longer;
            }
            k += 1;
        }
        proof {
            assert(maps_onto(map, self.spec_corners(), images));
            assert forall|i: int| 0 <= i < 8 implies b.spec_contains_point(#[trigger] images[i]) by {
                lemma_enclosing_contains(images, i);
            }
        }
        b
    }

    /// A ray passes through a box where it has entered all three slabs
    /// before it leaves the first.
    pub open spec fn spec_intersects(x: Slab, y: Slab, z: Slab) -> bool {
        last_entry(x, y, z) < first_exit(x, y, z)
    }

    /// Whether a ray passes through the box, from its entry and exit times
    /// for the box's three pairs of faces.
    #[verifier::when_used_as_spec(spec_intersects)]
    pub fn intersects(x: Slab, y: Slab, z: Slab) -> (hit: bool)
        ensures
            hit == BoundingBox::spec_intersects(x, y, z),
    {
        let (enter, leave) = slab_interval(x, y, z);
        enter < leave
    }

    /// The two parts into which a plane across one axis cuts the box: the
    /// part below the plane and the part above it.
    pub fn split_at(&self, axis: Axis, rank: i64) -> (halves: (BoundingBox, BoundingBox))
        ensures
            halves.0 == (BoundingBox { min: self.min, max: self.max.with_along(axis, rank) }),
            halves.1 == (BoundingBox { min: self.min.with_along(axis, rank), max: self.max }),
    {
        let mut low_max: Vec3 = self.max;
        let mut high_min: Vec3 = self.min;
        match axis {
            Axis::X => {
                low_max.x = rank;
                high_min.x = rank;
            },
            Axis::Y => {
                low_max.y = rank;
                high_min.y = rank;
            },
            Axis::Z => {
                low_max.z = rank;
                high_min.z = rank;
            },
        }
        (BoundingBox { min: self.min, max: low_max }, BoundingBox { min: high_min, max: self.max })
    }

    /// The longest of the three axes of a box with the given extent: the
    /// first of them that no other is longer than.
    pub open spec fn longest(extent: Vec3) -> Axis {
        if extent.x >= extent.y && extent.x >= extent.z {
            Axis::X
        } else if extent.y >= extent.z {
            Axis::Y
        } else {
            Axis::Z
        }
    }

    /// The two halves of the box, where `extent` is how far the box
    /// reaches along each axis and `middle` is the middle of the box: the
    /// box is cut across its longest axis, in the middle. A box that
    /// reaches nowhere, or without end, has no halves: it is given two
    /// empty boxes, in which nothing lies.
    pub open spec fn halved(self, extent: Vec3, middle: Vec3) -> (BoundingBox, BoundingBox) {
        let axis = BoundingBox::longest(extent);
        if extent.along(axis) <= 0 || extent.along(axis) >= scalar::INFINITY {
            (BoundingBox::empty(), BoundingBox::empty())
        } else {
            (
                BoundingBox { min: self.min, max: self.max.with_along(axis, middle.along(axis)) },
                BoundingBox { min: self.min.with_along(axis, middle.along(axis)), max: self.max },
            )
        }
    }

    /// Whether `halves` are the two halves of the box, where `measure`
    /// gives how far the box reaches along each axis, and its middle.
    pub open spec fn halves_of<F: Fn(&BoundingBox) -> (Vec3, Vec3)>(
        self,
        measure: F,
        halves: (BoundingBox, BoundingBox),
    ) -> bool {
        exists|extent: Vec3, middle: Vec3|
            {
                &&& #[trigger] measure.ensures((&self,), (extent, middle))
                &&& halves == self.halved(extent, middle)
            }
    }

    /// The two halves of the box. `measure` gives how far the box reaches
    /// along each axis, and its middle.
    pub fn split<F: Fn(&BoundingBox) -> (Vec3, Vec3)>(&self, measure: &F) -> (halves: (
        BoundingBox,
        BoundingBox,
    ))
        requires
            forall|b: &BoundingBox| #[trigger] measure.requires((b,)),
        ensures
            self.halves_of(*measure, halves),
    {
        let (extent, middle) = measure(self);
        let (axis, greatest, at) = if extent.x >= extent.y && extent.x >= extent.z {
            (Axis::X, extent.x, middle.x)
        } else if extent.y >= extent.z {
            (Axis::Y, extent.y, middle.y)
        } else {
            (Axis::Z, extent.z, middle.z)
        };
        let halves = if greatest <= 0 || greatest >= scalar::INFINITY {
            (BoundingBox::default(), BoundingBox::default())
        } else {
            self.split_at(axis, at)
        };
        assert(measure.ensures((self,), (extent, middle)));
        halves
    }
}

/// A box with a point added holds the point, and holds whatever it held
/// before.
pub proof fn lemma_add_point_grows(b: BoundingBox, added: Vec3, held: Vec3)
    ensures
        b.spec_add_point(added).spec_contains_point(added),
        b.spec_contains_point(held) ==> b.spec_add_point(added).spec_contains_point(held),
{
}

/// The box around some points holds each of them.
pub proof fn lemma_enclosing_contains(points: Seq<Vec3>, i: int)
    requires
        0 <= i < points.len(),
    ensures
        BoundingBox::enclosing(points).spec_contains_point(points[i]),
    decreases points.len(),
{
    let before = BoundingBox::enclosing(points.drop_last());
    if i == points.len() - 1 {
        lemma_add_point_grows(before, points.last(), points.last());
    } else {
        lemma_enclosing_contains(points.drop_last(), i);
        assert(points.drop_last()[i] == points[i]);
        lemma_add_point_grows(before, points.last(), points[i]);
    }
}

/// The box around some points, each of them three numbers, is the least
/// box that holds them all: it lies within every box that does.
pub proof fn lemma_enclosing_is_least(points: Seq<Vec3>, other: BoundingBox)
    requires
        points.len() > 0,
        forall|i: int| 0 <= i < points.len() ==> (#[trigger] points[i]).is_number(),
        forall|i: int| 0 <= i < points.len() ==> other.spec_contains_point(#[trigger] points[i]),
    ensures
        other.spec_contains_box(&BoundingBox::enclosing(points)),
    decreases points.len(),
{
    let shorter = points.drop_last();
    assert(other.spec_contains_point(points[points.len() - 1]));
    assert(points[points.len() - 1].is_number());
    if shorter.len() > 0 {
        assert forall|i: int| 0 <= i < shorter.len() implies other.spec_contains_point(
            #[trigger] shorter[i],
        ) && shorter[i].is_number() by {
            assert(shorter[i] == points[i]);
        }
        lemma_enclosing_is_least(shorter, other);
    } else {
        assert(BoundingBox::enclosing(shorter) == BoundingBox::empty());
    }
}

/// A box that holds a point, merged with another box, holds both corners
/// of the other box and whatever it held before.
pub proof fn lemma_merge_grows(b: BoundingBox, other: BoundingBox, held: Vec3)
    ensures
        b.spec_merge(&other).spec_contains_box(&other),
        b.spec_contains_point(held) ==> b.spec_merge(&other).spec_contains_point(held),
{
}

/// The eight corners of a box that holds a point span the box again: a
/// map that leaves every point where it is leaves the box as it is.
pub proof fn lemma_corners_span_box(b: BoundingBox)
    requires
        b.min.at_most(b.max),
        b.min.is_number(),
        b.max.is_number(),
    ensures
        BoundingBox::enclosing(b.spec_corners()) == b,
{
    let c = b.spec_corners();
    let c7 = c.drop_last();
    let c6 = c7.drop_last();
    let c5 = c6.drop_last();
    let c4 = c5.drop_last();
    let c3 = c4.drop_last();
    let c2 = c3.drop_last();
    let c1 = c2.drop_last();
    let c0 = c1.drop_last();
    assert(c0.len() == 0);
    assert(BoundingBox::enclosing(c0) == BoundingBox::empty());
    assert(BoundingBox::enclosing(c1) == BoundingBox::empty().spec_add_point(c[0]));
    assert(BoundingBox::enclosing(c2) == BoundingBox::enclosing(c1).spec_add_point(c[1]));
    assert(BoundingBox::enclosing(c3) == BoundingBox::enclosing(c2).spec_add_point(c[2]));
    assert(BoundingBox::enclosing(c4) == BoundingBox::enclosing(c3).spec_add_point(c[3]));
    assert(BoundingBox::enclosing(c5) == BoundingBox::enclosing(c4).spec_add_point(c[4]));
    assert(BoundingBox::enclosing(c6) == BoundingBox::enclosing(c5).spec_add_point(c[5]));
    assert(BoundingBox::enclosing(c7) == BoundingBox::enclosing(c6).spec_add_point(c[6]));
    assert(BoundingBox::enclosing(c) == BoundingBox::enclosing(c7).spec_add_point(c[7]));
}

/// A box that a plane cuts between its two corners is cut into two parts
/// that lie within it.
pub proof fn lemma_halves_lie_within(b: BoundingBox, axis: Axis, rank: i64)
    requires
        b.min.at_most(b.max),
        b.min.along(axis) <= rank <= b.max.along(axis),
    ensures
        b.spec_contains_box(&BoundingBox { min: b.min, max: b.max.with_along(axis, rank) }),
        b.spec_contains_box(&BoundingBox { min: b.min.with_along(axis, rank), max: b.max }),
{
}

impl Default for BoundingBox {
    fn default() -> (b: Self)
        ensures
            b == BoundingBox::empty(),
    {
        Self {
            min: Vec3::splat(scalar::INFINITY),
            max: Vec3::splat(scalar::NEG_INFINITY),
        }
    }
}

} // verus!
