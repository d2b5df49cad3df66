use vstd::prelude::*;
use crate::bounds::{BoundingBox, Vec3};
use crate::intersection::{
    ascending, lemma_ordered_is_sorted, ordered, Intersection, Intersections,
};
use crate::object::Object;
use crate::scalar;

verus! {

/// A place where a ray crosses the cylinder's wall, taken without end: the
/// ray's parameter there and the height of the ray there.
#[derive(Clone, Copy, Debug, PartialEq, Eq, Structural)]
pub struct WallHit {
    pub t: i64,
    pub y: i64,
}

/// The place where a ray crosses the plane of one of the cylinder's caps:
/// the ray's parameter there and the square of its distance from the axis
/// there.
#[derive(Clone, Copy, Debug, PartialEq, Eq, Structural)]
pub struct CapHit {
    pub t: i64,
    pub radius_squared: i64,
}

/// What a ray makes of a cylinder. `a` and `discriminant` are the leading
/// coefficient and the discriminant of the wall's quadratic, `first` and
/// `second` its roots. `direction_y` is the y component of the ray's
/// direction, `lower` and `upper` are the crossings of the lower and the
/// upper cap's plane.
#[derive(Clone, Copy, Debug, PartialEq, Eq, Structural)]
pub struct CylinderRay {
    pub a: i64,
    pub discriminant: i64,
    pub first: WallHit,
    pub second: WallHit,
    pub direction_y: i64,
    pub lower: CapHit,
    pub upper: CapHit,
}

/// Where a point lies about a cylinder: the square of its distance from the
/// axis, the height just under the upper end, and the height just over the
/// lower end. At and beyond the two heights a point within the wall counts
/// as a point of a cap.
#[derive(Clone, Copy, Debug, PartialEq, Eq, Structural)]
pub struct CapReach {
    pub radius_squared: i64,
    pub under_top: i64,
    pub over_bottom: i64,
}

/// The cylinder of radius 1 around the y axis, cut off below `min` and
/// above `max`, with or without caps at the two ends.
#[derive(Clone, Copy, Debug, PartialEq, Eq, Structural)]
pub struct Cylinder {
    pub min: i64,
    pub max: i64,
    pub closed: bool,
}

impl Cylinder {
    /// The normal at a point of the cylinder: straight up on the upper cap,
    /// straight down on the lower cap, and on the wall away from the axis.
    /// A point is on a cap where it is nearer than 1 to the axis and at or
    /// beyond the height that the cap reaches to.
    pub open spec fn spec_normal_at(point: Vec3, reach: CapReach) -> Vec3 {
        if reach.radius_squared < scalar::ONE && point.y >= reach.under_top {
            Vec3 { x: 0, y: scalar::ONE, z: 0 }
        } else if reach.radius_squared < scalar::ONE && point.y <= reach.over_bottom {
            Vec3 { x: 0, y: scalar::NEG_ONE, z: 0 }
        } else {
            Vec3 { x: point.x, y: 0, z: point.z }
        }
    }

    /// The normal at a point of the cylinder, where `reach` says where the
    /// point lies about the cylinder.
    pub fn normal_at(&self, point: Vec3, reach: &CapReach) -> (normal: Vec3)
        ensures
            normal == Cylinder::spec_normal_at(point, *reach),
    {
        if reach.radius_squared < scalar::ONE && point.y >= reach.under_top {
            Vec3::new(0, scalar::ONE, 0)
        } else if reach.radius_squared < scalar::ONE && point.y <= reach.over_bottom {
            Vec3::new(0, scalar::NEG_ONE, 0)
        } else {
            Vec3::new(point.x, 0, point.z)
        }
    }

    /// A crossing of the wall counts where its height lies strictly between
    /// the two ends.
    pub open spec fn on_wall(&self, hit: WallHit) -> bool {
        self.min < hit.y && hit.y < self.max
    }

    /// A crossing of a cap's plane counts where it is no farther than 1
    /// from the axis.
    pub open spec fn on_cap(hit: CapHit) -> bool {
        hit.radius_squared <= scalar::ONE
    }

    /// The crossings of the two caps that count: none where the cylinder is
    /// open or the ray runs level; else the lower cap's where it counts,
    /// then the upper cap's where it counts.
    pub open spec fn on_caps<'a>(&self, ray: &CylinderRay, object: &'a Object) -> Seq<
        Intersection<'a>,
    > {
        if !self.closed || scalar::magnitude(ray.direction_y as int) < scalar::EPSILON {
            Seq::empty()
        } else {
            let lower = if Cylinder::on_cap(ray.lower) {
                seq![Intersection { t: ray.lower.t, object, u: 0, v: 0 }]
            } else {
                Seq::empty()
            };
            let upper = if Cylinder::on_cap(ray.upper) {
                seq![Intersection { t: ray.upper.t, object, u: 0, v: 0 }]
            } else {
                Seq::empty()
            };
            lower + upper
        }
    }

    /// The intersections with the two caps, in the order in which the ray
    /// meets them.
    pub open spec fn spec_intersect_caps<'a>(&self, ray: &CylinderRay, object: &'a Object) -> Seq<
        Intersection<'a>,
    > {
        ordered(self.on_caps(ray, object))
    }

    /// The crossings of the wall that count: the one with the smaller
    /// parameter where it counts, then the other where it counts.
    pub open spec fn on_wall_of<'a>(&self, ray: &CylinderRay, object: &'a Object) -> Seq<
        Intersection<'a>,
    > {
        let near = if ray.first.t > ray.second.t {
            ray.second
        } else {
            ray.first
        };
        let far = if ray.first.t > ray.second.t {
            ray.first
        } else {
            ray.second
        };
        let at_near = if self.on_wall(near) {
            seq![Intersection { t: near.t, object, u: 0, v: 0 }]
        } else {
            Seq::empty()
        };
        let at_far = if self.on_wall(far) {
            seq![Intersection { t: far.t, object, u: 0, v: 0 }]
        } else {
            Seq::empty()
        };
        at_near + at_far
    }

    /// Everything that a ray meets of the cylinder, as it is found. A ray
    /// that runs along the axis can only meet the caps. A ray whose
    /// quadratic has no real root meets nothing. Any other ray can meet the
    /// wall and the caps.
    pub open spec fn crossings<'a>(&self, ray: &CylinderRay, object: &'a Object) -> Seq<
        Intersection<'a>,
    > {
        if scalar::magnitude(ray.a as int) < scalar::EPSILON {
            self.on_caps(ray, object)
        } else if ray.discriminant < 0 {
            Seq::empty()
        } else {
            self.on_wall_of(ray, object) + self.on_caps(ray, object)
        }
    }

    /// The intersections of a ray with the cylinder, on the wall and on the
    /// caps, in the order in which the ray meets them.
    pub open spec fn spec_intersect<'a>(&self, ray: &CylinderRay, object: &'a Object) -> Seq<
        Intersection<'a>,
    > {
        ordered(self.crossings(ray, object))
    }

    /// The wall reaches from -1 to 1 in x and z, and from end to end in y.
    pub open spec fn spec_bounds(&self) -> BoundingBox {
        BoundingBox {
            min: Vec3 { x: scalar::NEG_ONE, y: self.min, z: scalar::NEG_ONE },
            max: Vec3 { x: scalar::ONE, y: self.max, z: scalar::ONE },
        }
    }

    /// A closed cylinder without end in either direction.
    pub fn new() -> (cylinder: Self)
        ensures
            cylinder == (Cylinder {
                min: scalar::NEG_INFINITY,
                max: scalar::INFINITY,
                closed: true,
            }),
    {
        Cylinder { min: scalar::NEG_INFINITY, max: scalar::INFINITY, closed: true }
    }

    pub fn with_min(self, min: i64) -> (cylinder: Self)
        ensures
            cylinder == (Cylinder { min, ..self }),
    {
        Cylinder { min, max: self.max, closed: self.closed }
    }

    pub fn with_max(self, max: i64) -> (cylinder: Self)
        ensures
            cylinder == (Cylinder { max, ..self }),
    {
        Cylinder { min: self.min, max, closed: self.closed }
    }

    pub fn with_closed(self, closed: bool) -> (cylinder: Self)
        ensures
            cylinder == (Cylinder { closed, ..self }),
    {
        Cylinder { min: self.min, max: self.max, closed }
    }

    pub fn intersect<'a>(&self, ray: &CylinderRay, object: &'a Object) -> (xs: Intersections<'a>)
        ensures
            xs@ == self.spec_intersect(ray, object),
            ascending(xs@),
            xs@.to_multiset() == self.crossings(ray, object).to_multiset(),
    {
        proof {
            lemma_ordered_is_sorted(self.crossings(ray, object));
        }
        if scalar::abs(ray.a) < scalar::EPSILON as u64 {
            return self.found_on_caps(ray, object).sort();
        }
        if ray.discriminant < 0 {
            return Intersections::new();
        }
        let mut near: WallHit = ray.first;
        let mut far: WallHit = ray.second;
        if near.t > far.t {
            near = ray.second;
            far = ray.first;
        }
        let mut xs: Intersections<'a> = Intersections::new();
        if self.min < near.y && near.y < self.max {
            xs.push(Intersection::new(near.t, object));
        }
        if self.min < far.y && far.y < self.max {
            xs.push(Intersection::new(far.t, object));
        }
        assert(xs@ =~= self.on_wall_of(ray, object));
        xs.append(self.found_on_caps(ray, object));
        xs.sort()
    }

    /// The crossings of the two caps that count, the lower cap's first.
    fn found_on_caps<'a>(&self, ray: &CylinderRay, object: &'a Object) -> (xs: Intersections<'a>)
        ensures
            xs@ == self.on_caps(ray, object),
    {
        let mut xs: Intersections<'a> = Intersections::new();
        if !self.closed || scalar::abs(ray.direction_y) < scalar::EPSILON as u64 {
            return xs;
        }
        if ray.lower.radius_squared <= scalar::ONE {
            xs.push(Intersection::new(ray.lower.t, object));
        }
        if ray.upper.radius_squared <= scalar::ONE {
            xs.push(Intersection::new(ray.upper.t, object));
        }
        assert(xs@ =~= self.on_caps(ray, object));
        xs
    }

    pub fn intersect_caps<'a>(&self, ray: &CylinderRay, object: &'a Object) -> (xs: Intersections<
        'a,
    >)
        ensures
            xs@ == self.spec_intersect_caps(ray, object),
            ascending(xs@),
            xs@.to_multiset() == self.on_caps(ray, object).to_multiset(),
    {
        self.found_on_caps(ray, object).sort()
    }

    pub fn bounds(&self) -> (b: BoundingBox)
        ensures
            b == self.spec_bounds(),
    {
        BoundingBox::new(
            Vec3::new(scalar::NEG_ONE, self.min, scalar::NEG_ONE),
            Vec3::new(scalar::ONE, self.max, scalar::ONE),
        )
    }
}

/// A cylinder without caps is met on its wall only: at most twice, and
/// only at roots of the wall's quadratic.
pub proof fn lemma_open_cylinder_has_no_caps(cylinder: Cylinder, ray: &CylinderRay, object: &Object)
    requires
        !cylinder.closed,
    ensures
        cylinder.spec_intersect_caps(ray, object).len() == 0,
        cylinder.spec_intersect(ray, object).len() <= 2,
        forall|i: int|
            0 <= i < cylinder.spec_intersect(ray, object).len() ==> {
                let t = (#[trigger] cylinder.spec_intersect(ray, object)[i]).t;
                t == ray.first.t || t == ray.second.t
            },
{
    let found = cylinder.crossings(ray, object);
    let xs = cylinder.spec_intersect(ray, object);
    lemma_ordered_is_sorted(found);
    lemma_ordered_is_sorted(cylinder.on_caps(ray, object));
    assert forall|i: int| 0 <= i < xs.len() implies {
        let t = (#[trigger] xs[i]).t;
        t == ray.first.t || t == ray.second.t
    } by {
        assert(xs.to_multiset().count(xs[i]) > 0) by {
            xs.to_multiset_ensures();
            assert(xs.contains(xs[i]));
        }
        found.to_multiset_ensures();
        assert(found.contains(xs[i]));
    }
}

/// The intersections of a ray with a cylinder come in the order in which
/// the ray meets them, those with the caps among those with the wall: none
/// comes before one with a smaller parameter, and the list holds what was
/// found on the wall and on the caps, and nothing else.
pub proof fn lemma_cylinder_intersections_are_ordered(
    cylinder: Cylinder,
    ray: &CylinderRay,
    object: &Object,
)
    ensures
        ascending(cylinder.spec_intersect(ray, object)),
        cylinder.spec_intersect(ray, object).to_multiset() == cylinder.crossings(
            ray,
            object,
        ).to_multiset(),
        cylinder.spec_intersect(ray, object).len() <= 4,
{
    lemma_ordered_is_sorted(cylinder.crossings(ray, object));
}

impl Default for Cylinder {
    fn default() -> (cylinder: Self)
        ensures
            cylinder == (Cylinder {
                min: scalar::NEG_INFINITY,
                max: scalar::INFINITY,
                closed: true,
            }),
    {
        Cylinder::new()
    }
}

} // verus!
