//! Intersections of one ray with the scene: the list, its order, the hit, and
//! the media on either side of the hit.

use vstd::prelude::*;
use crate::bounds::Vec3;
use crate::graph::alike;
use crate::matrix::Matrix;
use crate::object::Object;
use crate::ray::Ray;
use crate::shapes::shape::{Curve, Shape};
use crate::scalar;

verus! {

/// A rule that says which intersections count as a hit.
pub trait HitPredicate {
    /// Whether the intersection counts.
    spec fn accepts(&self, intersection: Intersection<'_>) -> bool;

    fn hit_predicate(&self, intersection: &Intersection<'_>) -> (hit: bool)
        ensures
            hit == self.accepts(*intersection),
    ;
}

/// The rule for rays that look: an intersection counts where it is not
/// behind the ray's origin.
pub struct StandardHit {}

impl HitPredicate for StandardHit {
    open spec fn accepts(&self, intersection: Intersection<'_>) -> bool {
        intersection.t >= 0
    }

    fn hit_predicate(&self, intersection: &Intersection<'_>) -> (hit: bool) {
        intersection.t >= 0
    }
}

/// The rule for shadow rays: an intersection counts where it is not behind
/// the ray's origin and its object casts shadows.
pub struct ShadowHit {}

impl HitPredicate for ShadowHit {
    open spec fn accepts(&self, intersection: Intersection<'_>) -> bool {
        intersection.object.shadow && intersection.t >= 0
    }

    fn hit_predicate(&self, intersection: &Intersection<'_>) -> (hit: bool) {
        intersection.object.shadow && intersection.t >= 0
    }
}

/// One place where a ray meets an object: the ray's parameter there, the
/// object, and the place on the object's surface for the shapes that need
/// one.
#[derive(Debug, Clone, Copy, PartialEq)]
pub struct Intersection<'a> {
    pub t: i64,
    pub object: &'a Object,
    pub u: i64,
    pub v: i64,
}

impl<'a> Intersection<'a> {
    pub fn new(t: i64, object: &'a Object) -> (intersection: Self)
        ensures
            intersection == (Intersection { t, object, u: 0, v: 0 }),
    {
        Self { t, object, u: 0, v: 0 }
    }

    pub fn with_u_v(self, u: i64, v: i64) -> (intersection: Self)
        ensures
            intersection == (Intersection { u, v, ..self }),
    {
        Self { t: self.t, object: self.object, u, v }
    }

    pub fn t(&self) -> (t: i64)
        ensures
            t == self.t,
    {
        self.t
    }

    pub fn object(&self) -> (object: &'a Object)
        ensures
            object == self.object,
    {
        self.object
    }

    pub fn u(&self) -> (u: i64)
        ensures
            u == self.u,
    {
        self.u
    }

    pub fn v(&self) -> (v: i64)
        ensures
            v == self.v,
    {
        self.v
    }
}

/// No intersection comes before one with a smaller `t`.
pub open spec fn ascending(xs: Seq<Intersection<'_>>) -> bool {
    forall|i: int, j: int| 0 <= i < j < xs.len() ==> xs[i].t <= xs[j].t
}

/// The intersections at one `t`, in the order in which the list has them.
pub open spec fn at_t<'a>(xs: Seq<Intersection<'a>>, t: i64) -> Seq<Intersection<'a>> {
    xs.filter(|x: Intersection<'a>| x.t == t)
}

/// Whether `sorted` is `xs` in ascending order of `t`, with the
/// intersections that share a `t` left in the order they had.
pub open spec fn sorted_from<'a>(sorted: Seq<Intersection<'a>>, xs: Seq<Intersection<'a>>) -> bool {
    &&& ascending(sorted)
    &&& forall|t: i64| #[trigger] at_t(sorted, t) == at_t(xs, t)
}

/// A list in ascending order with one more intersection: it stands behind
/// everything that does not come after it, and before everything that does.
pub open spec fn inserted<'a>(sorted: Seq<Intersection<'a>>, x: Intersection<'a>) -> Seq<
    Intersection<'a>,
>
    decreases sorted.len(),
{
    if sorted.len() == 0 || sorted.last().t <= x.t {
        sorted.push(x)
    } else {
        inserted(sorted.drop_last(), x).push(sorted.last())
    }
}

/// The intersections of a list in ascending order of `t`, with those that
/// share a `t` left in the order they had.
pub open spec fn ordered<'a>(xs: Seq<Intersection<'a>>) -> Seq<Intersection<'a>>
    decreases xs.len(),
{
    if xs.len() == 0 {
        xs
    } else {
        inserted(ordered(xs.drop_last()), xs.last())
    }
}

/// Whether `index` is the place of the first intersection that the rule
/// accepts, or `None` where it accepts none.
pub open spec fn is_first_accepted<P: HitPredicate>(
    xs: Seq<Intersection<'_>>,
    predicate: P,
    index: Option<int>,
) -> bool {
    match index {
        Some(i) => {
            &&& 0 <= i < xs.len()
            &&& predicate.accepts(xs[i])
            &&& forall|j: int| 0 <= j < i ==> !predicate.accepts(#[trigger] xs[j])
        },
        None => forall|j: int| 0 <= j < xs.len() ==> !predicate.accepts(#[trigger] xs[j]),
    }
}

/// The intersections of one ray, in the order in which they were found or,
/// after `sort`, in the order in which the ray meets them.
#[derive(Debug)]
pub struct Intersections<'a> {
    intersections: Vec<Intersection<'a>>,
}

impl<'a> View for Intersections<'a> {
    type V = Seq<Intersection<'a>>;

    closed spec fn view(&self) -> Seq<Intersection<'a>> {
        self.intersections@
    }
}

impl<'a> Intersections<'a> {
    pub fn new() -> (xs: Self)
        ensures
            xs@ == Seq::<Intersection<'a>>::empty(),
    {
        Self { intersections: Vec::new() }
    }

    /// An empty list with room for `size` intersections.
    pub fn from_capacity(size: usize) -> (xs: Self)
        ensures
            xs@ == Seq::<Intersection<'a>>::empty(),
    {
        Self { intersections: Vec::with_capacity(size) }
    }

    pub fn with_intersections(self, intersections: Vec<Intersection<'a>>) -> (xs: Self)
        ensures
            xs@ == intersections@,
    {
        Self { intersections }
    }

    pub fn push(&mut self, intersection: Intersection<'a>)
        ensures
            final(self)@ == old(self)@.push(intersection),
    {
        self.intersections.push(intersection);
    }

    pub fn append(&mut self, other: Intersections<'a>)
        ensures
            final(self)@ == old(self)@ + other@,
    {
        let mut rest: Vec<Intersection<'a>> = other.move_all();
        self.intersections.append(&mut rest);
    }

    /// Puts the list in ascending order of `t`. Intersections that share a
    /// `t` keep the order they had.
    pub fn sort(self) -> (sorted: Self)
        ensures
            sorted@ == ordered(self@),
            sorted_from(sorted@, self@),
            sorted@.len() == self@.len(),
            sorted@.to_multiset() == self@.to_multiset(),
    {
        let ghost input = self.intersections@;
        let mut out: Vec<Intersection<'a>> = Vec::with_capacity(self.intersections.len());
        let mut i: usize = 0;
        proof {
            assert(input.take(0) =~= Seq::<Intersection<'a>>::empty());
            assert forall|t: i64| #[trigger] at_t(out@, t) == at_t(input.take(0), t) by {
                assert(out@ =~= input.take(0));
            }
        }
        while i < self.intersections.len()
            invariant
                i <= self.intersections.len(),
                input == self.intersections@,
                out@.len() == i,
                sorted_from(out@, input.take(i as int)),
                out@.to_multiset() == input.take(i as int).to_multiset(),
            decreases self.intersections.len() - i,
        {
            let x: Intersection<'a> = self.intersections[i];
            let mut p: usize = out.len();
            while p > 0 && out[p - 1].t > x.t
                invariant
                    p <= out.len(),
                    forall|j: int| p <= j < out@.len() ==> out@[j].t > x.t,
                decreases p,
            {
                p -= 1;
            }
            proof {
                lemma_insert_keeps_sorted(out@, input.take(i as int), p as int, x);
                assert(input.take(i + 1) =~= input.take(i as int).push(x));
                vstd::seq_lib::to_multiset_insert(out@, p as int, x);
                vstd::seq_lib::to_multiset_build(input.take(i as int), x);
            }
            out.insert(p, x);
            i += 1;
        }
        assert(input.take(i as int) =~= input);
        proof {
            lemma_ordered_is_sorted(input);
            lemma_sorting_is_determined(out@, ordered(input), input);
        }
        Self { intersections: out }
    }

    /// The first intersection that the rule accepts.
    pub fn hit<P: HitPredicate>(&self, predicate: P) -> (hit: Option<&Intersection<'a>>)
        ensures
            hit is Some ==> exists|i: int|
                0 <= i < self@.len() && *hit.unwrap() == self@[i] && is_first_accepted(
                    self@,
                    predicate,
                    Some(i),
                ),
            hit is None ==> is_first_accepted(self@, predicate, None),
    {
        let mut k: usize = 0;
        while k < self.intersections.len()
            invariant
                k <= self.intersections.len(),
                forall|j: int| 0 <= j < k ==> !predicate.accepts(#[trigger] self@[j]),
            decreases self.intersections.len() - k,
        {
            if predicate.hit_predicate(&self.intersections[k]) {
                assert(is_first_accepted(self@, predicate, Some(k as int)));
                return Some(&self.intersections[k]);
            }
            k += 1;
        }
        None
    }

    /// The place of the first intersection that the rule accepts.
    pub fn hit_index<P: HitPredicate>(&self, predicate: P) -> (index: Option<usize>)
        ensures
            is_first_accepted(
                self@,
                predicate,
                match index {
                    Some(i) => Some(i as int),
                    None => None,
                },
            ),
    {
        let mut k: usize = 0;
        while k < self.intersections.len()
            invariant
                k <= self.intersections.len(),
                forall|j: int| 0 <= j < k ==> !predicate.accepts(#[trigger] self@[j]),
            decreases self.intersections.len() - k,
        {
            if predicate.hit_predicate(&self.intersections[k]) {
                return Some(k);
            }
            k += 1;
        }
        None
    }

    pub fn count(&self) -> (n: usize)
        ensures
            n == self@.len(),
    {
        self.intersections.len()
    }

    pub fn get(&self, index: usize) -> (intersection: Option<&Intersection<'a>>)
        ensures
            index < self@.len() ==> intersection == Some(&self@[index as int]),
            index >= self@.len() ==> intersection is None,
    {
        if index < self.intersections.len() {
            Some(&self.intersections[index])
        } else {
            None
        }
    }

    pub fn move_all(self) -> (all: Vec<Intersection<'a>>)
        ensures
            all@ == self@,
    {
        self.intersections
    }

    pub fn get_all(&self) -> (all: &Vec<Intersection<'a>>)
        ensures
            all@ == self@,
    {
        &self.intersections
    }
}

/// Where among the containers the first one stands that the object is:
/// that is alike the object in every part. It is the number of containers
/// where the object is none of them.
pub open spec fn place_of(containers: Seq<&Object>, object: Object) -> int
    decreases containers.len(),
{
    if containers.len() == 0 {
        0
    } else if alike(*containers[0], object) {
        0
    } else {
        1 + place_of(containers.drop_first(), object)
    }
}

/// The containers after the ray has met the object once more: the object
/// is taken out where it was among them, for the ray then leaves it, and put
/// at the end where it was not, for the ray then enters it.
pub open spec fn toggled<'a>(containers: Seq<&'a Object>, object: &'a Object) -> Seq<&'a Object> {
    let place = place_of(containers, *object);
    if place < containers.len() {
        containers.remove(place)
    } else {
        containers.push(object)
    }
}

/// The objects that the ray is inside of after the first `count`
/// intersections of the list, in the order in which it entered them.
pub open spec fn containers_after<'a>(xs: Seq<Intersection<'a>>, count: int) -> Seq<&'a Object>
    decreases count,
{
    if count <= 0 {
        Seq::empty()
    } else {
        toggled(containers_after(xs, count - 1), xs[count - 1].object)
    }
}

/// The medium that the ray is in, given the objects it is inside of: the
/// one entered last, or `None` for the space outside every object.
pub open spec fn medium<'a>(containers: Seq<&'a Object>) -> Option<&'a Object> {
    if containers.len() == 0 {
        None
    } else {
        Some(containers.last())
    }
}

/// Under total internal reflection all of the light is given back: where a
/// ray passes into a medium of the smaller refractive index and the square
/// of the sine of the angle of the ray that would pass through exceeds 1,
/// the share of Schlick is 1, whatever the arithmetic gives for the rest.
pub proof fn lemma_schlick_under_total_internal_reflection<
    D: Fn(Vec3, Vec3) -> i64,
    S: Fn(i64, i64, i64) -> i64,
    Q: Fn(i64) -> i64,
    R: Fn(i64, i64, i64) -> i64,
>(infos: IntersectionInfos<'_>, dot: D, sine: S, cosine: Q, share: R, reflectance: i64)
    requires
        infos.schlick_is(dot, sine, cosine, share, reflectance),
        infos.n.0 > infos.n.1,
        forall|cos: i64, sin2_t: i64| #[trigger]
            sine.ensures((infos.n.0, infos.n.1, cos), sin2_t) ==> sin2_t > scalar::ONE,
    ensures
        reflectance == scalar::ONE,
{
}

/// The side of a surface that a ray meets. `inside` says that the ray comes
/// from within the object, and `normal` is the normal on the side of the
/// eye.
#[derive(Clone, Copy, Debug, PartialEq, Eq, Structural)]
pub struct Facing {
    pub inside: bool,
    pub normal: Vec3,
}

/// A ray comes from within an object where the normal of the surface points
/// away from the eye: where the product of the two is negative. The normal
/// is then turned to the side of the eye.
pub open spec fn spec_facing(normal: Vec3, normal_dot_eye: i64) -> Facing {
    if normal_dot_eye < 0 {
        Facing { inside: true, normal: normal.negated() }
    } else {
        Facing { inside: false, normal }
    }
}

/// The side of a surface that a ray meets, from the normal of the surface
/// and its product with the vector to the eye.
#[verifier::when_used_as_spec(spec_facing)]
pub fn facing(normal: Vec3, normal_dot_eye: i64) -> (side: Facing)
    ensures
        side == spec_facing(normal, normal_dot_eye),
{
    if normal_dot_eye < 0 {
        Facing { inside: true, normal: normal.negated() }
    } else {
        Facing { inside: false, normal }
    }
}

/// The refractive index of a medium: that of the material of the object
/// which fills it, and 1 for the space outside every object.
pub open spec fn refractive_index(medium: Option<&Object>) -> i64 {
    match medium {
        Some(object) => object.material.refractive_index,
        None => scalar::ONE,
    }
}

/// The arithmetic of a hit, which is the caller's: `at` gives the point of
/// a ray at a parameter, `image` the point that a matrix makes of a point,
/// `curved` the normal of a curved or tilted shape in its own space,
/// `to_world` the vector of length 1 along what a matrix makes of a vector,
/// `dot` the product of two vectors, `offsets` the two points just off a
/// point along a normal, the one on the side of the normal first, and
/// `reflect` a direction mirrored about a normal.
pub struct Shading<A, M, F, W, D, O, R> {
    pub at: A,
    pub image: M,
    pub curved: F,
    pub to_world: W,
    pub dot: D,
    pub offsets: O,
    pub reflect: R,
}

impl<
    A: Fn(&Ray, i64) -> Vec3,
    M: Fn(&Matrix, Vec3) -> Vec3,
    F: Fn(&Shape, Vec3, i64, i64) -> Curve,
    W: Fn(&Matrix, Vec3) -> Vec3,
    D: Fn(Vec3, Vec3) -> i64,
    O: Fn(Vec3, Vec3) -> (Vec3, Vec3),
    R: Fn(Vec3, Vec3) -> Vec3,
> Shading<A, M, F, W, D, O, R> {
    /// Every part of the arithmetic can be asked anything.
    pub open spec fn ready(&self) -> bool {
        &&& forall|r: &Ray, t: i64| #[trigger] self.at.requires((r, t))
        &&& forall|m: &Matrix, p: Vec3| #[trigger] self.image.requires((m, p))
        &&& forall|s: &Shape, p: Vec3, u: i64, v: i64| #[trigger] self.curved.requires((s, p, u, v))
        &&& forall|m: &Matrix, p: Vec3| #[trigger] self.to_world.requires((m, p))
        &&& forall|a: Vec3, b: Vec3| #[trigger] self.dot.requires((a, b))
        &&& forall|p: Vec3, n: Vec3| #[trigger] self.offsets.requires((p, n))
        &&& forall|d: Vec3, n: Vec3| #[trigger] self.reflect.requires((d, n))
    }
}

/// The refractive indices of the media on either side of one intersection
/// of a list: of the medium that the ray leaves there, and of the medium
/// that it enters. The list must be the whole sorted list of the ray, the
/// intersections behind its origin included: the media depend on every
/// object entered before.
pub fn refractive_indices<'a>(intersections: &Intersections<'a>, intersection_index: usize) -> (n: (
    i64,
    i64,
))
    requires
        intersection_index < intersections@.len(),
    ensures
        n.0 == refractive_index(
            medium(containers_after(intersections@, intersection_index as int)),
        ),
        n.1 == refractive_index(medium(containers_after(intersections@, intersection_index + 1))),
{
    let all: &Vec<Intersection<'a>> = intersections.get_all();
    let mut containers: Vec<&'a Object> = Vec::new();
    let mut current: usize = 0;
    while current < intersection_index
        invariant
            current <= intersection_index < all@.len(),
            all@ == intersections@,
            containers@ == containers_after(all@, current as int),
        decreases intersection_index - current,
    {
        toggle(&mut containers, all[current].object);
        current += 1;
    }
    let n1: i64 = index_of(last_of(&containers));
    toggle(&mut containers, all[intersection_index].object);
    let n2: i64 = index_of(last_of(&containers));
    (n1, n2)
}

/// What shading needs to know of a hit: the parameter of the ray and the
/// object, the point of the hit in the world, the points just above and just
/// below the surface there, from which the rays that are sent on start, the
/// vector to the eye, the normal on the side of the eye, the direction of
/// the mirrored ray, whether the ray comes from within the object, and in
/// `n` the refractive indices of the medium that the ray leaves and of the
/// medium that it enters.
#[derive(Debug, Clone, Copy, PartialEq)]
pub struct IntersectionInfos<'a> {
    pub t: i64,
    pub object: &'a Object,
    pub point: Vec3,
    pub over_point: Vec3,
    pub under_point: Vec3,
    pub eyev: Vec3,
    pub normalv: Vec3,
    pub reflectv: Vec3,
    pub inside: bool,
    pub n: (i64, i64),
}

impl<'a> IntersectionInfos<'a> {
    /// Whether the infos are those of one intersection of a ray. The point
    /// is the point of the ray at the intersection's parameter. The eye is
    /// where the ray comes from. The normal is the normal of the object at
    /// the point, turned to the side of the eye where the ray comes from
    /// within; the two points off the surface lie along it, and the ray is
    /// mirrored about it. The refractive indices are found by the scan of
    /// the list.
    pub open spec fn prepared<
        A: Fn(&Ray, i64) -> Vec3,
        M: Fn(&Matrix, Vec3) -> Vec3,
        F: Fn(&Shape, Vec3, i64, i64) -> Curve,
        W: Fn(&Matrix, Vec3) -> Vec3,
        D: Fn(Vec3, Vec3) -> i64,
        O: Fn(Vec3, Vec3) -> (Vec3, Vec3),
        R: Fn(Vec3, Vec3) -> Vec3,
    >(
        self,
        xs: Seq<Intersection<'a>>,
        index: int,
        ray: Ray,
        with: Shading<A, M, F, W, D, O, R>,
    ) -> bool {
        &&& self.t == xs[index].t
        &&& self.object == xs[index].object
        &&& with.at.ensures((&ray, self.t), self.point)
        &&& self.eyev == ray.direction.negated()
        &&& exists|normal: Vec3, toward_eye: i64|
            {
                &&& self.object.normal_is(
                    self.point,
                    xs[index].u,
                    xs[index].v,
                    with.image,
                    with.curved,
                    with.to_world,
                    normal,
                )
                &&& #[trigger] with.dot.ensures((normal, self.eyev), toward_eye)
                &&& (Facing { inside: self.inside, normal: self.normalv }) == facing(
                    normal,
                    toward_eye,
                )
            }
        &&& with.offsets.ensures((self.point, self.normalv), (self.over_point, self.under_point))
        &&& with.reflect.ensures((ray.direction, self.normalv), self.reflectv)
        &&& self.n.0 == refractive_index(medium(containers_after(xs, index)))
        &&& self.n.1 == refractive_index(medium(containers_after(xs, index + 1)))
    }

    /// Whether `reflectance` is the share of light that the surface gives
    /// back at the hit, by the approximation of Schlick. Where the ray
    /// passes into a medium of the smaller refractive index at so flat an
    /// angle that it cannot leave, all of the light is given back. Else the
    /// share goes by the cosine of the angle between the eye and the normal,
    /// or, into a medium of the smaller index, by the cosine of the angle of
    /// the ray that passes through.
    pub open spec fn schlick_is<
        D: Fn(Vec3, Vec3) -> i64,
        S: Fn(i64, i64, i64) -> i64,
        Q: Fn(i64) -> i64,
        R: Fn(i64, i64, i64) -> i64,
    >(self, dot: D, sine: S, cosine: Q, share: R, reflectance: i64) -> bool {
        exists|cos: i64|
            {
                &&& #[trigger] dot.ensures((self.eyev, self.normalv), cos)
                &&& if self.n.0 > self.n.1 {
                    exists|sin2_t: i64|
                        {
                            &&& #[trigger] sine.ensures((self.n.0, self.n.1, cos), sin2_t)
                            &&& if sin2_t > scalar::ONE {
                                reflectance == scalar::ONE
                            } else {
                                exists|cos_t: i64|
                                    {
                                        &&& #[trigger] cosine.ensures((sin2_t,), cos_t)
                                        &&& share.ensures(
                                            (self.n.0, self.n.1, cos_t),
                                            reflectance,
                                        )
                                    }
                            }
                        }
                } else {
                    share.ensures((self.n.0, self.n.1, cos), reflectance)
                }
            }
    }

    /// The share of light that the surface gives back at the hit. `dot`
    /// gives the product of two vectors, `sine` the square of the sine of the
    /// angle of the ray that passes through, from the two refractive indices
    /// and the cosine of the angle of the ray that comes in, `cosine` the
    /// cosine of an angle from the square of its sine, and `share` the share
    /// of light that is given back, from the two refractive indices and a
    /// cosine.
    pub fn schlick<
        D: Fn(Vec3, Vec3) -> i64,
        S: Fn(i64, i64, i64) -> i64,
        Q: Fn(i64) -> i64,
        R: Fn(i64, i64, i64) -> i64,
    >(&self, dot: &D, sine: &S, cosine: &Q, share: &R) -> (reflectance: i64)
        requires
            forall|a: Vec3, b: Vec3| #[trigger] dot.requires((a, b)),
            forall|a: i64, b: i64, c: i64| #[trigger] sine.requires((a, b, c)),
            forall|a: i64| #[trigger] cosine.requires((a,)),
            forall|a: i64, b: i64, c: i64| #[trigger] share.requires((a, b, c)),
        ensures
            self.schlick_is(*dot, *sine, *cosine, *share, reflectance),
    {
        let cos: i64 = dot(self.eyev, self.normalv);
        if self.n.0 > self.n.1 {
            let sin2_t: i64 = sine(self.n.0, self.n.1, cos);
            if sin2_t > scalar::ONE {
                scalar::ONE
            } else {
                let cos_t: i64 = cosine(sin2_t);
                share(self.n.0, self.n.1, cos_t)
            }
        } else {
            share(self.n.0, self.n.1, cos)
        }
    }

    /// The infos of one intersection of the ray whose sorted list of
    /// intersections this is.
    pub fn new<
        A: Fn(&Ray, i64) -> Vec3,
        M: Fn(&Matrix, Vec3) -> Vec3,
        F: Fn(&Shape, Vec3, i64, i64) -> Curve,
        W: Fn(&Matrix, Vec3) -> Vec3,
        D: Fn(Vec3, Vec3) -> i64,
        O: Fn(Vec3, Vec3) -> (Vec3, Vec3),
        R: Fn(Vec3, Vec3) -> Vec3,
    >(
        intersections: &Intersections<'a>,
        intersection_index: usize,
        ray: &Ray,
        with: &Shading<A, M, F, W, D, O, R>,
    ) -> (infos: Self)
        requires
            intersection_index < intersections@.len(),
            with.ready(),
        ensures
            infos.prepared(intersections@, intersection_index as int, *ray, *with),
    {
        let intersection: Intersection<'a> = intersections.get_all()[intersection_index];
        let object: &'a Object = intersection.object;
        let point: Vec3 = (with.at)(ray, intersection.t);
        let eyev: Vec3 = ray.direction.negated();
        let normal: Vec3 = object.normal_at(
            point,
            intersection.u,
            intersection.v,
            &with.image,
            &with.curved,
            &with.to_world,
        );
        let toward_eye: i64 = (with.dot)(normal, eyev);
        let side: Facing = facing(normal, toward_eye);
        let (over_point, under_point) = (with.offsets)(point, side.normal);
        let reflectv: Vec3 = (with.reflect)(ray.direction, side.normal);
        let n: (i64, i64) = refractive_indices(intersections, intersection_index);
        let infos = Self {
            t: intersection.t,
            object,
            point,
            over_point,
            under_point,
            eyev,
            normalv: side.normal,
            reflectv,
            inside: side.inside,
            n,
        };
        assert(with.dot.ensures((normal, infos.eyev), toward_eye));
        infos
    }
}

/// Takes the object out of the containers where it is among them, and puts
/// it at their end where it is not.
fn toggle<'a>(containers: &mut Vec<&'a Object>, object: &'a Object)
    ensures
        final(containers)@ == toggled(old(containers)@, object),
{
    let mut k: usize = 0;
    while k < containers.len() && !containers[k].same(object)
        invariant
            k <= containers.len(),
            containers@ == old(containers)@,
            forall|j: int| 0 <= j < k ==> !alike(*containers@[j], *object),
        decreases containers.len() - k,
    {
        k += 1;
    }
    proof {
        lemma_place_of(containers@, *object, k as int);
    }
    if k < containers.len() {
        containers.remove(k);
    } else {
        containers.push(object);
    }
}

fn index_of(medium: Option<&Object>) -> (n: i64)
    ensures
        n == refractive_index(medium),
{
    match medium {
        Some(object) => object.material.refractive_index,
        None => scalar::ONE,
    }
}

fn last_of<'a>(containers: &Vec<&'a Object>) -> (last: Option<&'a Object>)
    ensures
        last == medium(containers@),
{
    if containers.len() == 0 {
        None
    } else {
        Some(containers[containers.len() - 1])
    }
}

/// The place of an object is the first place that holds it.
proof fn lemma_place_of(containers: Seq<&Object>, object: Object, k: int)
    requires
        0 <= k <= containers.len(),
        forall|j: int| 0 <= j < k ==> !alike(*containers[j], object),
        k < containers.len() ==> alike(*containers[k], object),
    ensures
        place_of(containers, object) == k,
    decreases k,
{
    if k > 0 {
        let rest = containers.drop_first();
        assert forall|j: int| 0 <= j < k - 1 implies !alike(*rest[j], object) by {
            assert(rest[j] == containers[j + 1]);
        }
        if k - 1 < rest.len() {
            assert(rest[k - 1] == containers[k]);
        }
        lemma_place_of(rest, object, k - 1);
    }
}

/// In an ascending list, the first intersection that is not behind the
/// ray's origin is the nearest of all that are not behind it; and there is
/// no such first one only where every intersection is behind the origin.
pub proof fn lemma_standard_hit_is_nearest(xs: Seq<Intersection<'_>>, index: Option<int>)
    requires
        ascending(xs),
        is_first_accepted(xs, StandardHit {  }, index),
    ensures
        match index {
            Some(i) => {
                &&& 0 <= i < xs.len()
                &&& xs[i].t >= 0
                &&& forall|j: int| 0 <= j < xs.len() && xs[j].t >= 0 ==> xs[i].t <= xs[j].t
            },
            None => forall|j: int| 0 <= j < xs.len() ==> xs[j].t < 0,
        },
{
    match index {
        Some(i) => {
            assert((StandardHit {  }).accepts(xs[i]));
            assert forall|j: int| 0 <= j < xs.len() && xs[j].t >= 0 implies xs[i].t <= xs[j].t by {
                if j < i {
                    assert(!(StandardHit {  }).accepts(xs[j]));
                }
            }
        },
        None => {
            assert forall|j: int| 0 <= j < xs.len() implies xs[j].t < 0 by {
                assert(!(StandardHit {  }).accepts(xs[j]));
            }
        },
    }
}

/// In an ascending list, the first intersection that is not behind the
/// ray's origin and whose object casts shadows is the nearest such.
pub proof fn lemma_shadow_hit_is_nearest(xs: Seq<Intersection<'_>>, index: Option<int>)
    requires
        ascending(xs),
        is_first_accepted(xs, ShadowHit {  }, index),
    ensures
        match index {
            Some(i) => {
                &&& 0 <= i < xs.len()
                &&& xs[i].t >= 0
                &&& xs[i].object.shadow
                &&& forall|j: int|
                    0 <= j < xs.len() && xs[j].t >= 0 && xs[j].object.shadow ==> xs[i].t <= xs[j].t
            },
            None => forall|j: int| 0 <= j < xs.len() ==> xs[j].t < 0 || !xs[j].object.shadow,
        },
{
    match index {
        Some(i) => {
            assert((ShadowHit {  }).accepts(xs[i]));
            assert forall|j: int|
                0 <= j < xs.len() && xs[j].t >= 0 && xs[j].object.shadow implies xs[i].t
                <= xs[j].t by {
                if j < i {
                    assert(!(ShadowHit {  }).accepts(xs[j]));
                }
            }
        },
        None => {
            assert forall|j: int| 0 <= j < xs.len() implies xs[j].t < 0
                || !xs[j].object.shadow by {
                assert(!(ShadowHit {  }).accepts(xs[j]));
            }
        },
    }
}

/// Where an intersection is put into a list in ascending order: behind
/// everything that does not come after it, and before everything that does.
proof fn lemma_inserted_place<'a>(sorted: Seq<Intersection<'a>>, x: Intersection<'a>) -> (p: int)
    ensures
        0 <= p <= sorted.len(),
        p > 0 ==> sorted[p - 1].t <= x.t,
        forall|j: int| p <= j < sorted.len() ==> sorted[j].t > x.t,
        inserted(sorted, x) == sorted.insert(p, x),
    decreases sorted.len(),
{
    if sorted.len() == 0 || sorted.last().t <= x.t {
        assert(sorted.push(x) =~= sorted.insert(sorted.len() as int, x));
        sorted.len() as int
    } else {
        let shorter = sorted.drop_last();
        let p = lemma_inserted_place(shorter, x);
        assert(shorter.insert(p, x).push(sorted.last()) =~= sorted.insert(p, x));
        assert forall|j: int| p <= j < sorted.len() implies sorted[j].t > x.t by {
            if j < shorter.len() {
                assert(sorted[j] == shorter[j]);
            }
        }
        if p > 0 {
            assert(sorted[p - 1] == shorter[p - 1]);
        }
        p
    }
}

/// The ordered list of some intersections holds the same intersections in
/// ascending order, with those that share a `t` in the order they had.
pub proof fn lemma_ordered_is_sorted<'a>(xs: Seq<Intersection<'a>>)
    ensures
        sorted_from(ordered(xs), xs),
        ordered(xs).len() == xs.len(),
        ordered(xs).to_multiset() == xs.to_multiset(),
    decreases xs.len(),
{
    if xs.len() == 0 {
    } else {
        let before = xs.drop_last();
        let x = xs.last();
        lemma_ordered_is_sorted(before);
        let p = lemma_inserted_place(ordered(before), x);
        lemma_insert_keeps_sorted(ordered(before), before, p, x);
        assert(before.push(x) =~= xs);
        vstd::seq_lib::to_multiset_insert(ordered(before), p, x);
        vstd::seq_lib::to_multiset_build(before, x);
    }
}

/// Sorting is determined: there is only one list that holds given
/// intersections in ascending order with those that share a `t` in the order
/// they had.
pub proof fn lemma_sorting_is_determined<'a>(
    first: Seq<Intersection<'a>>,
    second: Seq<Intersection<'a>>,
    xs: Seq<Intersection<'a>>,
)
    requires
        sorted_from(first, xs),
        sorted_from(second, xs),
    ensures
        first == second,
{
    assert forall|t: i64| #[trigger] at_t(first, t) == at_t(second, t) by {
        assert(at_t(first, t) == at_t(xs, t));
        assert(at_t(second, t) == at_t(xs, t));
    }
    lemma_ascending_lists_agree(first, second);
}

/// Two ascending lists that hold the same intersections at every `t`, in
/// the same order, are one list.
proof fn lemma_ascending_lists_agree<'a>(a: Seq<Intersection<'a>>, b: Seq<Intersection<'a>>)
    requires
        ascending(a),
        ascending(b),
        forall|t: i64| #[trigger] at_t(a, t) == at_t(b, t),
    ensures
        a == b,
    decreases a.len(),
{
    if a.len() == 0 {
        if b.len() > 0 {
            lemma_at_t_holds(b, 0);
            assert(at_t(a, b[0].t) =~= Seq::<Intersection<'a>>::empty());
        }
        assert(a =~= b);
    } else {
        let z = a.last();
        lemma_at_t_ends_with_last(a);
        assert(at_t(b, z.t) == at_t(a, z.t));
        if b.len() == 0 {
            assert(at_t(b, z.t) =~= Seq::<Intersection<'a>>::empty());
        }
        let w = b.last();
        lemma_at_t_ends_with_last(b);
        // the last of each list is at the greatest `t` of the list, and that
        // is the same `t` for both
        assert(at_t(a, w.t) == at_t(b, w.t));
        let i = lemma_at_t_comes_from(a, w.t);
        let j = lemma_at_t_comes_from(b, z.t);
        assert(w.t <= z.t) by {
            if i < a.len() - 1 {
                assert(a[i].t <= a[a.len() - 1].t);
            }
        }
        assert(z.t <= w.t) by {
            if j < b.len() - 1 {
                assert(b[j].t <= b[b.len() - 1].t);
            }
        }
        assert(z == w);
        let shorter_a = a.drop_last();
        let shorter_b = b.drop_last();
        assert forall|t: i64| #[trigger] at_t(shorter_a, t) == at_t(shorter_b, t) by {
            lemma_at_t_without_last(a, t);
            lemma_at_t_without_last(b, t);
            assert(at_t(a, t) == at_t(b, t));
        }
        lemma_ascending_lists_agree(shorter_a, shorter_b);
        assert(a =~= shorter_a.push(z));
        assert(b =~= shorter_b.push(w));
    }
}

/// An intersection of a list is among the intersections of the list at its
/// `t`, which are therefore not none.
proof fn lemma_at_t_holds<'a>(xs: Seq<Intersection<'a>>, i: int)
    requires
        0 <= i < xs.len(),
    ensures
        at_t(xs, xs[i].t).len() > 0,
{
    let same = |x: Intersection<'a>| x.t == xs[i].t;
    xs.lemma_filter_contains(same, i);
}

/// Where a list has intersections at a `t`, one of the intersections of the
/// list is at that `t`.
proof fn lemma_at_t_comes_from<'a>(xs: Seq<Intersection<'a>>, t: i64) -> (i: int)
    requires
        at_t(xs, t).len() > 0,
    ensures
        0 <= i < xs.len(),
        xs[i].t == t,
{
    let same = |x: Intersection<'a>| x.t == t;
    let found = at_t(xs, t)[0];
    xs.lemma_filter_pred(same, 0);
    assert(at_t(xs, t).contains(found));
    xs.lemma_filter_contains_rev(same, found);
    choose|i: int| 0 <= i < xs.len() && xs[i] == found
}

/// The last intersection of a list is the last of the intersections at its
/// `t`.
proof fn lemma_at_t_ends_with_last<'a>(xs: Seq<Intersection<'a>>)
    requires
        xs.len() > 0,
    ensures
        at_t(xs, xs.last().t).len() > 0,
        at_t(xs, xs.last().t).last() == xs.last(),
{
    let same = |x: Intersection<'a>| x.t == xs.last().t;
    assert(xs =~= xs.drop_last().push(xs.last()));
    xs.drop_last().lemma_filter_push(xs.last(), same);
}

/// Without its last intersection a list holds at every `t` what it held,
/// but for the last intersection at the `t` of the last intersection.
proof fn lemma_at_t_without_last<'a>(xs: Seq<Intersection<'a>>, t: i64)
    requires
        xs.len() > 0,
    ensures
        at_t(xs.drop_last(), t) == if xs.last().t == t {
            at_t(xs, t).drop_last()
        } else {
            at_t(xs, t)
        },
{
    let same = |x: Intersection<'a>| x.t == t;
    assert(xs =~= xs.drop_last().push(xs.last()));
    xs.drop_last().lemma_filter_push(xs.last(), same);
    if xs.last().t == t {
        assert(at_t(xs.drop_last(), t).push(xs.last()).drop_last() =~= at_t(xs.drop_last(), t));
    }
}

/// No container is alike one that stands behind it.
pub open spec fn distinct(containers: Seq<&Object>) -> bool {
    forall|i: int, j: int|
        0 <= i < j < containers.len() ==> !alike(*containers[i], *containers[j])
}

/// The ray is never inside one object twice: whatever the intersections,
/// no container is alike one that stands behind it.
pub proof fn lemma_containers_are_distinct(xs: Seq<Intersection<'_>>, count: int)
    ensures
        distinct(containers_after(xs, count)),
    decreases count,
{
    if count > 0 {
        lemma_containers_are_distinct(xs, count - 1);
        let before = containers_after(xs, count - 1);
        let object = xs[count - 1].object;
        lemma_place_is_first(before, *object);
        let place = place_of(before, *object);
        let after = toggled(before, object);
        if place < before.len() {
            assert forall|i: int, j: int| 0 <= i < j < after.len() implies !alike(
                *after[i],
                *after[j],
            ) by {
                let i0 = if i < place { i } else { i + 1 };
                let j0 = if j < place { j } else { j + 1 };
                assert(after[i] == before[i0]);
                assert(after[j] == before[j0]);
            }
        }
    }
}

/// The place of an object holds a container that the object is, and no
/// place before it does.
pub proof fn lemma_place_is_first(containers: Seq<&Object>, object: Object)
    ensures
        0 <= place_of(containers, object) <= containers.len(),
        place_of(containers, object) < containers.len() ==> alike(
            *containers[place_of(containers, object)],
            object,
        ),
        forall|j: int| 0 <= j < place_of(containers, object) ==> !alike(*containers[j], object),
    decreases containers.len(),
{
    if containers.len() > 0 && !alike(*containers[0], object) {
        let rest = containers.drop_first();
        lemma_place_is_first(rest, object);
        assert forall|j: int| 0 <= j < place_of(containers, object) implies !alike(
            *containers[j],
            object,
        ) by {
            if j > 0 {
                assert(containers[j] == rest[j - 1]);
            }
        }
    }
}

/// Putting an intersection behind everything that does not come after it,
/// and before everything that does, keeps a sorted list sorted and stable.
proof fn lemma_insert_keeps_sorted<'a>(
    out: Seq<Intersection<'a>>,
    seen: Seq<Intersection<'a>>,
    p: int,
    x: Intersection<'a>,
)
    requires
        sorted_from(out, seen),
        0 <= p <= out.len(),
        p > 0 ==> out[p - 1].t <= x.t,
        forall|j: int| p <= j < out.len() ==> out[j].t > x.t,
    ensures
        sorted_from(out.insert(p, x), seen.push(x)),
{
    let longer = out.insert(p, x);
    assert forall|i: int, j: int| 0 <= i < j < longer.len() implies longer[i].t <= longer[j].t by {
        if i < p {
            assert(longer[i] == out[i]);
            assert(out[i].t <= x.t) by {
                if i < p - 1 {
                    assert(out[i].t <= out[p - 1].t);
                }
            }
        }
        if j > p {
            assert(longer[j] == out[j - 1]);
        }
    }
    assert forall|t: i64| #[trigger] at_t(longer, t) == at_t(seen.push(x), t) by {
        let same = |y: Intersection<'a>| y.t == t;
        let head = out.take(p);
        let tail = out.skip(p);
        assert(out =~= head + tail);
        assert(longer =~= head.push(x) + tail);
        Seq::filter_distributes_over_add(head, tail, same);
        Seq::filter_distributes_over_add(head.push(x), tail, same);
        head.lemma_filter_push(x, same);
        seen.lemma_filter_push(x, same);
        assert(at_t(out, t) == at_t(seen, t));
        if x.t == t {
            assert forall|k: int| 0 <= k < tail.len() implies !same(#[trigger] tail[k]) by {
                assert(tail[k] == out[p + k]);
            }
            tail.lemma_all_neg_filter_empty(same);
            assert(tail.filter(same) =~= Seq::<Intersection<'a>>::empty());
            assert(at_t(longer, t) =~= at_t(seen.push(x), t));
        } else {
            assert(at_t(longer, t) =~= at_t(seen.push(x), t));
        }
    }
}

} // verus!
