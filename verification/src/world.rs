//! The scene and the search for what a ray sees in it.

use vstd::prelude::*;
use crate::bounds::{BoundingBox, Slab, Vec3};
use crate::matrix::Matrix;
use crate::ray::{Arithmetic, Ray};
use crate::shapes::shape::{Facts, Shape};
use crate::graph::{id_from, number_each, numbered, numbered_each};
use crate::hierarchy::{intersect_each, leaves_of, met_all};
use crate::lights::Light;
use crate::intersection::{
    is_first_accepted, sorted_from, Intersection, Intersections, ShadowHit, StandardHit,
};
use crate::object::Object;

verus! {

/// The rays that the shading of a hit sends on. `reflect` and `refract` hold
/// the depth that is left for the ray that is mirrored and for the ray that
/// passes through the surface, and `None` where no such ray is sent.
/// `fresnel` says whether the two are weighed against each other by the
/// reflectance of the surface.
#[derive(Clone, Copy, Debug, PartialEq, Eq, Structural)]
pub struct SecondaryRays {
    pub reflect: Option<u8>,
    pub refract: Option<u8>,
    pub fresnel: bool,
}

/// A surface that mirrors nothing sends no mirrored ray, one that lets
/// nothing through sends none through, and with no depth left no ray is sent
/// on at all. A ray that is sent on has one level of depth less. The two
/// are weighed by the reflectance where the surface both mirrors and lets
/// light through.
pub open spec fn spec_secondary_rays(reflective: i64, transparency: i64, remaining: u8) -> SecondaryRays {
    SecondaryRays {
        reflect: if remaining < 1 || reflective == 0 {
            None
        } else {
            Some((remaining - 1) as u8)
        },
        refract: if remaining < 1 || transparency == 0 {
            None
        } else {
            Some((remaining - 1) as u8)
        },
        fresnel: reflective > 0 && transparency > 0,
    }
}

/// The rays that the shading of a hit sends on, for a surface of the given
/// reflectivity and transparency, with the given depth left.
#[verifier::when_used_as_spec(spec_secondary_rays)]
pub fn secondary_rays(reflective: i64, transparency: i64, remaining: u8) -> (rays: SecondaryRays)
    ensures
        rays == spec_secondary_rays(reflective, transparency, remaining),
{
    SecondaryRays {
        reflect: if remaining < 1 || reflective == 0 {
            None
        } else {
            Some(remaining - 1)
        },
        refract: if remaining < 1 || transparency == 0 {
            None
        } else {
            Some(remaining - 1)
        },
        fresnel: reflective > 0 && transparency > 0,
    }
}

/// The depth of the rays that are sent on is less than the depth of the ray
/// that sent them: the shading of a ray comes to an end.
pub proof fn lemma_secondary_rays_are_shallower(reflective: i64, transparency: i64, remaining: u8)
    ensures
        secondary_rays(reflective, transparency, remaining).reflect matches Some(depth) ==> depth
            < remaining,
        secondary_rays(reflective, transparency, remaining).refract matches Some(depth) ==> depth
            < remaining,
        remaining == 0 ==> secondary_rays(reflective, transparency, remaining).reflect is None
            && secondary_rays(reflective, transparency, remaining).refract is None,
{
}

/// The scene: the objects and the lights.
///
/// The world names the primitives that are put into it, so that no two of
/// them go under the same id: the first gets the id 1, and `next_id` is the
/// id that the next one gets.
///
/// A ray is followed with the help of the caller's arithmetic.
#[derive(Debug)]
pub struct World {
    objects: Vec<Object>,
    lights: Vec<Light>,
    next_id: usize,
}

impl World {
    pub closed spec fn spec_objects(&self) -> Seq<Object> {
        self.objects@
    }

    pub closed spec fn spec_lights(&self) -> Seq<Light> {
        self.lights@
    }

    pub closed spec fn spec_next_id(&self) -> usize {
        self.next_id
    }

    /// Whether `xs` holds all the intersections of a ray with the scene in
    /// the order in which the ray meets them: those with what is under each
    /// object, one object after the other, put in ascending order.
    pub open spec fn meets<
        'a,
        P: Fn(&Matrix, Vec3) -> Vec3,
        V: Fn(&Matrix, Vec3) -> Vec3,
        K: Fn(&Shape, &Ray) -> Facts,
        S: Fn(&BoundingBox, &Ray) -> (Slab, Slab, Slab),
    >(&self, ray: Ray, with: Arithmetic<P, V, K, S>, xs: Seq<Intersection<'a>>) -> bool {
        exists|all: Seq<Intersection<'a>>|
            met_all(self.spec_objects(), ray, all, with) && #[trigger] sorted_from(xs, all)
    }

    /// Whether `hit` is the place, in the list `xs` of all the
    /// intersections of a ray with the scene, of what the ray sees: of the
    /// first intersection that is not behind the origin of the ray; it is
    /// `None` where there is none.
    pub open spec fn sees<
        'a,
        P: Fn(&Matrix, Vec3) -> Vec3,
        V: Fn(&Matrix, Vec3) -> Vec3,
        K: Fn(&Shape, &Ray) -> Facts,
        S: Fn(&BoundingBox, &Ray) -> (Slab, Slab, Slab),
    >(&self, ray: Ray, with: Arithmetic<P, V, K, S>, xs: Seq<Intersection<'a>>, hit: Option<int>) -> bool {
        &&& self.meets(ray, with, xs)
        &&& is_first_accepted(xs, StandardHit {  }, hit)
    }

    /// Whether `shadowed` says rightly if a point is in the shadow of a
    /// light that is `distance` away, where the ray goes from the point
    /// towards the light. The point is in shadow where the first object on
    /// the ray that casts shadows is nearer than the light.
    pub open spec fn shadowed_by<
        'a,
        P: Fn(&Matrix, Vec3) -> Vec3,
        V: Fn(&Matrix, Vec3) -> Vec3,
        K: Fn(&Shape, &Ray) -> Facts,
        S: Fn(&BoundingBox, &Ray) -> (Slab, Slab, Slab),
    >(&self, distance: i64, ray: Ray, with: Arithmetic<P, V, K, S>, shadowed: bool) -> bool {
        exists|xs: Seq<Intersection<'a>>, hit: Option<int>|
            {
                &&& self.meets(ray, with, xs)
                &&& #[trigger] is_first_accepted(xs, ShadowHit {  }, hit)
                &&& shadowed == (hit is Some && xs[hit.unwrap()].t < distance)
            }
    }

    /// Whether `shadowed` says rightly if a point is in the shadow of a
    /// place that light comes from, where `aim` gives the distance from the
    /// point to the place and the ray from the point towards it.
    pub open spec fn hides<
        P: Fn(&Matrix, Vec3) -> Vec3,
        V: Fn(&Matrix, Vec3) -> Vec3,
        K: Fn(&Shape, &Ray) -> Facts,
        S: Fn(&BoundingBox, &Ray) -> (Slab, Slab, Slab),
        W: Fn(Vec3, Vec3) -> (i64, Ray),
    >(
        &self,
        point: Vec3,
        position: Vec3,
        with: Arithmetic<P, V, K, S>,
        aim: W,
        shadowed: bool,
    ) -> bool {
        exists|distance: i64, ray: Ray|
            {
                &&& #[trigger] aim.ensures((point, position), (distance, ray))
                &&& self.shadowed_by(distance, ray, with, shadowed)
            }
    }

    pub fn new() -> (world: Self)
        ensures
            world.spec_objects() == Seq::<Object>::empty(),
            world.spec_lights() == Seq::<Light>::empty(),
            world.spec_next_id() == 1,
    {
        Self { objects: Vec::new(), lights: Vec::new(), next_id: 1 }
    }

    /// The world with the given objects in place of those it had, their
    /// primitives named from 1 on.
    pub fn with_objects(self, objects: Vec<Object>) -> (world: Self)
        ensures
            numbered_each(objects@, world.spec_objects(), 1),
            world.spec_next_id() == id_from(1, leaves_of(objects@).len() as int),
            world.spec_lights() == self.spec_lights(),
    {
        let mut objects = objects;
        let next_id: usize = number_each(&mut objects, 1);
        Self { objects, lights: self.lights, next_id }
    }

    pub fn with_lights(self, lights: Vec<Light>) -> (world: Self)
        ensures
            world.spec_objects() == self.spec_objects(),
            world.spec_next_id() == self.spec_next_id(),
            world.spec_lights() == lights@,
    {
        Self { objects: self.objects, lights, next_id: self.next_id }
    }

    /// Puts one more object into the world, its primitives named from the
    /// next id on.
    pub fn push_object(&mut self, object: Object)
        ensures
            final(self).spec_objects().len() == old(self).spec_objects().len() + 1,
            final(self).spec_objects().drop_last() == old(self).spec_objects(),
            numbered(object, final(self).spec_objects().last(), old(self).spec_next_id()),
            final(self).spec_next_id() == id_from(
                old(self).spec_next_id(),
                object.leaves().len() as int,
            ),
            final(self).spec_lights() == old(self).spec_lights(),
    {
        let ghost before = self.objects@;
        let mut object = object;
        self.next_id = object.number(self.next_id);
        self.objects.push(object);
        assert(self.objects@.drop_last() =~= before);
    }

    pub fn objects(&self) -> (objects: &Vec<Object>)
        ensures
            objects@ == self.spec_objects(),
    {
        &self.objects
    }

    pub fn lights(&self) -> (lights: &Vec<Light>)
        ensures
            lights@ == self.spec_lights(),
    {
        &self.lights
    }

    pub fn object(&self, index: usize) -> (object: Option<&Object>)
        ensures
            index < self.spec_objects().len() ==> object == Some(&self.spec_objects()[index as int]),
            index >= self.spec_objects().len() ==> object is None,
    {
        if index < self.objects.len() {
            Some(&self.objects[index])
        } else {
            None
        }
    }

    pub fn object_mut(&mut self, index: usize) -> (object: Option<&mut Object>)
        ensures
            final(self).spec_lights() == old(self).spec_lights(),
            final(self).spec_next_id() == old(self).spec_next_id(),
            index < old(self).spec_objects().len() ==> object is Some && *object.unwrap() == old(
                self,
            ).spec_objects()[index as int] && final(self).spec_objects() == old(
                self,
            ).spec_objects().update(index as int, *final(object.unwrap())),
            index >= old(self).spec_objects().len() ==> object is None && final(self).spec_objects()
                == old(self).spec_objects(),
    {
        if index < self.objects.len() {
            Some(&mut self.objects[index])
        } else {
            None
        }
    }

    pub fn light(&self, index: usize) -> (light: Option<&Light>)
        ensures
            index < self.spec_lights().len() ==> light == Some(&self.spec_lights()[index as int]),
            index >= self.spec_lights().len() ==> light is None,
    {
        if index < self.lights.len() {
            Some(&self.lights[index])
        } else {
            None
        }
    }

    /// All the intersections of a ray with the scene, in the order in which
    /// the ray meets them.
    pub fn intersects<
        'a,
        P: Fn(&Matrix, Vec3) -> Vec3,
        V: Fn(&Matrix, Vec3) -> Vec3,
        K: Fn(&Shape, &Ray) -> Facts,
        S: Fn(&BoundingBox, &Ray) -> (Slab, Slab, Slab),
    >(&'a self, ray: &Ray, with: &Arithmetic<P, V, K, S>) -> (xs: Intersections<'a>)
        requires
            with.ready(),
        ensures
            self.meets(*ray, *with, xs@),
    {
        let all: Intersections<'a> = intersect_each(&self.objects, ray, with);
        let ghost unsorted = all@;
        let xs: Intersections<'a> = all.sort();
        assert(sorted_from(xs@, unsorted));
        xs
    }

    /// Whether something that casts shadows stands between a point and a
    /// place that light comes from. `aim` gives the distance from the point
    /// to the place, and the ray from the point towards it.
    pub fn is_shadowed<
        'a,
        P: Fn(&Matrix, Vec3) -> Vec3,
        V: Fn(&Matrix, Vec3) -> Vec3,
        K: Fn(&Shape, &Ray) -> Facts,
        S: Fn(&BoundingBox, &Ray) -> (Slab, Slab, Slab),
        W: Fn(Vec3, Vec3) -> (i64, Ray),
    >(
        &'a self,
        world_point: Vec3,
        light_pos: Vec3,
        with: &Arithmetic<P, V, K, S>,
        aim: &W,
    ) -> (shadowed: bool)
        requires
            with.ready(),
            forall|a: Vec3, b: Vec3| #[trigger] aim.requires((a, b)),
        ensures
            self.hides(world_point, light_pos, *with, *aim, shadowed),
    {
        let (distance, ray) = aim(world_point, light_pos);
        let xs: Intersections<'a> = self.intersects(&ray, with);
        let shadowed: bool = match xs.hit_index(ShadowHit {  }) {
            Some(index) => {
                let shadowed: bool = xs.get_all()[index].t < distance;
                assert(is_first_accepted(xs@, ShadowHit {  }, Some(index as int)));
                shadowed
            },
            None => {
                assert(is_first_accepted(xs@, ShadowHit {  }, None));
                false
            },
        };
        assert(aim.ensures((world_point, light_pos), (distance, ray)));
        shadowed
    }
}

impl Default for World {
    fn default() -> (world: Self)
        ensures
            world.spec_objects() == Seq::<Object>::empty(),
            world.spec_lights() == Seq::<Light>::empty(),
            world.spec_next_id() == 1,
    {
        Self::new()
    }
}

} // verus!
