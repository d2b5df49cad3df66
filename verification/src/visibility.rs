//! How much of a light reaches a point of the scene.

use vstd::prelude::*;
use crate::bounds::{BoundingBox, Slab, Vec3};
use crate::lights::{lemma_place_in_grid, lemma_places_differ, place, AreaLight, Light, PointLight};
use crate::matrix::Matrix;
use crate::ray::{Arithmetic, Ray};
use crate::scalar;
use crate::sequence::Sequence;
use crate::shapes::shape::{Facts, Shape};
use crate::world::World;

verus! {

/// The arithmetic of the way from a point to a light, which is the
/// caller's: `aim` gives the distance from a point to a place, and the ray
/// from the point towards the place; `spot` the sample in a cell of an area
/// light, from the place of the cell in its row, its row, and the two
/// values of the jitter that move the sample from the corner of the cell;
/// `ratio` the quotient of two counts; and `draw` a value of the jitter,
/// which may be another each time.
pub struct Sight<W, G, Q, J> {
    pub aim: W,
    pub spot: G,
    pub ratio: Q,
    pub draw: J,
}

impl<
    W: Fn(Vec3, Vec3) -> (i64, Ray),
    G: Fn(&AreaLight, usize, usize, i64, i64) -> Vec3,
    Q: Fn(usize, usize) -> i64,
    J: Fn() -> i64,
> Sight<W, G, Q, J> {
    /// Every part of the arithmetic can be asked anything.
    pub open spec fn ready(&self) -> bool {
        &&& forall|a: Vec3, b: Vec3| #[trigger] self.aim.requires((a, b))
        &&& forall|l: &AreaLight, u: usize, v: usize, du: i64, dv: i64| #[trigger]
            self.spot.requires((l, u, v, du, dv))
        &&& forall|a: usize, b: usize| #[trigger] self.ratio.requires((a, b))
        &&& self.draw.requires(())
    }
}

impl PointLight {
    /// Whether `intensity` is the share of the light that reaches a point:
    /// none of it where the point is in the shadow of the light, and all of
    /// it where it is not.
    pub open spec fn reaches<
        P: Fn(&Matrix, Vec3) -> Vec3,
        V: Fn(&Matrix, Vec3) -> Vec3,
        K: Fn(&Shape, &Ray) -> Facts,
        S: Fn(&BoundingBox, &Ray) -> (Slab, Slab, Slab),
        W: Fn(Vec3, Vec3) -> (i64, Ray),
    >(&self, point: Vec3, world: World, with: Arithmetic<P, V, K, S>, aim: W, intensity: i64) -> bool {
        ||| intensity == scalar::ZERO && world.hides(point, self.position[0], with, aim, true)
        ||| intensity == scalar::ONE && world.hides(point, self.position[0], with, aim, false)
    }

    /// The share of the light that reaches a point of the world.
    pub fn intensity_at<
        P: Fn(&Matrix, Vec3) -> Vec3,
        V: Fn(&Matrix, Vec3) -> Vec3,
        K: Fn(&Shape, &Ray) -> Facts,
        S: Fn(&BoundingBox, &Ray) -> (Slab, Slab, Slab),
        W: Fn(Vec3, Vec3) -> (i64, Ray),
    >(&self, world_point: Vec3, world: &World, with: &Arithmetic<P, V, K, S>, aim: &W) -> (intensity:
        i64)
        requires
            with.ready(),
            forall|a: Vec3, b: Vec3| #[trigger] aim.requires((a, b)),
        ensures
            self.reaches(world_point, *world, *with, *aim, intensity),
    {
        if world.is_shadowed(world_point, self.position[0], with, aim) {
            scalar::ZERO
        } else {
            scalar::ONE
        }
    }
}

impl AreaLight {
    /// Whether `dark` says rightly if the sample of a cell is in shadow at a
    /// point, where the sample is placed in the cell by two values of the
    /// jitter.
    pub open spec fn dark_at<
        P: Fn(&Matrix, Vec3) -> Vec3,
        V: Fn(&Matrix, Vec3) -> Vec3,
        K: Fn(&Shape, &Ray) -> Facts,
        S: Fn(&BoundingBox, &Ray) -> (Slab, Slab, Slab),
        W: Fn(Vec3, Vec3) -> (i64, Ray),
        G: Fn(&AreaLight, usize, usize, i64, i64) -> Vec3,
        Q: Fn(usize, usize) -> i64,
        J: Fn() -> i64,
    >(
        &self,
        point: Vec3,
        world: World,
        u: usize,
        v: usize,
        du: i64,
        dv: i64,
        with: Arithmetic<P, V, K, S>,
        sight: Sight<W, G, Q, J>,
        dark: bool,
    ) -> bool {
        exists|sample: Vec3|
            {
                &&& #[trigger] sight.spot.ensures((self, u, v, du, dv), sample)
                &&& world.hides(point, sample, with, sight.aim, dark)
            }
    }

    /// Whether `table` says of each cell, in the order in which the cells
    /// are sampled, if the sample in the cell is in shadow at a point, where
    /// the samples are placed by the values that `jitter_by` hands out: two
    /// values for each cell, the first for the place along the row.
    pub open spec fn sampled<
        P: Fn(&Matrix, Vec3) -> Vec3,
        V: Fn(&Matrix, Vec3) -> Vec3,
        K: Fn(&Shape, &Ray) -> Facts,
        S: Fn(&BoundingBox, &Ray) -> (Slab, Slab, Slab),
        W: Fn(Vec3, Vec3) -> (i64, Ray),
        G: Fn(&AreaLight, usize, usize, i64, i64) -> Vec3,
        Q: Fn(usize, usize) -> i64,
        J: Fn() -> i64,
    >(
        &self,
        point: Vec3,
        world: World,
        jitter_by: Sequence<i64>,
        with: Arithmetic<P, V, K, S>,
        sight: Sight<W, G, Q, J>,
        table: Seq<bool>,
    ) -> bool {
        &&& table.len() == self.spec_samples()
        &&& forall|u: usize, v: usize|
            u < self.spec_usteps() && v < self.spec_vsteps() ==> self.dark_at(
                point,
                world,
                u,
                v,
                jitter_by.drawn(2 * place(self.spec_usteps(), u, v)),
                jitter_by.drawn(2 * place(self.spec_usteps(), u, v) + 1),
                with,
                sight,
                table[#[trigger] place(self.spec_usteps(), u, v)],
            )
    }

    /// Whether `intensity` is the share of the light that reaches a point,
    /// with the samples placed by the given jitter: the number of the cells
    /// whose sample is not in shadow, over the number of all the cells.
    pub open spec fn reaches<
        P: Fn(&Matrix, Vec3) -> Vec3,
        V: Fn(&Matrix, Vec3) -> Vec3,
        K: Fn(&Shape, &Ray) -> Facts,
        S: Fn(&BoundingBox, &Ray) -> (Slab, Slab, Slab),
        W: Fn(Vec3, Vec3) -> (i64, Ray),
        G: Fn(&AreaLight, usize, usize, i64, i64) -> Vec3,
        Q: Fn(usize, usize) -> i64,
        J: Fn() -> i64,
    >(
        &self,
        point: Vec3,
        world: World,
        jitter_by: Sequence<i64>,
        with: Arithmetic<P, V, K, S>,
        sight: Sight<W, G, Q, J>,
        intensity: i64,
    ) -> bool {
        exists|table: Seq<bool>|
            {
                &&& #[trigger] self.sampled(point, world, jitter_by, with, sight, table)
                &&& sight.ratio.ensures(
                    (table.filter(|dark: bool| !dark).len() as usize, self.spec_samples()),
                    intensity,
                )
            }
    }

    /// Whether `intensity` is the share of the light that reaches a point
    /// with a jitter that was drawn for the purpose: as many values as the
    /// light has cells, handed out from the first on.
    pub open spec fn reaches_jittered<
        P: Fn(&Matrix, Vec3) -> Vec3,
        V: Fn(&Matrix, Vec3) -> Vec3,
        K: Fn(&Shape, &Ray) -> Facts,
        S: Fn(&BoundingBox, &Ray) -> (Slab, Slab, Slab),
        W: Fn(Vec3, Vec3) -> (i64, Ray),
        G: Fn(&AreaLight, usize, usize, i64, i64) -> Vec3,
        Q: Fn(usize, usize) -> i64,
        J: Fn() -> i64,
    >(
        &self,
        point: Vec3,
        world: World,
        with: Arithmetic<P, V, K, S>,
        sight: Sight<W, G, Q, J>,
        intensity: i64,
    ) -> bool {
        exists|jitter_by: Sequence<i64>|
            {
                &&& jitter_by.values().len() == self.spec_samples()
                &&& jitter_by.position() == 0
                &&& forall|i: int|
                    0 <= i < jitter_by.values().len() ==> sight.draw.ensures(
                        (),
                        #[trigger] jitter_by.values()[i],
                    )
                &&& #[trigger] self.reaches(point, world, jitter_by, with, sight, intensity)
            }
    }

    /// The share of the light that reaches a point of the world, with the
    /// samples placed by the values that `jitter_by` hands out. A light
    /// with cells needs a jitter that holds a value.
    pub fn intensity_at_impl<
        P: Fn(&Matrix, Vec3) -> Vec3,
        V: Fn(&Matrix, Vec3) -> Vec3,
        K: Fn(&Shape, &Ray) -> Facts,
        S: Fn(&BoundingBox, &Ray) -> (Slab, Slab, Slab),
        W: Fn(Vec3, Vec3) -> (i64, Ray),
        G: Fn(&AreaLight, usize, usize, i64, i64) -> Vec3,
        Q: Fn(usize, usize) -> i64,
        J: Fn() -> i64,
    >(
        &self,
        world_point: Vec3,
        world: &World,
        jitter_by: &mut Sequence<i64>,
        with: &Arithmetic<P, V, K, S>,
        sight: &Sight<W, G, Q, J>,
    ) -> (intensity: i64)
        requires
            self.spec_samples() > 0 ==> old(jitter_by).values().len() > 0,
            with.ready(),
            sight.ready(),
        ensures
            final(jitter_by).values() == old(jitter_by).values(),
            forall|ahead: int|
                0 <= ahead ==> #[trigger] final(jitter_by).drawn(ahead) == old(jitter_by).drawn(
                    2 * self.spec_samples() + ahead,
                ),
            self.reaches(world_point, *world, *old(jitter_by), *with, *sight, intensity),
    {
        let usteps: usize = self.usteps();
        let vsteps: usize = self.vsteps();
        let samples: usize = self.samples();
        let ghost unlit = |dark: bool| !dark;
        let ghost mut table: Seq<bool> = Seq::empty();
        let mut lit: usize = 0;
        let mut v: usize = 0;
        while v < vsteps
            invariant
                v <= vsteps,
                usteps == self.spec_usteps(),
                vsteps == self.spec_vsteps(),
                samples == self.spec_samples(),
                samples == usteps * vsteps,
                with.ready(),
                sight.ready(),
                jitter_by.values() == old(jitter_by).values(),
                samples > 0 ==> jitter_by.values().len() > 0,
                table.len() == v * usteps,
                lit == table.filter(unlit).len(),
                unlit == (|dark: bool| !dark),
                forall|ahead: int|
                    0 <= ahead ==> #[trigger] jitter_by.drawn(ahead) == old(jitter_by).drawn(
                        2 * table.len() + ahead,
                    ),
                forall|i: usize, j: usize|
                    i < usteps && j < v ==> self.dark_at(
                        world_point,
                        *world,
                        i,
                        j,
                        old(jitter_by).drawn(2 * place(usteps, i, j)),
                        old(jitter_by).drawn(2 * place(usteps, i, j) + 1),
                        *with,
                        *sight,
                        table[#[trigger] place(usteps, i, j)],
                    ),
            decreases vsteps - v,
        {
            let mut u: usize = 0;
            while u < usteps
                invariant
                    u <= usteps,
                    v < vsteps,
                    usteps == self.spec_usteps(),
                    vsteps == self.spec_vsteps(),
                    samples == self.spec_samples(),
                    samples == usteps * vsteps,
                    with.ready(),
                    sight.ready(),
                    jitter_by.values() == old(jitter_by).values(),
                    samples > 0 ==> jitter_by.values().len() > 0,
                    table.len() == v * usteps + u,
                    lit == table.filter(unlit).len(),
                    unlit == (|dark: bool| !dark),
                    forall|ahead: int|
                        0 <= ahead ==> #[trigger] jitter_by.drawn(ahead) == old(jitter_by).drawn(
                            2 * table.len() + ahead,
                        ),
                    forall|i: usize, j: usize|
                        i < usteps && (j < v || (j == v && i < u)) ==> self.dark_at(
                            world_point,
                            *world,
                            i,
                            j,
                            old(jitter_by).drawn(2 * place(usteps, i, j)),
                            old(jitter_by).drawn(2 * place(usteps, i, j) + 1),
                            *with,
                            *sight,
                            table[#[trigger] place(usteps, i, j)],
                        ),
                decreases usteps - u,
            {
                proof {
                    lemma_place_in_grid(usteps, vsteps, u, v);
                }
                let ghost before = *jitter_by;
                let du: i64 = jitter_by.next().unwrap();
                let ghost between = *jitter_by;
                let dv: i64 = jitter_by.next().unwrap();
                let sample: Vec3 = (sight.spot)(self, u, v, du, dv);
                let dark: bool = world.is_shadowed(world_point, sample, with, &sight.aim);
                proof {
                    let k = table.len() as int;
                    assert(du == before.drawn(0));
                    assert(dv == between.drawn(0));
                    assert(between.drawn(0) == before.drawn(1));
                    assert(du == old(jitter_by).drawn(2 * k));
                    assert(dv == old(jitter_by).drawn(2 * k + 1));
                    assert(sight.spot.ensures((self, u, v, du, dv), sample));
                    assert(self.dark_at(world_point, *world, u, v, du, dv, *with, *sight, dark));
                    assert forall|ahead: int| 0 <= ahead implies #[trigger] jitter_by.drawn(ahead)
                        == old(jitter_by).drawn(2 * (k + 1) + ahead) by {
                        assert(jitter_by.drawn(ahead) == between.drawn(ahead + 1));
                        assert(between.drawn(ahead + 1) == before.drawn(ahead + 2));
                    }
                    table.lemma_filter_push(dark, unlit);
                    table.lemma_filter_len(unlit);
                    let longer = table.push(dark);
                    assert forall|i: usize, j: usize|
                        i < usteps && (j < v || (j == v && i < u + 1)) implies self.dark_at(
                        world_point,
                        *world,
                        i,
                        j,
                        old(jitter_by).drawn(2 * place(usteps, i, j)),
                        old(jitter_by).drawn(2 * place(usteps, i, j) + 1),
                        *with,
                        *sight,
                        longer[#[trigger] place(usteps, i, j)],
                    ) by {
                        lemma_places_differ(usteps, i, j, u, v);
                        if !(j == v && i == u) {
                            assert(longer[place(usteps, i, j)] == table[place(usteps, i, j)]);
                        }
                    }
                    table = longer;
                }
                if !dark {
                    lit += 1;
                }
                u += 1;
            }
            proof {
                assert(v * usteps + usteps == (v + 1) * usteps) by (nonlinear_arith);
            }
            v += 1;
        }
        proof {
            assert(vsteps * usteps == usteps * vsteps) by (nonlinear_arith);
            assert(self.sampled(world_point, *world, *old(jitter_by), *with, *sight, table));
        }
        (sight.ratio)(lit, samples)
    }

    /// The share of the light that reaches a point of the world, with a
    /// jitter that is drawn for the purpose.
    pub fn intensity_at<
        P: Fn(&Matrix, Vec3) -> Vec3,
        V: Fn(&Matrix, Vec3) -> Vec3,
        K: Fn(&Shape, &Ray) -> Facts,
        S: Fn(&BoundingBox, &Ray) -> (Slab, Slab, Slab),
        W: Fn(Vec3, Vec3) -> (i64, Ray),
        G: Fn(&AreaLight, usize, usize, i64, i64) -> Vec3,
        Q: Fn(usize, usize) -> i64,
        J: Fn() -> i64,
    >(
        &self,
        world_point: Vec3,
        world: &World,
        with: &Arithmetic<P, V, K, S>,
        sight: &Sight<W, G, Q, J>,
    ) -> (intensity: i64)
        requires
            with.ready(),
            sight.ready(),
        ensures
            self.reaches_jittered(world_point, *world, *with, *sight, intensity),
    {
        let samples: usize = self.samples();
        let mut values: Vec<i64> = Vec::new();
        let mut drawn: usize = 0;
        while drawn < samples
            invariant
                drawn <= samples,
                sight.ready(),
                values@.len() == drawn,
                forall|i: int| 0 <= i < values@.len() ==> sight.draw.ensures((), #[trigger] values@[i]),
            decreases samples - drawn,
        {
            let value: i64 = (sight.draw)();
            values.push(value);
            drawn += 1;
        }
        let mut jitter_by: Sequence<i64> = Sequence::new(values);
        let ghost fresh = jitter_by;
        let intensity: i64 = self.intensity_at_impl(world_point, world, &mut jitter_by, with, sight);
        assert(self.reaches(world_point, *world, fresh, *with, *sight, intensity));
        intensity
    }
}

impl Light {
    /// Whether `intensity` is the share of the light that reaches a point.
    pub open spec fn reaches<
        P: Fn(&Matrix, Vec3) -> Vec3,
        V: Fn(&Matrix, Vec3) -> Vec3,
        K: Fn(&Shape, &Ray) -> Facts,
        S: Fn(&BoundingBox, &Ray) -> (Slab, Slab, Slab),
        W: Fn(Vec3, Vec3) -> (i64, Ray),
        G: Fn(&AreaLight, usize, usize, i64, i64) -> Vec3,
        Q: Fn(usize, usize) -> i64,
        J: Fn() -> i64,
    >(
        &self,
        point: Vec3,
        world: World,
        with: Arithmetic<P, V, K, S>,
        sight: Sight<W, G, Q, J>,
        intensity: i64,
    ) -> bool {
        match self {
            Light::PointLight(l) => l.reaches(point, world, with, sight.aim, intensity),
            Light::AreaLight(l) => l.reaches_jittered(point, world, with, sight, intensity),
        }
    }

    /// The share of the light that reaches a point of the world.
    pub fn intensity_at<
        P: Fn(&Matrix, Vec3) -> Vec3,
        V: Fn(&Matrix, Vec3) -> Vec3,
        K: Fn(&Shape, &Ray) -> Facts,
        S: Fn(&BoundingBox, &Ray) -> (Slab, Slab, Slab),
        W: Fn(Vec3, Vec3) -> (i64, Ray),
        G: Fn(&AreaLight, usize, usize, i64, i64) -> Vec3,
        Q: Fn(usize, usize) -> i64,
        J: Fn() -> i64,
    >(
        &self,
        world_point: Vec3,
        world: &World,
        with: &Arithmetic<P, V, K, S>,
        sight: &Sight<W, G, Q, J>,
    ) -> (intensity: i64)
        requires
            with.ready(),
            sight.ready(),
        ensures
            self.reaches(world_point, *world, *with, *sight, intensity),
    {
        match self {
            Light::PointLight(l) => l.intensity_at(world_point, world, with, &sight.aim),
            Light::AreaLight(l) => l.intensity_at(world_point, world, with, sight),
        }
    }
}

} // verus!
