//! The colour that a ray sees: the light at a hit, and what the rays that
//! the hit sends on see in their turn.

use vstd::prelude::*;
use crate::bounds::{BoundingBox, Slab, Vec3};
use crate::color::Color;
use crate::intersection::{
    Intersection, IntersectionInfos, Intersections, Shading, StandardHit,
};
use crate::lights::{AreaLight, Light};
use crate::material::Material;
use crate::matrix::Matrix;
use crate::pattern::PatternPoint;
use crate::phong::Phong;
use crate::ray::{Arithmetic, Ray};
use crate::scalar;
use crate::shapes::shape::{Curve, Facts, Shape};
use crate::visibility::Sight;
use crate::world::{secondary_rays, SecondaryRays, World};

verus! {

/// The arithmetic of the rays that a hit sends on, which is the caller's:
/// `add` gives the sum of two colours; `scaled` a colour taken a number of
/// times; `blend` the colour of a surface with
/// what it mirrors and what comes through it, the two weighed by the share
/// of light that the surface gives back; `sine` the square of the sine of
/// the angle of the ray that passes through a surface, from the two
/// refractive indices and the cosine of the angle of the ray that comes in;
/// `cosine` the cosine of an angle from the square of its sine; `share` the
/// share of light that is given back, from the two refractive indices and a
/// cosine; and `bend` the direction of the ray that passes through, from the
/// normal, the eye, the two refractive indices and the two cosines.
pub struct Optics<U, C, B, N, Q, H, T> {
    pub add: U,
    pub scaled: C,
    pub blend: B,
    pub sine: N,
    pub cosine: Q,
    pub share: H,
    pub bend: T,
}

impl<
    U: Fn(Color, Color) -> Color,
    C: Fn(Color, i64) -> Color,
    B: Fn(Color, Color, Color, i64) -> Color,
    N: Fn(i64, i64, i64) -> i64,
    Q: Fn(i64) -> i64,
    H: Fn(i64, i64, i64) -> i64,
    T: Fn(Vec3, Vec3, i64, i64, i64, i64) -> Vec3,
> Optics<U, C, B, N, Q, H, T> {
    /// Every part of the arithmetic can be asked anything.
    pub open spec fn ready(&self) -> bool {
        &&& forall|a: Color, b: Color| #[trigger] self.add.requires((a, b))
        &&& forall|a: Color, times: i64| #[trigger] self.scaled.requires((a, times))
        &&& forall|a: Color, b: Color, c: Color, r: i64| #[trigger]
            self.blend.requires((a, b, c, r))
        &&& forall|a: i64, b: i64, c: i64| #[trigger] self.sine.requires((a, b, c))
        &&& forall|a: i64| #[trigger] self.cosine.requires((a,))
        &&& forall|a: i64, b: i64, c: i64| #[trigger] self.share.requires((a, b, c))
        &&& forall|n: Vec3, e: Vec3, a: i64, b: i64, c: i64, d: i64| #[trigger]
            self.bend.requires((n, e, a, b, c, d))
    }
}

/// All the arithmetic that the colour of a ray is worked out with: that of
/// a ray against the scene, that of a hit, that of the light on a surface,
/// that of the way from a point to a light, and that of the rays that a hit
/// sends on. The name of a type parameter begins with the first letter of
/// the part that it belongs to, with `L` for the lamps.
pub struct Tracing<
    RI,
    RT,
    RF,
    RS,
    HA,
    HI,
    HC,
    HW,
    HD,
    HO,
    HR,
    LI,
    LK,
    LX,
    LT,
    LS,
    LW,
    LD,
    LR,
    LP,
    LA,
    LE,
    SA,
    SS,
    SR,
    SD,
    TA,
    TS,
    TB,
    TN,
    TC,
    TH,
    TT,
> {
    pub rays: Arithmetic<RI, RT, RF, RS>,
    pub hits: Shading<HA, HI, HC, HW, HD, HO, HR>,
    pub lamps: Phong<LI, LK, LX, LT, LS, LW, LD, LR, LP, LA, LE>,
    pub sight: Sight<SA, SS, SR, SD>,
    pub tones: Optics<TA, TS, TB, TN, TC, TH, TT>,
}

/// The colour that was seen, and black where nothing was.
pub open spec fn spec_or_black(seen: Option<Color>) -> Color {
    match seen {
        Some(color) => color,
        None => Color::spec_black(),
    }
}

#[verifier::when_used_as_spec(spec_or_black)]
pub fn or_black(seen: Option<Color>) -> (color: Color)
    ensures
        color == spec_or_black(seen),
{
    match seen {
        Some(color) => color,
        None => Color::black(),
    }
}

impl<
    RI: Fn(&Matrix, Vec3) -> Vec3,
    RT: Fn(&Matrix, Vec3) -> Vec3,
    RF: Fn(&Shape, &Ray) -> Facts,
    RS: Fn(&BoundingBox, &Ray) -> (Slab, Slab, Slab),
    HA: Fn(&Ray, i64) -> Vec3,
    HI: Fn(&Matrix, Vec3) -> Vec3,
    HC: Fn(&Shape, Vec3, i64, i64) -> Curve,
    HW: Fn(&Matrix, Vec3) -> Vec3,
    HD: Fn(Vec3, Vec3) -> i64,
    HO: Fn(Vec3, Vec3) -> (Vec3, Vec3),
    HR: Fn(Vec3, Vec3) -> Vec3,
    LI: Fn(&Matrix, Vec3) -> Vec3,
    LK: Fn(Vec3) -> PatternPoint,
    LX: Fn(Color, Color, i64) -> Color,
    LT: Fn(Color, Color) -> Color,
    LS: Fn(Color, i64) -> Color,
    LW: Fn(Vec3, Vec3) -> Vec3,
    LD: Fn(Vec3, Vec3) -> i64,
    LR: Fn(Vec3, Vec3) -> Vec3,
    LP: Fn(i64, i64) -> i64,
    LA: Fn(Color, Color) -> Color,
    LE: Fn(Color, i64, usize) -> Color,
    SA: Fn(Vec3, Vec3) -> (i64, Ray),
    SS: Fn(&AreaLight, usize, usize, i64, i64) -> Vec3,
    SR: Fn(usize, usize) -> i64,
    SD: Fn() -> i64,
    TA: Fn(Color, Color) -> Color,
    TS: Fn(Color, i64) -> Color,
    TB: Fn(Color, Color, Color, i64) -> Color,
    TN: Fn(i64, i64, i64) -> i64,
    TC: Fn(i64) -> i64,
    TH: Fn(i64, i64, i64) -> i64,
    TT: Fn(Vec3, Vec3, i64, i64, i64, i64) -> Vec3,
> Tracing<
    RI,
    RT,
    RF,
    RS,
    HA,
    HI,
    HC,
    HW,
    HD,
    HO,
    HR,
    LI,
    LK,
    LX,
    LT,
    LS,
    LW,
    LD,
    LR,
    LP,
    LA,
    LE,
    SA,
    SS,
    SR,
    SD,
    TA,
    TS,
    TB,
    TN,
    TC,
    TH,
    TT,
> {
    /// Every part of the arithmetic can be asked anything.
    pub open spec fn ready(&self) -> bool {
        &&& self.rays.ready()
        &&& self.hits.ready()
        &&& self.lamps.ready()
        &&& self.sight.ready()
        &&& self.tones.ready()
    }

    /// Whether `color` is the light that the given lights leave at a hit:
    /// black with no light, and else the sum of what each light leaves
    /// there, taken in their order, each added to the sum of those before.
    /// What a light leaves is its light on the surface at the point just
    /// over it, by the share of the light that reaches that point.
    pub open spec fn lit_by<'a>(
        &self,
        world: World,
        lights: Seq<Light>,
        infos: IntersectionInfos<'a>,
        color: Color,
    ) -> bool
        decreases lights.len(),
    {
        if lights.len() == 0 {
            color == Color::spec_black()
        } else {
            exists|before: Color, intensity: i64, one: Color|
                #![trigger
                    self.lamps.lights(
                        infos.object.material,
                        *infos.object,
                        lights.last(),
                        infos.over_point,
                        infos.eyev,
                        infos.normalv,
                        intensity,
                        one,
                    ),
                    self.tones.add.ensures((before, one), color)
                ]
                {
                    &&& self.lit_by(world, lights.drop_last(), infos, before)
                    &&& lights.last().reaches(
                        infos.over_point,
                        world,
                        self.rays,
                        self.sight,
                        intensity,
                    )
                    &&& self.lamps.lights(
                        infos.object.material,
                        *infos.object,
                        lights.last(),
                        infos.over_point,
                        infos.eyev,
                        infos.normalv,
                        intensity,
                        one,
                    )
                    &&& self.tones.add.ensures((before, one), color)
                }
        }
    }

    /// Whether `color` is what the surface mirrors at a hit, with the depth
    /// `remaining` left. It is black where the surface mirrors nothing or no
    /// depth is left. Else it is what the mirrored ray sees, from the point
    /// just over the surface and with one level of depth less, and black
    /// where that ray leaves the scene, taken as many times as the surface
    /// is reflective.
    pub open spec fn reflected_is<'a>(
        &self,
        world: World,
        infos: IntersectionInfos<'a>,
        remaining: u8,
        color: Color,
    ) -> bool
        decreases remaining, 0int,
    {
        let material = infos.object.material;
        if remaining < 1 || material.reflective == 0 {
            color == Color::spec_black()
        } else {
            exists|seen: Option<Color>|
                {
                    &&& self.colored(
                        world,
                        Ray { origin: infos.over_point, direction: infos.reflectv },
                        (remaining - 1) as u8,
                        seen,
                    )
                    &&& #[trigger] self.tones.scaled.ensures(
                        (spec_or_black(seen), material.reflective),
                        color,
                    )
                }
        }
    }

    /// Whether `color` is what comes through the surface at a hit, with the
    /// depth `remaining` left. It is black where the surface lets nothing
    /// through or no depth is left, and under total internal reflection:
    /// where the square of the sine of the ray that would pass is over one.
    /// Else it is what the bent ray sees, from the point just under the
    /// surface and with one level of depth less, and black where that ray
    /// leaves the scene, taken as many times as the surface is transparent.
    pub open spec fn refracted_is<'a>(
        &self,
        world: World,
        infos: IntersectionInfos<'a>,
        remaining: u8,
        color: Color,
    ) -> bool
        decreases remaining, 0int,
    {
        let material = infos.object.material;
        if remaining < 1 || material.transparency == 0 {
            color == Color::spec_black()
        } else {
            exists|cos_i: i64, sin2_t: i64|
                {
                    &&& self.hits.dot.ensures((infos.eyev, infos.normalv), cos_i)
                    &&& #[trigger] self.tones.sine.ensures((infos.n.0, infos.n.1, cos_i), sin2_t)
                    &&& if sin2_t > scalar::ONE {
                        color == Color::spec_black()
                    } else {
                        exists|cos_t: i64, direction: Vec3, seen: Option<Color>|
                            {
                                &&& self.tones.cosine.ensures((sin2_t,), cos_t)
                                &&& #[trigger] self.tones.bend.ensures(
                                    (infos.normalv, infos.eyev, infos.n.0, infos.n.1, cos_i, cos_t),
                                    direction,
                                )
                                &&& self.colored(
                                    world,
                                    Ray { origin: infos.under_point, direction },
                                    (remaining - 1) as u8,
                                    seen,
                                )
                                &&& #[trigger] self.tones.scaled.ensures(
                                    (spec_or_black(seen), material.transparency),
                                    color,
                                )
                            }
                    }
                }
        }
    }

    /// Whether `color` is the colour of a surface together with what it
    /// mirrors and what comes through it. Where the surface both mirrors
    /// and lets light through, the two are weighed by the share of light
    /// that the surface gives back at the hit; else the three are summed.
    pub open spec fn mixed<'a>(
        &self,
        infos: IntersectionInfos<'a>,
        surface: Color,
        reflected: Color,
        refracted: Color,
        color: Color,
    ) -> bool {
        let material = infos.object.material;
        if material.reflective > 0 && material.transparency > 0 {
            exists|reflectance: i64|
                {
                    &&& infos.schlick_is(
                        self.hits.dot,
                        self.tones.sine,
                        self.tones.cosine,
                        self.tones.share,
                        reflectance,
                    )
                    &&& #[trigger] self.tones.blend.ensures(
                        (surface, reflected, refracted, reflectance),
                        color,
                    )
                }
        } else {
            exists|both: Color|
                {
                    &&& #[trigger] self.tones.add.ensures((surface, reflected), both)
                    &&& self.tones.add.ensures((both, refracted), color)
                }
        }
    }

    /// Whether `color` is the colour at a hit, with the depth `remaining`
    /// left: the light that the lights of the world leave there, mixed with
    /// what the surface mirrors and what comes through it.
    pub open spec fn shaded<'a>(
        &self,
        world: World,
        infos: IntersectionInfos<'a>,
        remaining: u8,
        color: Color,
    ) -> bool
        decreases remaining, 1int,
    {
        exists|surface: Color, reflected: Color, refracted: Color|
            {
                &&& self.lit_by(world, world.spec_lights(), infos, surface)
                &&& self.reflected_is(world, infos, remaining, reflected)
                &&& self.refracted_is(world, infos, remaining, refracted)
                &&& #[trigger] self.mixed(infos, surface, reflected, refracted, color)
            }
    }

    /// Whether `color` is what a ray sees in the world, with the depth
    /// `remaining` left: nothing where no intersection of the ray lies
    /// before it, and else the colour at the first that does.
    pub open spec fn colored(&self, world: World, ray: Ray, remaining: u8, color: Option<Color>) -> bool
        decreases remaining, 2int,
    {
        exists|xs: Seq<Intersection>, hit: Option<int>|
            {
                &&& #[trigger] world.sees(ray, self.rays, xs, hit)
                &&& match hit {
                    Some(index) => color is Some && exists|infos: IntersectionInfos|
                        {
                            &&& #[trigger] infos.prepared(xs, index, ray, self.hits)
                            &&& self.shaded(world, infos, remaining, color.unwrap())
                        },
                    None => color is None,
                }
            }
    }

    /// The light that the lights of the world leave at a hit.
    pub fn surface_color<'a>(&self, world: &World, infos: &IntersectionInfos<'a>) -> (color: Color)
        requires
            self.ready(),
        ensures
            self.lit_by(*world, world.spec_lights(), *infos, color),
    {
        let lights: &Vec<Light> = world.lights();
        let mut color: Color = Color::black();
        let mut index: usize = 0;
        assert(lights@.take(0).len() == 0);
        while index < lights.len()
            invariant
                self.ready(),
                index <= lights@.len(),
                lights@ == world.spec_lights(),
                self.lit_by(*world, lights@.take(index as int), *infos, color),
            decreases lights@.len() - index,
        {
            let intensity: i64 = lights[index].intensity_at(
                infos.over_point,
                world,
                &self.rays,
                &self.sight,
            );
            let one: Color = infos.object.material().lighting(
                infos.object,
                &lights[index],
                infos.over_point,
                infos.eyev,
                infos.normalv,
                intensity,
                &self.lamps,
            );
            let sum: Color = (self.tones.add)(color, one);
            proof {
                let upto = lights@.take(index + 1);
                assert(upto.drop_last() == lights@.take(index as int));
                assert(upto.last() == lights@[index as int]);
                assert(self.tones.add.ensures((color, one), sum));
            }
            color = sum;
            index += 1;
        }
        assert(lights@.take(index as int) == lights@);
        color
    }

    /// What the surface mirrors at a hit, with the depth `remaining` left.
    pub fn reflected_color<'a>(
        &self,
        world: &'a World,
        infos: &IntersectionInfos<'a>,
        remaining: u8,
    ) -> (color: Color)
        requires
            self.ready(),
        ensures
            self.reflected_is(*world, *infos, remaining, color),
        decreases remaining, 0int,
    {
        let material: &Material = infos.object.material();
        let rays: SecondaryRays = secondary_rays(
            material.reflective(),
            material.transparency(),
            remaining,
        );
        match rays.reflect {
            None => Color::black(),
            Some(depth) => {
                let ray: Ray = Ray::new(infos.over_point, infos.reflectv);
                let seen: Option<Color> = self.color_at(world, &ray, depth);
                let color: Color = (self.tones.scaled)(or_black(seen), material.reflective());
                assert(self.tones.scaled.ensures(
                    (spec_or_black(seen), material.reflective),
                    color,
                ));
                color
            },
        }
    }

    /// What comes through the surface at a hit, with the depth `remaining`
    /// left.
    pub fn refracted_color<'a>(
        &self,
        world: &'a World,
        infos: &IntersectionInfos<'a>,
        remaining: u8,
    ) -> (color: Color)
        requires
            self.ready(),
        ensures
            self.refracted_is(*world, *infos, remaining, color),
        decreases remaining, 0int,
    {
        let material: &Material = infos.object.material();
        let rays: SecondaryRays = secondary_rays(
            material.reflective(),
            material.transparency(),
            remaining,
        );
        match rays.refract {
            None => Color::black(),
            Some(depth) => {
                let cos_i: i64 = (self.hits.dot)(infos.eyev, infos.normalv);
                let sin2_t: i64 = (self.tones.sine)(infos.n.0, infos.n.1, cos_i);
                if sin2_t > scalar::ONE {
                    assert(self.tones.sine.ensures((infos.n.0, infos.n.1, cos_i), sin2_t));
                    Color::black()
                } else {
                    let cos_t: i64 = (self.tones.cosine)(sin2_t);
                    let direction: Vec3 = (self.tones.bend)(
                        infos.normalv,
                        infos.eyev,
                        infos.n.0,
                        infos.n.1,
                        cos_i,
                        cos_t,
                    );
                    let ray: Ray = Ray::new(infos.under_point, direction);
                    let seen: Option<Color> = self.color_at(world, &ray, depth);
                    let color: Color = (self.tones.scaled)(or_black(seen), material.transparency());
                    assert(self.tones.bend.ensures(
                        (infos.normalv, infos.eyev, infos.n.0, infos.n.1, cos_i, cos_t),
                        direction,
                    ));
                    assert(self.tones.scaled.ensures(
                        (spec_or_black(seen), material.transparency),
                        color,
                    ));
                    assert(self.tones.sine.ensures((infos.n.0, infos.n.1, cos_i), sin2_t));
                    color
                }
            },
        }
    }

    /// The colour at a hit, with the depth `remaining` left.
    pub fn shade_hit<'a>(
        &self,
        world: &'a World,
        infos: &IntersectionInfos<'a>,
        remaining: u8,
    ) -> (color: Color)
        requires
            self.ready(),
        ensures
            self.shaded(*world, *infos, remaining, color),
        decreases remaining, 1int,
    {
        let surface: Color = self.surface_color(world, infos);
        let reflected: Color = self.reflected_color(world, infos, remaining);
        let refracted: Color = self.refracted_color(world, infos, remaining);
        let material: &Material = infos.object.material();
        let rays: SecondaryRays = secondary_rays(
            material.reflective(),
            material.transparency(),
            remaining,
        );
        let color: Color = if rays.fresnel {
            let reflectance: i64 = infos.schlick(
                &self.hits.dot,
                &self.tones.sine,
                &self.tones.cosine,
                &self.tones.share,
            );
            let color: Color = (self.tones.blend)(surface, reflected, refracted, reflectance);
            assert(self.tones.blend.ensures((surface, reflected, refracted, reflectance), color));
            color
        } else {
            let both: Color = (self.tones.add)(surface, reflected);
            let color: Color = (self.tones.add)(both, refracted);
            assert(self.tones.add.ensures((surface, reflected), both));
            color
        };
        assert(self.mixed(*infos, surface, reflected, refracted, color));
        color
    }

    /// What a ray sees in the world, or `None` where the ray leaves the
    /// scene. `remaining` bounds the depth of reflection and refraction.
    pub fn color_at<'a>(&self, world: &'a World, ray: &Ray, remaining: u8) -> (color: Option<Color>)
        requires
            self.ready(),
        ensures
            self.colored(*world, *ray, remaining, color),
        decreases remaining, 2int,
    {
        let xs: Intersections<'a> = world.intersects(ray, &self.rays);
        match xs.hit_index(StandardHit {  }) {
            Some(index) => {
                let infos: IntersectionInfos<'a> = IntersectionInfos::new(
                    &xs,
                    index,
                    ray,
                    &self.hits,
                );
                let color: Color = self.shade_hit(world, &infos, remaining);
                assert(infos.prepared(xs@, index as int, *ray, self.hits));
                assert(world.sees(*ray, self.rays, xs@, Some(index as int)));
                Some(color)
            },
            None => {
                assert(world.sees(*ray, self.rays, xs@, None));
                None
            },
        }
    }
}

impl World {
    /// The colour that a ray sees, or `None` where the ray leaves the
    /// scene. `remaining` bounds the depth of reflection and refraction:
    /// with none left, a hit is still shaded by the lights, and no ray is
    /// sent on from it.
    pub fn color_at<
        'a,
        RI: Fn(&Matrix, Vec3) -> Vec3,
        RT: Fn(&Matrix, Vec3) -> Vec3,
        RF: Fn(&Shape, &Ray) -> Facts,
        RS: Fn(&BoundingBox, &Ray) -> (Slab, Slab, Slab),
        HA: Fn(&Ray, i64) -> Vec3,
        HI: Fn(&Matrix, Vec3) -> Vec3,
        HC: Fn(&Shape, Vec3, i64, i64) -> Curve,
        HW: Fn(&Matrix, Vec3) -> Vec3,
        HD: Fn(Vec3, Vec3) -> i64,
        HO: Fn(Vec3, Vec3) -> (Vec3, Vec3),
        HR: Fn(Vec3, Vec3) -> Vec3,
        LI: Fn(&Matrix, Vec3) -> Vec3,
        LK: Fn(Vec3) -> PatternPoint,
        LX: Fn(Color, Color, i64) -> Color,
        LT: Fn(Color, Color) -> Color,
        LS: Fn(Color, i64) -> Color,
        LW: Fn(Vec3, Vec3) -> Vec3,
        LD: Fn(Vec3, Vec3) -> i64,
        LR: Fn(Vec3, Vec3) -> Vec3,
        LP: Fn(i64, i64) -> i64,
        LA: Fn(Color, Color) -> Color,
        LE: Fn(Color, i64, usize) -> Color,
        SA: Fn(Vec3, Vec3) -> (i64, Ray),
        SS: Fn(&AreaLight, usize, usize, i64, i64) -> Vec3,
        SR: Fn(usize, usize) -> i64,
        SD: Fn() -> i64,
        TA: Fn(Color, Color) -> Color,
        TS: Fn(Color, i64) -> Color,
        TB: Fn(Color, Color, Color, i64) -> Color,
        TN: Fn(i64, i64, i64) -> i64,
        TC: Fn(i64) -> i64,
        TH: Fn(i64, i64, i64) -> i64,
        TT: Fn(Vec3, Vec3, i64, i64, i64, i64) -> Vec3,
    >(
        &'a self,
        ray: &Ray,
        remaining: u8,
        with: &Tracing<RI, RT, RF, RS, HA, HI, HC, HW, HD, HO, HR, LI, LK, LX, LT, LS, LW, LD, LR, LP, LA, LE, SA, SS, SR, SD, TA, TS, TB, TN, TC, TH, TT>,
    ) -> (color: Option<Color>)
        requires
            with.ready(),
        ensures
            with.colored(*self, *ray, remaining, color),
    {
        with.color_at(self, ray, remaining)
    }
}

/// A surface that mirrors nothing and lets nothing through sends no ray on,
/// however much depth is left: the colour at a hit is the light that the
/// lights leave there, summed with black twice.
pub proof fn lemma_dull_surface_sends_no_ray<
    'a,
    RI: Fn(&Matrix, Vec3) -> Vec3,
    RT: Fn(&Matrix, Vec3) -> Vec3,
    RF: Fn(&Shape, &Ray) -> Facts,
    RS: Fn(&BoundingBox, &Ray) -> (Slab, Slab, Slab),
    HA: Fn(&Ray, i64) -> Vec3,
    HI: Fn(&Matrix, Vec3) -> Vec3,
    HC: Fn(&Shape, Vec3, i64, i64) -> Curve,
    HW: Fn(&Matrix, Vec3) -> Vec3,
    HD: Fn(Vec3, Vec3) -> i64,
    HO: Fn(Vec3, Vec3) -> (Vec3, Vec3),
    HR: Fn(Vec3, Vec3) -> Vec3,
    LI: Fn(&Matrix, Vec3) -> Vec3,
    LK: Fn(Vec3) -> PatternPoint,
    LX: Fn(Color, Color, i64) -> Color,
    LT: Fn(Color, Color) -> Color,
    LS: Fn(Color, i64) -> Color,
    LW: Fn(Vec3, Vec3) -> Vec3,
    LD: Fn(Vec3, Vec3) -> i64,
    LR: Fn(Vec3, Vec3) -> Vec3,
    LP: Fn(i64, i64) -> i64,
    LA: Fn(Color, Color) -> Color,
    LE: Fn(Color, i64, usize) -> Color,
    SA: Fn(Vec3, Vec3) -> (i64, Ray),
    SS: Fn(&AreaLight, usize, usize, i64, i64) -> Vec3,
    SR: Fn(usize, usize) -> i64,
    SD: Fn() -> i64,
    TA: Fn(Color, Color) -> Color,
    TS: Fn(Color, i64) -> Color,
    TB: Fn(Color, Color, Color, i64) -> Color,
    TN: Fn(i64, i64, i64) -> i64,
    TC: Fn(i64) -> i64,
    TH: Fn(i64, i64, i64) -> i64,
    TT: Fn(Vec3, Vec3, i64, i64, i64, i64) -> Vec3,
>(
    with: Tracing<RI, RT, RF, RS, HA, HI, HC, HW, HD, HO, HR, LI, LK, LX, LT, LS, LW, LD, LR, LP, LA, LE, SA, SS, SR, SD, TA, TS, TB, TN, TC, TH, TT>,
    world: World,
    infos: IntersectionInfos<'a>,
    remaining: u8,
    color: Color,
)
    requires
        infos.object.material.reflective == 0,
        infos.object.material.transparency == 0,
        with.shaded(world, infos, remaining, color),
    ensures
        exists|surface: Color, both: Color|
            {
                &&& with.lit_by(world, world.spec_lights(), infos, surface)
                &&& #[trigger] with.tones.add.ensures((surface, Color::spec_black()), both)
                &&& with.tones.add.ensures((both, Color::spec_black()), color)
            },
{
    let (surface, reflected, refracted) = choose|
        surface: Color,
        reflected: Color,
        refracted: Color,
    |
        {
            &&& with.lit_by(world, world.spec_lights(), infos, surface)
            &&& with.reflected_is(world, infos, remaining, reflected)
            &&& with.refracted_is(world, infos, remaining, refracted)
            &&& #[trigger] with.mixed(infos, surface, reflected, refracted, color)
        };
    let both = choose|both: Color|
        {
            &&& #[trigger] with.tones.add.ensures((surface, reflected), both)
            &&& with.tones.add.ensures((both, refracted), color)
        };
    assert(with.tones.add.ensures((surface, Color::spec_black()), both));
}

/// Under total internal reflection nothing comes through a surface: where
/// the square of the sine of the ray that would pass is over one, whatever
/// the arithmetic gives for it, what comes through is black.
pub proof fn lemma_total_internal_reflection_lets_nothing_through<
    'a,
    RI: Fn(&Matrix, Vec3) -> Vec3,
    RT: Fn(&Matrix, Vec3) -> Vec3,
    RF: Fn(&Shape, &Ray) -> Facts,
    RS: Fn(&BoundingBox, &Ray) -> (Slab, Slab, Slab),
    HA: Fn(&Ray, i64) -> Vec3,
    HI: Fn(&Matrix, Vec3) -> Vec3,
    HC: Fn(&Shape, Vec3, i64, i64) -> Curve,
    HW: Fn(&Matrix, Vec3) -> Vec3,
    HD: Fn(Vec3, Vec3) -> i64,
    HO: Fn(Vec3, Vec3) -> (Vec3, Vec3),
    HR: Fn(Vec3, Vec3) -> Vec3,
    LI: Fn(&Matrix, Vec3) -> Vec3,
    LK: Fn(Vec3) -> PatternPoint,
    LX: Fn(Color, Color, i64) -> Color,
    LT: Fn(Color, Color) -> Color,
    LS: Fn(Color, i64) -> Color,
    LW: Fn(Vec3, Vec3) -> Vec3,
    LD: Fn(Vec3, Vec3) -> i64,
    LR: Fn(Vec3, Vec3) -> Vec3,
    LP: Fn(i64, i64) -> i64,
    LA: Fn(Color, Color) -> Color,
    LE: Fn(Color, i64, usize) -> Color,
    SA: Fn(Vec3, Vec3) -> (i64, Ray),
    SS: Fn(&AreaLight, usize, usize, i64, i64) -> Vec3,
    SR: Fn(usize, usize) -> i64,
    SD: Fn() -> i64,
    TA: Fn(Color, Color) -> Color,
    TS: Fn(Color, i64) -> Color,
    TB: Fn(Color, Color, Color, i64) -> Color,
    TN: Fn(i64, i64, i64) -> i64,
    TC: Fn(i64) -> i64,
    TH: Fn(i64, i64, i64) -> i64,
    TT: Fn(Vec3, Vec3, i64, i64, i64, i64) -> Vec3,
>(
    with: Tracing<RI, RT, RF, RS, HA, HI, HC, HW, HD, HO, HR, LI, LK, LX, LT, LS, LW, LD, LR, LP, LA, LE, SA, SS, SR, SD, TA, TS, TB, TN, TC, TH, TT>,
    world: World,
    infos: IntersectionInfos<'a>,
    remaining: u8,
    color: Color,
)
    requires
        with.refracted_is(world, infos, remaining, color),
        forall|cos_i: i64, sin2_t: i64|
            with.hits.dot.ensures((infos.eyev, infos.normalv), cos_i) && #[trigger] with.tones.sine.ensures(
                (infos.n.0, infos.n.1, cos_i),
                sin2_t,
            ) ==> sin2_t > scalar::ONE,
    ensures
        color == Color::spec_black(),
{
}

/// With no depth left nothing is mirrored and nothing comes through: the
/// colour at a hit is the light that the lights leave there, summed with
/// black twice, or blended with black twice where the surface both mirrors
/// and lets light through.
pub proof fn lemma_no_depth_sends_no_ray<
    'a,
    RI: Fn(&Matrix, Vec3) -> Vec3,
    RT: Fn(&Matrix, Vec3) -> Vec3,
    RF: Fn(&Shape, &Ray) -> Facts,
    RS: Fn(&BoundingBox, &Ray) -> (Slab, Slab, Slab),
    HA: Fn(&Ray, i64) -> Vec3,
    HI: Fn(&Matrix, Vec3) -> Vec3,
    HC: Fn(&Shape, Vec3, i64, i64) -> Curve,
    HW: Fn(&Matrix, Vec3) -> Vec3,
    HD: Fn(Vec3, Vec3) -> i64,
    HO: Fn(Vec3, Vec3) -> (Vec3, Vec3),
    HR: Fn(Vec3, Vec3) -> Vec3,
    LI: Fn(&Matrix, Vec3) -> Vec3,
    LK: Fn(Vec3) -> PatternPoint,
    LX: Fn(Color, Color, i64) -> Color,
    LT: Fn(Color, Color) -> Color,
    LS: Fn(Color, i64) -> Color,
    LW: Fn(Vec3, Vec3) -> Vec3,
    LD: Fn(Vec3, Vec3) -> i64,
    LR: Fn(Vec3, Vec3) -> Vec3,
    LP: Fn(i64, i64) -> i64,
    LA: Fn(Color, Color) -> Color,
    LE: Fn(Color, i64, usize) -> Color,
    SA: Fn(Vec3, Vec3) -> (i64, Ray),
    SS: Fn(&AreaLight, usize, usize, i64, i64) -> Vec3,
    SR: Fn(usize, usize) -> i64,
    SD: Fn() -> i64,
    TA: Fn(Color, Color) -> Color,
    TS: Fn(Color, i64) -> Color,
    TB: Fn(Color, Color, Color, i64) -> Color,
    TN: Fn(i64, i64, i64) -> i64,
    TC: Fn(i64) -> i64,
    TH: Fn(i64, i64, i64) -> i64,
    TT: Fn(Vec3, Vec3, i64, i64, i64, i64) -> Vec3,
>(
    with: Tracing<RI, RT, RF, RS, HA, HI, HC, HW, HD, HO, HR, LI, LK, LX, LT, LS, LW, LD, LR, LP, LA, LE, SA, SS, SR, SD, TA, TS, TB, TN, TC, TH, TT>,
    world: World,
    infos: IntersectionInfos<'a>,
    color: Color,
)
    requires
        with.shaded(world, infos, 0, color),
    ensures
        exists|surface: Color|
            {
                &&& with.lit_by(world, world.spec_lights(), infos, surface)
                &&& #[trigger] with.mixed(
                    infos,
                    surface,
                    Color::spec_black(),
                    Color::spec_black(),
                    color,
                )
            },
{
    let (surface, reflected, refracted) = choose|
        surface: Color,
        reflected: Color,
        refracted: Color,
    |
        {
            &&& with.lit_by(world, world.spec_lights(), infos, surface)
            &&& with.reflected_is(world, infos, 0, reflected)
            &&& with.refracted_is(world, infos, 0, refracted)
            &&& #[trigger] with.mixed(infos, surface, reflected, refracted, color)
        };
    assert(with.mixed(infos, surface, Color::spec_black(), Color::spec_black(), color));
}

} // verus!
