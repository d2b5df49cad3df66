//! The light that a lamp leaves on a surface, by the model of Phong.

use vstd::prelude::*;
use crate::bounds::Vec3;
use crate::color::Color;
use crate::lights::{Light, LightSource};
use crate::material::Material;
use crate::matrix::Matrix;
use crate::object::Object;
use crate::pattern::PatternPoint;

verus! {

/// The arithmetic of the light on a surface, which is the caller's: `image`
/// gives the point that a matrix makes of a point; `locate` a point of
/// pattern space as the patterns read it; `mix` the blend of two colours at
/// an x; `tint` the product of two colours; `scaled` a colour taken a number
/// of times; `toward` the vector of length 1 from a point towards another;
/// `dot` the product of two vectors; `reflect` a direction mirrored about a
/// normal; `power` a number raised to a power; `add` the sum of two colours;
/// and `share` the part of a sum of colours that reaches the surface, from
/// the sum, the share of the light that does, and the number of the colours.
pub struct Phong<I, K, X, T, C, W, D, R, P, U, E> {
    pub image: I,
    pub locate: K,
    pub mix: X,
    pub tint: T,
    pub scaled: C,
    pub toward: W,
    pub dot: D,
    pub reflect: R,
    pub power: P,
    pub add: U,
    pub share: E,
}

impl<
    I: Fn(&Matrix, Vec3) -> Vec3,
    K: Fn(Vec3) -> PatternPoint,
    X: Fn(Color, Color, i64) -> Color,
    T: Fn(Color, Color) -> Color,
    C: Fn(Color, i64) -> Color,
    W: Fn(Vec3, Vec3) -> Vec3,
    D: Fn(Vec3, Vec3) -> i64,
    R: Fn(Vec3, Vec3) -> Vec3,
    P: Fn(i64, i64) -> i64,
    U: Fn(Color, Color) -> Color,
    E: Fn(Color, i64, usize) -> Color,
> Phong<I, K, X, T, C, W, D, R, P, U, E> {
    /// Every part of the arithmetic can be asked anything.
    pub open spec fn ready(&self) -> bool {
        &&& forall|m: &Matrix, p: Vec3| #[trigger] self.image.requires((m, p))
        &&& forall|p: Vec3| #[trigger] self.locate.requires((p,))
        &&& forall|a: Color, b: Color, x: i64| #[trigger] self.mix.requires((a, b, x))
        &&& forall|a: Color, b: Color| #[trigger] self.tint.requires((a, b))
        &&& forall|a: Color, times: i64| #[trigger] self.scaled.requires((a, times))
        &&& forall|a: Vec3, b: Vec3| #[trigger] self.toward.requires((a, b))
        &&& forall|a: Vec3, b: Vec3| #[trigger] self.dot.requires((a, b))
        &&& forall|d: Vec3, n: Vec3| #[trigger] self.reflect.requires((d, n))
        &&& forall|a: i64, b: i64| #[trigger] self.power.requires((a, b))
        &&& forall|a: Color, b: Color| #[trigger] self.add.requires((a, b))
        &&& forall|a: Color, b: i64, n: usize| #[trigger] self.share.requires((a, b, n))
    }

    /// Whether `sum` is `before` with the diffuse and the specular light
    /// that comes to a point from the direction `lightv`, which makes the
    /// cosine `l_dot_n` with the normal. From behind the surface, and along
    /// it, no light comes. Else the diffuse light is the colour of the
    /// surface under the light, by the diffuse share of the material and
    /// the cosine. The specular light is added where the mirrored light
    /// comes towards the eye: the colour of the light, by the specular share
    /// of the material and the cosine of the angle between the mirrored
    /// light and the eye, raised to the shininess.
    pub open spec fn glows(
        &self,
        material: Material,
        effective: Color,
        light_color: Color,
        lightv: Vec3,
        l_dot_n: i64,
        eyev: Vec3,
        normalv: Vec3,
        before: Color,
        sum: Color,
    ) -> bool {
        if l_dot_n > 0 {
            exists|part: Color, diffuse: Color, lit: Color, reflectv: Vec3, r_dot_e: i64|
                #![trigger
                    self.scaled.ensures((part, l_dot_n), diffuse),
                    self.add.ensures((before, diffuse), lit),
                    self.dot.ensures((reflectv, eyev), r_dot_e)
                ]
                {
                    &&& self.scaled.ensures((effective, material.diffuse), part)
                    &&& self.scaled.ensures((part, l_dot_n), diffuse)
                    &&& self.add.ensures((before, diffuse), lit)
                    &&& self.reflect.ensures((lightv.negated(), normalv), reflectv)
                    &&& self.dot.ensures((reflectv, eyev), r_dot_e)
                    &&& if r_dot_e > 0 {
                        exists|shine: Color, factor: i64, specular: Color|
                            {
                                &&& self.scaled.ensures((light_color, material.specular), shine)
                                &&& self.power.ensures((r_dot_e, material.shininess), factor)
                                &&& #[trigger] self.scaled.ensures((shine, factor), specular)
                                &&& self.add.ensures((lit, specular), sum)
                            }
                    } else {
                        sum == lit
                    }
                }
        } else {
            sum == before
        }
    }

    /// Whether `sum` is the diffuse and the specular light that comes to a
    /// point from the given positions of a light: black from none, and else
    /// what comes from each, in their order, added to what comes from those
    /// before.
    pub open spec fn glow(
        &self,
        material: Material,
        effective: Color,
        light_color: Color,
        positions: Seq<Vec3>,
        point: Vec3,
        eyev: Vec3,
        normalv: Vec3,
        sum: Color,
    ) -> bool
        decreases positions.len(),
    {
        if positions.len() == 0 {
            sum == Color::spec_black()
        } else {
            exists|before: Color, lightv: Vec3, l_dot_n: i64|
                {
                    &&& self.glow(
                        material,
                        effective,
                        light_color,
                        positions.drop_last(),
                        point,
                        eyev,
                        normalv,
                        before,
                    )
                    &&& self.toward.ensures((point, positions.last()), lightv)
                    &&& self.dot.ensures((lightv, normalv), l_dot_n)
                    &&& #[trigger] self.glows(
                        material,
                        effective,
                        light_color,
                        lightv,
                        l_dot_n,
                        eyev,
                        normalv,
                        before,
                        sum,
                    )
                }
        }
    }

    /// Whether `color` is the ambient light together with the part of the
    /// diffuse and specular light that reaches the surface. A light without
    /// a position leaves the ambient light alone.
    pub open spec fn dimmed(
        &self,
        ambient: Color,
        sum: Color,
        intensity: i64,
        positions: nat,
        color: Color,
    ) -> bool {
        if positions == 0 {
            color == ambient
        } else {
            exists|reaching: Color|
                {
                    &&& #[trigger] self.share.ensures((sum, intensity, positions as usize), reaching)
                    &&& self.add.ensures((ambient, reaching), color)
                }
        }
    }

    /// Whether `color` is the light that a lamp leaves on a point of an
    /// object of the given material, seen from the eye, where the surface
    /// has the given normal and the share `intensity` of the lamp reaches
    /// the point. The colour of the surface under the light is the colour
    /// of its pattern at the point, tinted by the light. The ambient light
    /// is that colour by the ambient share of the material, whatever
    /// reaches the point; the diffuse and the specular light come from each
    /// position of the lamp.
    pub open spec fn lights(
        &self,
        material: Material,
        object: Object,
        light: Light,
        point: Vec3,
        eyev: Vec3,
        normalv: Vec3,
        intensity: i64,
        color: Color,
    ) -> bool {
        exists|paint: Color, effective: Color, ambient: Color, sum: Color|
            #![trigger
                self.tint.ensures((paint, light.spec_intensity()), effective),
                self.dimmed(ambient, sum, intensity, light.spec_positions().len(), color)
            ]
            {
                &&& material.pattern.painted(
                    &object.transform.inverse_matrix,
                    point,
                    self.image,
                    self.locate,
                    self.mix,
                    paint,
                )
                &&& self.tint.ensures((paint, light.spec_intensity()), effective)
                &&& self.scaled.ensures((effective, material.ambient), ambient)
                &&& self.glow(
                    material,
                    effective,
                    light.spec_intensity(),
                    light.spec_positions(),
                    point,
                    eyev,
                    normalv,
                    sum,
                )
                &&& self.dimmed(ambient, sum, intensity, light.spec_positions().len(), color)
            }
    }

    /// Adds to `before` the diffuse and the specular light that comes to a
    /// point from one direction.
    fn glow_from(
        &self,
        material: &Material,
        effective: Color,
        light_color: Color,
        lightv: Vec3,
        l_dot_n: i64,
        eyev: Vec3,
        normalv: Vec3,
        before: Color,
    ) -> (sum: Color)
        requires
            self.ready(),
        ensures
            self.glows(
                *material,
                effective,
                light_color,
                lightv,
                l_dot_n,
                eyev,
                normalv,
                before,
                sum,
            ),
    {
        if l_dot_n > 0 {
            let part: Color = (self.scaled)(effective, material.diffuse());
            let diffuse: Color = (self.scaled)(part, l_dot_n);
            let lit: Color = (self.add)(before, diffuse);
            let reflectv: Vec3 = (self.reflect)(lightv.negated(), normalv);
            let r_dot_e: i64 = (self.dot)(reflectv, eyev);
            if r_dot_e > 0 {
                let shine: Color = (self.scaled)(light_color, material.specular());
                let factor: i64 = (self.power)(r_dot_e, material.shininess());
                let specular: Color = (self.scaled)(shine, factor);
                let sum: Color = (self.add)(lit, specular);
                assert(self.scaled.ensures((shine, factor), specular));
                assert(self.scaled.ensures((part, l_dot_n), diffuse));
                assert(self.add.ensures((before, diffuse), lit));
                assert(self.dot.ensures((reflectv, eyev), r_dot_e));
                sum
            } else {
                assert(self.scaled.ensures((part, l_dot_n), diffuse));
                assert(self.add.ensures((before, diffuse), lit));
                assert(self.dot.ensures((reflectv, eyev), r_dot_e));
                lit
            }
        } else {
            before
        }
    }
}

impl Material {
    /// The light that a lamp leaves on a point of an object of this
    /// material, seen from the eye, where the surface has the given normal
    /// and the share `intensity` of the lamp reaches the point.
    pub fn lighting<
        I: Fn(&Matrix, Vec3) -> Vec3,
        K: Fn(Vec3) -> PatternPoint,
        X: Fn(Color, Color, i64) -> Color,
        T: Fn(Color, Color) -> Color,
        C: Fn(Color, i64) -> Color,
        W: Fn(Vec3, Vec3) -> Vec3,
        D: Fn(Vec3, Vec3) -> i64,
        R: Fn(Vec3, Vec3) -> Vec3,
        P: Fn(i64, i64) -> i64,
        U: Fn(Color, Color) -> Color,
        E: Fn(Color, i64, usize) -> Color,
    >(
        &self,
        object: &Object,
        light: &Light,
        point: Vec3,
        eyev: Vec3,
        normalv: Vec3,
        intensity: i64,
        with: &Phong<I, K, X, T, C, W, D, R, P, U, E>,
    ) -> (color: Color)
        requires
            with.ready(),
        ensures
            with.lights(*self, *object, *light, point, eyev, normalv, intensity, color),
    {
        let light_color: Color = light.intensity();
        let paint: Color = self.pattern().color_at_object(
            object.inverse_transform(),
            point,
            &with.image,
            &with.locate,
            &with.mix,
        );
        let effective: Color = (with.tint)(paint, light_color);
        let ambient: Color = (with.scaled)(effective, self.ambient());
        let positions: &[Vec3] = light.positions();
        let mut sum: Color = Color::black();
        let mut index: usize = 0;
        assert(positions@.take(0).len() == 0);
        while index < positions.len()
            invariant
                with.ready(),
                index <= positions@.len(),
                with.glow(
                    *self,
                    effective,
                    light_color,
                    positions@.take(index as int),
                    point,
                    eyev,
                    normalv,
                    sum,
                ),
            decreases positions@.len() - index,
        {
            let lightv: Vec3 = (with.toward)(point, positions[index]);
            let l_dot_n: i64 = (with.dot)(lightv, normalv);
            let next: Color = with.glow_from(
                self,
                effective,
                light_color,
                lightv,
                l_dot_n,
                eyev,
                normalv,
                sum,
            );
            proof {
                let upto = positions@.take(index + 1);
                assert(upto.drop_last() == positions@.take(index as int));
                assert(upto.last() == positions@[index as int]);
            }
            sum = next;
            index += 1;
        }
        assert(positions@.take(index as int) == positions@);
        let color: Color = if positions.len() == 0 {
            ambient
        } else {
            let reaching: Color = (with.share)(sum, intensity, positions.len());
            let color: Color = (with.add)(ambient, reaching);
            assert(with.share.ensures((sum, intensity, positions@.len() as usize), reaching));
            color
        };
        assert(with.dimmed(ambient, sum, intensity, positions@.len(), color));
        assert(with.tint.ensures((paint, light.spec_intensity()), effective));
        color
    }
}

} // verus!
