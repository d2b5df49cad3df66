use vstd::prelude::*;
use crate::color::Color;
use crate::pattern::{Pattern, PatternObject, PlainPattern};
use crate::scalar;

verus! {

/// The rank of 0.1, the share of ambient light of a new material.
pub const DEFAULT_AMBIENT: i64 = 0x3FB9_9999_9999_999A;

/// The rank of 0.9, the share of diffuse and of specular light of a new
/// material.
pub const DEFAULT_DIFFUSE: i64 = 0x3FEC_CCCC_CCCC_CCCD;

/// The rank of 200, the shininess of a new material.
pub const DEFAULT_SHININESS: i64 = 0x4069_0000_0000_0000;

/// What a surface is made of: its pattern, the shares of ambient, diffuse
/// and specular light that it gives back, its shininess, how much it
/// mirrors, how much light it lets through, and its refractive index.
#[derive(Debug, Clone, Copy, PartialEq)]
pub struct Material {
    pub pattern: PatternObject,
    pub ambient: i64,
    pub diffuse: i64,
    pub specular: i64,
    pub shininess: i64,
    pub reflective: i64,
    pub transparency: i64,
    pub refractive_index: i64,
}

impl Material {
    /// A white material that neither mirrors nor lets light through.
    pub open spec fn is_default(self) -> bool {
        &&& self.pattern.pattern == Pattern::Plain(PlainPattern { c: Color::white() })
        &&& self.pattern.transform.is_identity()
        &&& self.pattern.transform.consistent()
        &&& self.ambient == DEFAULT_AMBIENT
        &&& self.diffuse == DEFAULT_DIFFUSE
        &&& self.specular == DEFAULT_DIFFUSE
        &&& self.shininess == DEFAULT_SHININESS
        &&& self.reflective == 0
        &&& self.transparency == 0
        &&& self.refractive_index == scalar::ONE
    }

    /// Whether two materials are the same in every part.
    pub fn same(&self, other: &Material) -> (same: bool)
        ensures
            same == (*self == *other),
    {
        self.pattern.same(&other.pattern) && self.ambient == other.ambient && self.diffuse
            == other.diffuse && self.specular == other.specular && self.shininess
            == other.shininess && self.reflective == other.reflective && self.transparency
            == other.transparency && self.refractive_index == other.refractive_index
    }

    pub fn new() -> (material: Self)
        ensures
            material.is_default(),
    {
        Self::default()
    }

    pub fn with_pattern(self, pattern: PatternObject) -> (material: Self)
        ensures
            material == (Material { pattern, ..self }),
    {
        Material { pattern, ..self }
    }

    pub fn with_ambient(self, ambient: i64) -> (material: Self)
        ensures
            material == (Material { ambient, ..self }),
    {
        Material { ambient, ..self }
    }

    pub fn with_diffuse(self, diffuse: i64) -> (material: Self)
        ensures
            material == (Material { diffuse, ..self }),
    {
        Material { diffuse, ..self }
    }

    pub fn with_specular(self, specular: i64) -> (material: Self)
        ensures
            material == (Material { specular, ..self }),
    {
        Material { specular, ..self }
    }

    pub fn with_shininess(self, shininess: i64) -> (material: Self)
        ensures
            material == (Material { shininess, ..self }),
    {
        Material { shininess, ..self }
    }

    pub fn with_reflective(self, reflective: i64) -> (material: Self)
        ensures
            material == (Material { reflective, ..self }),
    {
        Material { reflective, ..self }
    }

    pub fn with_transparency(self, transparency: i64) -> (material: Self)
        ensures
            material == (Material { transparency, ..self }),
    {
        Material { transparency, ..self }
    }

    pub fn with_refractive_index(self, refractive_index: i64) -> (material: Self)
        ensures
            material == (Material { refractive_index, ..self }),
    {
        Material { refractive_index, ..self }
    }

    pub fn set_pattern(&mut self, pattern: PatternObject) -> (material: &mut Self)
        ensures
            *material == (Material { pattern, ..*old(self) }),
            *final(self) == *final(material),
    {
        self.pattern = pattern;
        self
    }

    pub fn set_ambient(&mut self, ambient: i64) -> (material: &mut Self)
        ensures
            *material == (Material { ambient, ..*old(self) }),
            *final(self) == *final(material),
    {
        self.ambient = ambient;
        self
    }

    pub fn set_diffuse(&mut self, diffuse: i64) -> (material: &mut Self)
        ensures
            *material == (Material { diffuse, ..*old(self) }),
            *final(self) == *final(material),
    {
        self.diffuse = diffuse;
        self
    }

    pub fn set_specular(&mut self, specular: i64) -> (material: &mut Self)
        ensures
            *material == (Material { specular, ..*old(self) }),
            *final(self) == *final(material),
    {
        self.specular = specular;
        self
    }

    pub fn set_shininess(&mut self, shininess: i64) -> (material: &mut Self)
        ensures
            *material == (Material { shininess, ..*old(self) }),
            *final(self) == *final(material),
    {
        self.shininess = shininess;
        self
    }

    pub fn set_reflective(&mut self, reflective: i64) -> (material: &mut Self)
        ensures
            *material == (Material { reflective, ..*old(self) }),
            *final(self) == *final(material),
    {
        self.reflective = reflective;
        self
    }

    pub fn set_transparency(&mut self, transparency: i64) -> (material: &mut Self)
        ensures
            *material == (Material { transparency, ..*old(self) }),
            *final(self) == *final(material),
    {
        self.transparency = transparency;
        self
    }

    pub fn set_refractive_index(&mut self, refractive_index: i64) -> (material: &mut Self)
        ensures
            *material == (Material { refractive_index, ..*old(self) }),
            *final(self) == *final(material),
    {
        self.refractive_index = refractive_index;
        self
    }

    pub fn pattern(&self) -> (pattern: &PatternObject)
        ensures
            *pattern == self.pattern,
    {
        &self.pattern
    }

    pub fn ambient(&self) -> (ambient: i64)
        ensures
            ambient == self.ambient,
    {
        self.ambient
    }

    pub fn diffuse(&self) -> (diffuse: i64)
        ensures
            diffuse == self.diffuse,
    {
        self.diffuse
    }

    pub fn specular(&self) -> (specular: i64)
        ensures
            specular == self.specular,
    {
        self.specular
    }

    pub fn shininess(&self) -> (shininess: i64)
        ensures
            shininess == self.shininess,
    {
        self.shininess
    }

    pub fn reflective(&self) -> (reflective: i64)
        ensures
            reflective == self.reflective,
    {
        self.reflective
    }

    pub fn transparency(&self) -> (transparency: i64)
        ensures
            transparency == self.transparency,
    {
        self.transparency
    }

    pub fn refractive_index(&self) -> (refractive_index: i64)
        ensures
            refractive_index == self.refractive_index,
    {
        self.refractive_index
    }
}

impl Default for Material {
    fn default() -> (material: Self)
        ensures
            material.is_default(),
    {
        Self {
            pattern: PatternObject::new(Pattern::Plain(PlainPattern::new(Color::white()))),
            ambient: DEFAULT_AMBIENT,
            diffuse: DEFAULT_DIFFUSE,
            specular: DEFAULT_DIFFUSE,
            shininess: DEFAULT_SHININESS,
            reflective: 0,
            transparency: 0,
            refractive_index: scalar::ONE,
        }
    }
}

} // verus!
