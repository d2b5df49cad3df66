//! Procedural colourings of pattern space.

use vstd::prelude::*;
use crate::bounds::Vec3;
use crate::color::Color;
use crate::matrix::Matrix;
use crate::transformations::Transform;

verus! {

/// A point of pattern space as the patterns read it: the point itself, the
/// whole numbers at or below its three coordinates, and the whole number at
/// or below its distance from the y axis. The whole numbers are integers,
/// not ranks; where one is too large for an `i64`, any even number stands
/// for it, since every binary64 number of that size is even.
#[derive(Clone, Copy, Debug, PartialEq, Eq, Structural)]
pub struct PatternPoint {
    pub point: Vec3,
    pub floor_x: i64,
    pub floor_y: i64,
    pub floor_z: i64,
    pub floor_radius: i64,
}

/// What a pattern puts on a point: one colour, or a blend of two that runs
/// from the first to the second as x runs from a whole number to the next.
#[derive(Clone, Copy, Debug, PartialEq, Eq, Structural)]
pub enum Paint {
    Solid(Color),
    Blend(Color, Color),
}

pub open spec fn is_even(n: int) -> bool {
    n % 2 == 0
}

/// Whether a whole number is even.
pub fn even(n: i64) -> (r: bool)
    ensures
        r == is_even(n as int),
{
    assert((n & 1 == 0) == (n % 2 == 0)) by (bit_vector);
    n & 1 == 0
}

/// A colouring of pattern space.
pub trait PatternFunc {
    spec fn spec_color_at(&self, at: PatternPoint) -> Paint;

    fn color_at(&self, at: &PatternPoint) -> (paint: Paint)
        ensures
            paint == self.spec_color_at(*at),
    ;
}

/// One colour everywhere.
#[derive(Clone, Copy, Debug, PartialEq, Eq, Structural)]
pub struct PlainPattern {
    pub c: Color,
}

impl PlainPattern {
    pub fn new(c: Color) -> (pattern: Self)
        ensures
            pattern.c == c,
    {
        Self { c }
    }

    pub fn color(&self) -> (c: Color)
        ensures
            c == self.c,
    {
        self.c
    }
}

impl Default for PlainPattern {
    fn default() -> (pattern: Self)
        ensures
            pattern.c == Color::white(),
    {
        Self::new(Color::white())
    }
}

impl PatternFunc for PlainPattern {
    open spec fn spec_color_at(&self, at: PatternPoint) -> Paint {
        Paint::Solid(self.c)
    }

    fn color_at(&self, at: &PatternPoint) -> (paint: Paint) {
        Paint::Solid(self.c)
    }
}

/// Stripes across x, one unit wide: the first colour where the whole
/// number at or below x is even, the second where it is odd.
#[derive(Clone, Copy, Debug, PartialEq, Eq, Structural)]
pub struct StrippedPattern {
    pub c0: Color,
    pub c1: Color,
}

impl StrippedPattern {
    pub fn new(c0: Color, c1: Color) -> (pattern: Self)
        ensures
            pattern == (StrippedPattern { c0, c1 }),
    {
        Self { c0, c1 }
    }
}

impl PatternFunc for StrippedPattern {
    open spec fn spec_color_at(&self, at: PatternPoint) -> Paint {
        if is_even(at.floor_x as int) {
            Paint::Solid(self.c0)
        } else {
            Paint::Solid(self.c1)
        }
    }

    fn color_at(&self, at: &PatternPoint) -> (paint: Paint) {
        if even(at.floor_x) {
            Paint::Solid(self.c0)
        } else {
            Paint::Solid(self.c1)
        }
    }
}

/// A blend from the first colour to the second along each unit of x.
#[derive(Clone, Copy, Debug, PartialEq, Eq, Structural)]
pub struct GradientPattern {
    pub c0: Color,
    pub c1: Color,
}

impl GradientPattern {
    pub fn new(c0: Color, c1: Color) -> (pattern: Self)
        ensures
            pattern == (GradientPattern { c0, c1 }),
    {
        Self { c0, c1 }
    }
}

impl PatternFunc for GradientPattern {
    open spec fn spec_color_at(&self, at: PatternPoint) -> Paint {
        Paint::Blend(self.c0, self.c1)
    }

    fn color_at(&self, at: &PatternPoint) -> (paint: Paint) {
        Paint::Blend(self.c0, self.c1)
    }
}

/// Rings around the y axis, one unit wide: the first colour where the
/// whole number at or below the distance from the axis is even, the second
/// where it is odd.
#[derive(Clone, Copy, Debug, PartialEq, Eq, Structural)]
pub struct RingPattern {
    pub c0: Color,
    pub c1: Color,
}

impl RingPattern {
    pub fn new(c0: Color, c1: Color) -> (pattern: Self)
        ensures
            pattern == (RingPattern { c0, c1 }),
    {
        Self { c0, c1 }
    }
}

impl PatternFunc for RingPattern {
    open spec fn spec_color_at(&self, at: PatternPoint) -> Paint {
        if is_even(at.floor_radius as int) {
            Paint::Solid(self.c0)
        } else {
            Paint::Solid(self.c1)
        }
    }

    fn color_at(&self, at: &PatternPoint) -> (paint: Paint) {
        if even(at.floor_radius) {
            Paint::Solid(self.c0)
        } else {
            Paint::Solid(self.c1)
        }
    }
}

/// Unit cubes of two colours in turn: the first colour where the whole
/// numbers at or below the three coordinates add up to an even number, the
/// second where they add up to an odd one.
#[derive(Clone, Copy, Debug, PartialEq, Eq, Structural)]
pub struct CheckerPattern {
    pub c0: Color,
    pub c1: Color,
}

impl CheckerPattern {
    pub fn new(c0: Color, c1: Color) -> (pattern: Self)
        ensures
            pattern == (CheckerPattern { c0, c1 }),
    {
        Self { c0, c1 }
    }
}

impl PatternFunc for CheckerPattern {
    open spec fn spec_color_at(&self, at: PatternPoint) -> Paint {
        if is_even(at.floor_x + at.floor_y + at.floor_z) {
            Paint::Solid(self.c0)
        } else {
            Paint::Solid(self.c1)
        }
    }

    fn color_at(&self, at: &PatternPoint) -> (paint: Paint) {
        let x: bool = even(at.floor_x);
        let y: bool = even(at.floor_y);
        let z: bool = even(at.floor_z);
        if (x == y) == z {
            Paint::Solid(self.c0)
        } else {
            Paint::Solid(self.c1)
        }
    }
}

/// The point's own coordinates as red, green and blue: a pattern to check
/// transforms with.
#[derive(Clone, Copy, Debug, PartialEq, Eq, Structural)]
pub struct TestPattern {}

impl TestPattern {
    pub fn new() -> (pattern: Self)
        ensures
            pattern == (TestPattern {  }),
    {
        Self {  }
    }
}

impl PatternFunc for TestPattern {
    open spec fn spec_color_at(&self, at: PatternPoint) -> Paint {
        Paint::Solid(Color { r: at.point.x, g: at.point.y, b: at.point.z })
    }

    fn color_at(&self, at: &PatternPoint) -> (paint: Paint) {
        Paint::Solid(Color::new(at.point.x, at.point.y, at.point.z))
    }
}

/// The closed family of patterns.
#[derive(Clone, Copy, Debug, PartialEq, Eq, Structural)]
pub enum Pattern {
    Plain(PlainPattern),
    Stripped(StrippedPattern),
    Gradient(GradientPattern),
    Ring(RingPattern),
    Checker(CheckerPattern),
    Test(TestPattern),
}

impl PatternFunc for Pattern {
    open spec fn spec_color_at(&self, at: PatternPoint) -> Paint {
        match self {
            Pattern::Plain(p) => p.spec_color_at(at),
            Pattern::Stripped(p) => p.spec_color_at(at),
            Pattern::Gradient(p) => p.spec_color_at(at),
            Pattern::Ring(p) => p.spec_color_at(at),
            Pattern::Checker(p) => p.spec_color_at(at),
            Pattern::Test(p) => p.spec_color_at(at),
        }
    }

    fn color_at(&self, at: &PatternPoint) -> (paint: Paint) {
        match self {
            Pattern::Plain(p) => p.color_at(at),
            Pattern::Stripped(p) => p.color_at(at),
            Pattern::Gradient(p) => p.color_at(at),
            Pattern::Ring(p) => p.color_at(at),
            Pattern::Checker(p) => p.color_at(at),
            Pattern::Test(p) => p.color_at(at),
        }
    }
}

/// A pattern with its own place in the space of the object that wears it.
///
/// The arithmetic of points is the caller's: `image` gives the point that a
/// matrix makes of a point, and `locate` reads a point of pattern space as
/// the patterns need it.
#[derive(Debug, Clone, Copy, PartialEq)]
pub struct PatternObject {
    pub pattern: Pattern,
    pub transform: Transform,
}

impl PatternObject {
    /// Whether `color` is the colour that the pattern gives a point of the
    /// world, for an object with the given inverse matrix: the point is
    /// taken to the space of the object, from there to the space of the
    /// pattern, and the pattern paints what it is there. Where it paints a
    /// blend, the colour is what `mix` makes of the two colours at the x of
    /// the point in pattern space.
    pub open spec fn painted<
        M: Fn(&Matrix, Vec3) -> Vec3,
        L: Fn(Vec3) -> PatternPoint,
        X: Fn(Color, Color, i64) -> Color,
    >(
        &self,
        object_inverse: &Matrix,
        world_point: Vec3,
        image: M,
        locate: L,
        mix: X,
        color: Color,
    ) -> bool {
        exists|object_point: Vec3, pattern_point: Vec3, at: PatternPoint|
            #![trigger
                image.ensures((&self.transform.inverse_matrix, object_point), pattern_point),
                locate.ensures((pattern_point,), at)
            ]
            {
                &&& image.ensures((object_inverse, world_point), object_point)
                &&& image.ensures((&self.transform.inverse_matrix, object_point), pattern_point)
                &&& locate.ensures((pattern_point,), at)
                &&& match self.pattern.spec_color_at(at) {
                    Paint::Solid(c) => color == c,
                    Paint::Blend(c0, c1) => mix.ensures((c0, c1, pattern_point.x), color),
                }
            }
    }

    /// Whether two patterns are the same, with the same transform.
    pub fn same(&self, other: &PatternObject) -> (same: bool)
        ensures
            same == (*self == *other),
    {
        self.pattern == other.pattern && self.transform.same(&other.transform)
    }

    /// A pattern that stands in the space of its object as it is.
    pub fn new(pattern: Pattern) -> (object: Self)
        ensures
            object.pattern == pattern,
            object.transform.is_identity(),
            object.transform.consistent(),
    {
        Self { pattern, transform: Transform::identity() }
    }

    pub fn with_transform(self, transform: Transform) -> (object: Self)
        ensures
            object == (PatternObject { transform, ..self }),
    {
        Self { pattern: self.pattern, transform }
    }

    /// Gives the pattern a transform in place of the one it has.
    pub fn apply_transform(&mut self, transform: Transform)
        ensures
            *final(self) == (PatternObject { transform, ..*old(self) }),
    {
        self.transform = transform;
    }

    pub fn pattern(&self) -> (pattern: &Pattern)
        ensures
            *pattern == self.pattern,
    {
        &self.pattern
    }

    pub fn transform(&self) -> (transform: &Transform)
        ensures
            *transform == self.transform,
    {
        &self.transform
    }

    pub fn inverse_transform(&self) -> (matrix: &Matrix)
        ensures
            *matrix == self.transform.inverse_matrix,
    {
        &self.transform.inverse_matrix
    }

    /// The colour of the pattern at a point of the world, on an object with
    /// the given inverse matrix.
    pub fn color_at_object<
        M: Fn(&Matrix, Vec3) -> Vec3,
        L: Fn(Vec3) -> PatternPoint,
        X: Fn(Color, Color, i64) -> Color,
    >(
        &self,
        object_inverse: &Matrix,
        world_point: Vec3,
        image: &M,
        locate: &L,
        mix: &X,
    ) -> (color: Color)
        requires
            forall|m: &Matrix, p: Vec3| #[trigger] image.requires((m, p)),
            forall|p: Vec3| #[trigger] locate.requires((p,)),
            forall|a: Color, b: Color, x: i64| #[trigger] mix.requires((a, b, x)),
        ensures
            self.painted(object_inverse, world_point, *image, *locate, *mix, color),
    {
        let object_point: Vec3 = image(object_inverse, world_point);
        let pattern_point: Vec3 = image(self.inverse_transform(), object_point);
        let at: PatternPoint = locate(pattern_point);
        match self.pattern.color_at(&at) {
            Paint::Solid(c) => c,
            Paint::Blend(c0, c1) => mix(c0, c1, pattern_point.x),
        }
    }
}

impl Default for PatternObject {
    fn default() -> (object: Self)
        ensures
            object.pattern == Pattern::Plain(PlainPattern { c: Color::white() }),
            object.transform.is_identity(),
            object.transform.consistent(),
    {
        Self::new(Pattern::Plain(PlainPattern::new(Color::white())))
    }
}

} // verus!
