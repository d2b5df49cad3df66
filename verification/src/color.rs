use vstd::prelude::*;
use crate::scalar;

verus! {

/// A colour in linear red, green and blue, each a rank.
#[derive(Clone, Copy, Debug, PartialEq, Eq, Structural)]
pub struct Color {
    pub r: i64,
    pub g: i64,
    pub b: i64,
}

impl Color {
    pub open spec fn spec_white() -> Color {
        Color { r: scalar::ONE, g: scalar::ONE, b: scalar::ONE }
    }

    pub open spec fn spec_black() -> Color {
        Color { r: 0, g: 0, b: 0 }
    }

    pub open spec fn spec_red() -> Color {
        Color { r: scalar::ONE, g: 0, b: 0 }
    }

    pub open spec fn spec_green() -> Color {
        Color { r: 0, g: scalar::ONE, b: 0 }
    }

    pub open spec fn spec_blue() -> Color {
        Color { r: 0, g: 0, b: scalar::ONE }
    }

    pub fn new(r: i64, g: i64, b: i64) -> (c: Self)
        ensures
            c == (Color { r, g, b }),
    {
        Self { r, g, b }
    }

    #[verifier::when_used_as_spec(spec_white)]
    pub fn white() -> (c: Color)
        ensures
            c == Color::spec_white(),
    {
        Color::new(scalar::ONE, scalar::ONE, scalar::ONE)
    }

    #[verifier::when_used_as_spec(spec_black)]
    pub fn black() -> (c: Color)
        ensures
            c == Color::spec_black(),
    {
        Color::new(0, 0, 0)
    }

    #[verifier::when_used_as_spec(spec_red)]
    pub fn red() -> (c: Color)
        ensures
            c == Color::spec_red(),
    {
        Color::new(scalar::ONE, 0, 0)
    }

    #[verifier::when_used_as_spec(spec_green)]
    pub fn green() -> (c: Color)
        ensures
            c == Color::spec_green(),
    {
        Color::new(0, scalar::ONE, 0)
    }

    #[verifier::when_used_as_spec(spec_blue)]
    pub fn blue() -> (c: Color)
        ensures
            c == Color::spec_blue(),
    {
        Color::new(0, 0, scalar::ONE)
    }

    /// The colour with each part held to the range from 0 to 1, as an image
    /// can show it.
    pub open spec fn spec_clamped(self) -> Color {
        Color {
            r: scalar::max_rank(0, scalar::min_rank(self.r as int, scalar::ONE as int)) as i64,
            g: scalar::max_rank(0, scalar::min_rank(self.g as int, scalar::ONE as int)) as i64,
            b: scalar::max_rank(0, scalar::min_rank(self.b as int, scalar::ONE as int)) as i64,
        }
    }

    #[verifier::when_used_as_spec(spec_clamped)]
    pub fn clamped(self) -> (c: Color)
        ensures
            c == self.spec_clamped(),
            0 <= c.r <= scalar::ONE,
            0 <= c.g <= scalar::ONE,
            0 <= c.b <= scalar::ONE,
    {
        Color::new(
            scalar::max(0, scalar::min(self.r, scalar::ONE)),
            scalar::max(0, scalar::min(self.g, scalar::ONE)),
            scalar::max(0, scalar::min(self.b, scalar::ONE)),
        )
    }
}

} // verus!
