//! The lights of a scene, and the order of the cells of an area light.

use vstd::prelude::*;
use crate::bounds::Vec3;
use crate::color::Color;

verus! {

/// What every light has: the places that it shines from, and its colour.
pub trait LightSource {
    spec fn spec_positions(&self) -> Seq<Vec3>;

    spec fn spec_intensity(&self) -> Color;

    fn positions(&self) -> (positions: &[Vec3])
        ensures
            positions@ == self.spec_positions(),
    ;

    fn intensity(&self) -> (intensity: Color)
        ensures
            intensity == self.spec_intensity(),
    ;
}

/// A light that shines from a single point.
#[derive(Debug, Clone, Copy, PartialEq)]
pub struct PointLight {
    pub position: [Vec3; 1],
    pub intensity: Color,
}

impl PointLight {
    pub fn new(position: Vec3, intensity: Color) -> (light: Self)
        ensures
            light.position@ == seq![position],
            light.intensity == intensity,
    {
        let light = Self { position: [position], intensity };
        assert(light.position@ =~= seq![position]);
        light
    }

    pub fn position(&self) -> (position: Vec3)
        ensures
            position == self.position@[0],
    {
        self.position[0]
    }
}

impl LightSource for PointLight {
    open spec fn spec_positions(&self) -> Seq<Vec3> {
        self.position@
    }

    open spec fn spec_intensity(&self) -> Color {
        self.intensity
    }

    fn positions(&self) -> (positions: &[Vec3]) {
        self.position.as_slice()
    }

    fn intensity(&self) -> (intensity: Color) {
        self.intensity
    }
}

/// The place at which the cell `u` of the row `v` is sampled, in a grid
/// that is `usteps` cells wide: the cells are sampled row by row, each row
/// from its first cell to its last.
pub open spec fn place(usteps: usize, u: usize, v: usize) -> int {
    v * usteps + u
}

/// A rectangle of light, divided into `usteps` times `vsteps` cells with a
/// sample in each. `corner` is one corner of the rectangle, and `uvec` and
/// `vvec` are the two edges of one cell.
#[derive(Debug, PartialEq)]
pub struct AreaLight {
    corner: Vec3,
    uvec: Vec3,
    usteps: usize,
    vvec: Vec3,
    vsteps: usize,
    intensity: Color,
    samples: usize,
    positions: Vec<Vec3>,
}

impl AreaLight {
    /// There is one sample, and one position, for each cell.
    #[verifier::type_invariant]
    spec fn well_formed(&self) -> bool {
        &&& self.samples == self.usteps * self.vsteps
        &&& self.positions@.len() == self.samples
    }

    pub closed spec fn spec_corner(&self) -> Vec3 {
        self.corner
    }

    pub closed spec fn spec_uvec(&self) -> Vec3 {
        self.uvec
    }

    pub closed spec fn spec_usteps(&self) -> usize {
        self.usteps
    }

    pub closed spec fn spec_vvec(&self) -> Vec3 {
        self.vvec
    }

    pub closed spec fn spec_vsteps(&self) -> usize {
        self.vsteps
    }

    pub closed spec fn spec_samples(&self) -> usize {
        self.samples
    }

    /// An area light whose positions are the middles of its cells, in the
    /// order in which the cells are sampled. `center` gives the middle of
    /// the cell at the given place of the given row. The number of cells
    /// must fit the machine.
    pub fn new<F: Fn(usize, usize) -> Vec3>(
        corner: Vec3,
        uvec: Vec3,
        usteps: usize,
        vvec: Vec3,
        vsteps: usize,
        color: Color,
        center: &F,
    ) -> (light: Self)
        requires
            usteps * vsteps <= usize::MAX,
            forall|u: usize, v: usize| #[trigger] center.requires((u, v)),
        ensures
            light.spec_corner() == corner,
            light.spec_uvec() == uvec,
            light.spec_usteps() == usteps,
            light.spec_vvec() == vvec,
            light.spec_vsteps() == vsteps,
            light.spec_intensity() == color,
            light.spec_samples() == usteps * vsteps,
            light.spec_positions().len() == usteps * vsteps,
            forall|u: usize, v: usize|
                u < usteps && v < vsteps ==> center.ensures(
                    (u, v),
                    light.spec_positions()[#[trigger] place(usteps, u, v)],
                ),
    {
        let samples: usize = usteps * vsteps;
        let mut positions: Vec<Vec3> = Vec::with_capacity(samples);
        let mut v: usize = 0;
        while v < vsteps
            invariant
                v <= vsteps,
                samples == usteps * vsteps,
                positions@.len() == v * usteps,
                forall|u: usize, v: usize| #[trigger] center.requires((u, v)),
                forall|i: usize, j: usize|
                    i < usteps && j < v ==> center.ensures(
                        (i, j),
                        positions@[#[trigger] place(usteps, i, j)],
                    ),
            decreases vsteps - v,
        {
            let mut u: usize = 0;
            while u < usteps
                invariant
                    u <= usteps,
                    v < vsteps,
                    samples == usteps * vsteps,
                    positions@.len() == v * usteps + u,
                    forall|u: usize, v: usize| #[trigger] center.requires((u, v)),
                    forall|i: usize, j: usize|
                        i < usteps && (j < v || (j == v && i < u)) ==> center.ensures(
                            (i, j),
                            positions@[#[trigger] place(usteps, i, j)],
                        ),
                decreases usteps - u,
            {
                let ghost before = positions@;
                positions.push(center(u, v));
                proof {
                    assert forall|i: usize, j: usize|
                        i < usteps && (j < v || (j == v && i < u + 1)) implies center.ensures(
                        (i, j),
                        positions@[#[trigger] place(usteps, i, j)],
                    ) by {
                        lemma_places_differ(usteps, i, j, u, v);
                        if !(j == v && i == u) {
                            assert(positions@[place(usteps, i, j)] == before[place(usteps, i, j)]);
                        }
                    }
                }
                u += 1;
            }
            proof {
                assert(v * usteps + usteps == (v + 1) * usteps) by (nonlinear_arith);
            }
            v += 1;
        }
        proof {
            assert(vsteps * usteps == usteps * vsteps) by (nonlinear_arith);
        }
        Self { corner, uvec, usteps, vvec, vsteps, intensity: color, samples, positions }
    }

    pub fn corner(&self) -> (corner: Vec3)
        ensures
            corner == self.spec_corner(),
    {
        self.corner
    }

    pub fn uvec(&self) -> (uvec: Vec3)
        ensures
            uvec == self.spec_uvec(),
    {
        self.uvec
    }

    pub fn usteps(&self) -> (usteps: usize)
        ensures
            usteps == self.spec_usteps(),
    {
        self.usteps
    }

    pub fn vvec(&self) -> (vvec: Vec3)
        ensures
            vvec == self.spec_vvec(),
    {
        self.vvec
    }

    pub fn vsteps(&self) -> (vsteps: usize)
        ensures
            vsteps == self.spec_vsteps(),
    {
        self.vsteps
    }

    /// The number of samples: one for each cell.
    pub fn samples(&self) -> (samples: usize)
        ensures
            samples == self.spec_samples(),
            samples == self.spec_usteps() * self.spec_vsteps(),
            samples == self.spec_positions().len(),
    {
        proof {
            use_type_invariant(self);
        }
        self.samples
    }
}

impl LightSource for AreaLight {
    closed spec fn spec_positions(&self) -> Seq<Vec3> {
        self.positions@
    }

    closed spec fn spec_intensity(&self) -> Color {
        self.intensity
    }

    fn positions(&self) -> (positions: &[Vec3]) {
        self.positions.as_slice()
    }

    fn intensity(&self) -> (intensity: Color) {
        self.intensity
    }
}

impl Clone for AreaLight {
    /// A light with the same cells and the same positions.
    fn clone(&self) -> (copy: Self)
        ensures
            copy.spec_corner() == self.spec_corner(),
            copy.spec_uvec() == self.spec_uvec(),
            copy.spec_usteps() == self.spec_usteps(),
            copy.spec_vvec() == self.spec_vvec(),
            copy.spec_vsteps() == self.spec_vsteps(),
            copy.spec_intensity() == self.spec_intensity(),
            copy.spec_samples() == self.spec_samples(),
            copy.spec_positions() == self.spec_positions(),
    {
        proof {
            use_type_invariant(self);
        }
        let mut positions: Vec<Vec3> = Vec::with_capacity(self.positions.len());
        let mut k: usize = 0;
        while k < self.positions.len()
            invariant
                k <= self.positions.len(),
                positions@ == self.positions@.take(k as int),
            decreases self.positions.len() - k,
        {
            positions.push(self.positions[k]);
            assert(self.positions@.take(k + 1) =~= self.positions@.take(k as int).push(
                self.positions@[k as int],
            ));
            k += 1;
        }
        assert(self.positions@.take(k as int) =~= self.positions@);
        Self {
            corner: self.corner,
            uvec: self.uvec,
            usteps: self.usteps,
            vvec: self.vvec,
            vsteps: self.vsteps,
            intensity: self.intensity,
            samples: self.samples,
            positions,
        }
    }
}

/// The closed family of lights.
#[derive(Debug, Clone, PartialEq)]
pub enum Light {
    PointLight(PointLight),
    AreaLight(AreaLight),
}

impl LightSource for Light {
    open spec fn spec_positions(&self) -> Seq<Vec3> {
        match self {
            Light::PointLight(l) => l.spec_positions(),
            Light::AreaLight(l) => l.spec_positions(),
        }
    }

    open spec fn spec_intensity(&self) -> Color {
        match self {
            Light::PointLight(l) => l.spec_intensity(),
            Light::AreaLight(l) => l.spec_intensity(),
        }
    }

    fn positions(&self) -> (positions: &[Vec3]) {
        match self {
            Light::PointLight(l) => l.positions(),
            Light::AreaLight(l) => l.positions(),
        }
    }

    fn intensity(&self) -> (intensity: Color) {
        match self {
            Light::PointLight(l) => l.intensity(),
            Light::AreaLight(l) => l.intensity(),
        }
    }
}

/// Of two cells of the grid, the one that is sampled earlier has the
/// earlier place: the one in the earlier row, or the earlier one in the same
/// row.
pub proof fn lemma_places_differ(usteps: usize, i: usize, j: usize, u: usize, v: usize)
    by (nonlinear_arith)
    requires
        i < usteps,
        u < usteps,
        j < v || (j == v && i <= u),
    ensures
        0 <= place(usteps, i, j) <= place(usteps, u, v),
        place(usteps, i, j) == place(usteps, u, v) ==> i == u && j == v,
{
}

/// A cell of the grid has a place among the samples.
pub proof fn lemma_place_in_grid(usteps: usize, vsteps: usize, u: usize, v: usize)
    by (nonlinear_arith)
    requires
        u < usteps,
        v < vsteps,
    ensures
        0 <= place(usteps, u, v) < usteps * vsteps,
{
}

} // verus!
