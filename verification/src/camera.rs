//! The camera: the samples of a pixel, and the image of a scene.

use vstd::prelude::*;
use crate::bounds::{BoundingBox, Slab, Vec3};
use crate::canvas::Canvas;
use crate::color::Color;
use crate::lights::{lemma_place_in_grid, lemma_places_differ, place, AreaLight};
use crate::matrix::Matrix;
use crate::pattern::PatternPoint;
use crate::ray::Ray;
use crate::scalar;
use crate::sequence::Sequence;
use crate::shading::Tracing;
use crate::shapes::shape::{Curve, Facts, Shape};
use crate::transformations::Transform;
use crate::world::World;

verus! {

/// The rank of 0.5: the middle of a pixel.
pub const HALF: i64 = 0x3FE0_0000_0000_0000;

/// The eye that looks at a scene: an image of `width` by `height` pixels
/// one unit in front of it. `half_width` and `half_height` are half the
/// extent of the image there, and `pixel_size` is the size of a pixel; all
/// three follow from the field of view and the shape of the image. A ray
/// that sees nothing gives its pixel the colour of the background. With
/// `antialiasing` above 1, a pixel is sampled that many times along each
/// of its sides.
#[derive(Debug, PartialEq)]
pub struct Camera {
    pub width: usize,
    pub height: usize,
    pub fov: i64,
    pub transform: Transform,
    pub pixel_size: i64,
    pub half_width: i64,
    pub half_height: i64,
    pub background: Color,
    pub antialiasing: usize,
}

/// The arithmetic of the camera, which is the caller's: `through` gives the
/// ray from the eye through a point of a pixel, from the column and the row
/// of the pixel and the two offsets of the point in it, each from 0 to 1;
/// `place` the offset of a sample along a side of a pixel, from the cell of
/// the sample, the value of the jitter that moves it in its cell, and the
/// number of the cells; `add` the sum of two colours; and `mean` a sum of
/// colours over their number.
pub struct Lens<G, C, U, E> {
    pub through: G,
    pub place: C,
    pub add: U,
    pub mean: E,
}

impl<
    G: Fn(&Camera, usize, usize, i64, i64) -> Ray,
    C: Fn(usize, i64, usize) -> i64,
    U: Fn(Color, Color) -> Color,
    E: Fn(Color, usize) -> Color,
> Lens<G, C, U, E> {
    /// Every part of the arithmetic can be asked anything.
    pub open spec fn ready(&self) -> bool {
        &&& forall|c: &Camera, x: usize, y: usize, dx: i64, dy: i64| #[trigger]
            self.through.requires((c, x, y, dx, dy))
        &&& forall|cell: usize, jitter: i64, cells: usize| #[trigger]
            self.place.requires((cell, jitter, cells))
        &&& forall|a: Color, b: Color| #[trigger] self.add.requires((a, b))
        &&& forall|a: Color, n: usize| #[trigger] self.mean.requires((a, n))
    }
}

/// The values that move the samples of a pixel in their cells: the ranks of
/// 0.5, 0.25, 0.75, 0.125, 0.625, 0.375, 0.875 and 0.0625. They are the
/// same for every pixel, so that a scene always gives the same image.
pub open spec fn spec_jitter() -> Seq<i64> {
    seq![
        0x3FE0_0000_0000_0000i64,
        0x3FD0_0000_0000_0000i64,
        0x3FE8_0000_0000_0000i64,
        0x3FC0_0000_0000_0000i64,
        0x3FE4_0000_0000_0000i64,
        0x3FD8_0000_0000_0000i64,
        0x3FEC_0000_0000_0000i64,
        0x3FB0_0000_0000_0000i64,
    ]
}

/// The jitter of the samples of a pixel, from its first value on.
pub fn jitter() -> (values: Sequence<i64>)
    ensures
        values.values() == spec_jitter(),
        values.position() == 0,
{
    let mut values: Vec<i64> = Vec::new();
    values.push(0x3FE0_0000_0000_0000);
    values.push(0x3FD0_0000_0000_0000);
    values.push(0x3FE8_0000_0000_0000);
    values.push(0x3FC0_0000_0000_0000);
    values.push(0x3FE4_0000_0000_0000);
    values.push(0x3FD8_0000_0000_0000);
    values.push(0x3FEC_0000_0000_0000);
    values.push(0x3FB0_0000_0000_0000);
    assert(values@ =~= spec_jitter());
    Sequence::new(values)
}

impl Camera {
    /// Whether the three numbers are half the width and half the height
    /// of the image one unit in front of the eye, and the size of a pixel
    /// there, for an image of the given numbers of pixels and the given
    /// field of view. The field of view is that of the longer side of the
    /// image: where the image is at least as wide as it is high, half its
    /// width is the half view and half its height the half view over the
    /// aspect; else half its height is the half view and half its width the
    /// half view times the aspect. The size of a pixel is what `pixel`
    /// makes of half the width and the number of pixels across.
    pub open spec fn framed<
        T: Fn(i64) -> i64,
        Q: Fn(usize, usize) -> i64,
        P: Fn(i64, i64) -> i64,
        D: Fn(i64, i64) -> i64,
        S: Fn(i64, usize) -> i64,
    >(
        width: usize,
        height: usize,
        fov: i64,
        half_view: T,
        aspect: Q,
        times: P,
        over: D,
        pixel: S,
        half_width: i64,
        half_height: i64,
        pixel_size: i64,
    ) -> bool {
        exists|hv: i64, a: i64|
            #![trigger half_view.ensures((fov,), hv), aspect.ensures((width, height), a)]
            {
                &&& half_view.ensures((fov,), hv)
                &&& aspect.ensures((width, height), a)
                &&& a >= scalar::ONE ==> half_width == hv && over.ensures((hv, a), half_height)
                &&& a < scalar::ONE ==> times.ensures((hv, a), half_width) && half_height == hv
                &&& pixel.ensures((half_width, width), pixel_size)
            }
    }

    /// A camera at the origin that looks along the z axis the negative way,
    /// with a black background and one sample to a pixel. `half_view` gives
    /// the tangent of half the field of view, `aspect` the number of pixels
    /// across over the number down, `times` a product, `over` a quotient,
    /// and `pixel` the size of a pixel from half the width of the image and
    /// the number of pixels across.
    pub fn new<
        T: Fn(i64) -> i64,
        Q: Fn(usize, usize) -> i64,
        P: Fn(i64, i64) -> i64,
        D: Fn(i64, i64) -> i64,
        S: Fn(i64, usize) -> i64,
    >(
        width: usize,
        height: usize,
        fov: i64,
        half_view: &T,
        aspect: &Q,
        times: &P,
        over: &D,
        pixel: &S,
    ) -> (camera: Self)
        requires
            forall|f: i64| #[trigger] half_view.requires((f,)),
            forall|w: usize, h: usize| #[trigger] aspect.requires((w, h)),
            forall|a: i64, b: i64| #[trigger] times.requires((a, b)),
            forall|a: i64, b: i64| #[trigger] over.requires((a, b)),
            forall|a: i64, n: usize| #[trigger] pixel.requires((a, n)),
        ensures
            camera.width == width,
            camera.height == height,
            camera.fov == fov,
            Camera::framed(
                width,
                height,
                fov,
                *half_view,
                *aspect,
                *times,
                *over,
                *pixel,
                camera.half_width,
                camera.half_height,
                camera.pixel_size,
            ),
            camera.transform.is_identity(),
            camera.transform.consistent(),
            camera.background == Color::spec_black(),
            camera.antialiasing == 1,
    {
        let hv: i64 = half_view(fov);
        let a: i64 = aspect(width, height);
        let (half_width, half_height) = if a >= scalar::ONE {
            (hv, over(hv, a))
        } else {
            (times(hv, a), hv)
        };
        let pixel_size: i64 = pixel(half_width, width);
        assert(half_view.ensures((fov,), hv) && aspect.ensures((width, height), a));
        Self {
            width,
            height,
            fov,
            transform: Transform::identity(),
            pixel_size,
            half_width,
            half_height,
            background: Color::black(),
            antialiasing: 1,
        }
    }

    /// The camera moved and turned by a transform.
    pub fn with_transform(self, transform: Transform) -> (camera: Self)
        ensures
            camera == (Camera { transform, ..self }),
    {
        Self { transform, ..self }
    }

    pub fn with_background(self, background: Color) -> (camera: Self)
        ensures
            camera == (Camera { background, ..self }),
    {
        Self { background, ..self }
    }

    /// The camera with `level` samples along each side of a pixel, and with
    /// one where `level` is 0.
    pub fn with_antialiasing(self, level: usize) -> (camera: Self)
        ensures
            camera == (Camera { antialiasing: if level < 1 { 1 } else { level }, ..self }),
    {
        Self { antialiasing: if level < 1 { 1 } else { level }, ..self }
    }

    pub fn width(&self) -> (width: usize)
        ensures
            width == self.width,
    {
        self.width
    }

    pub fn height(&self) -> (height: usize)
        ensures
            height == self.height,
    {
        self.height
    }

    pub fn fov(&self) -> (fov: i64)
        ensures
            fov == self.fov,
    {
        self.fov
    }

    pub fn pixel_size(&self) -> (pixel_size: i64)
        ensures
            pixel_size == self.pixel_size,
    {
        self.pixel_size
    }

    pub fn transform(&self) -> (transform: &Transform)
        ensures
            *transform == self.transform,
    {
        &self.transform
    }

    pub fn background(&self) -> (background: Color)
        ensures
            background == self.background,
    {
        self.background
    }

    pub fn antialiasing(&self) -> (level: usize)
        ensures
            level == self.antialiasing,
    {
        self.antialiasing
    }

    /// The ray from the eye through the middle of a pixel.
    pub fn ray_for_pixel<G: Fn(&Camera, usize, usize, i64, i64) -> Ray>(
        &self,
        x: usize,
        y: usize,
        through: &G,
    ) -> (ray: Ray)
        requires
            forall|c: &Camera, x: usize, y: usize, dx: i64, dy: i64| #[trigger]
                through.requires((c, x, y, dx, dy)),
        ensures
            through.ensures((self, x, y, HALF, HALF), ray),
    {
        through(self, x, y, HALF, HALF)
    }
}

impl<
    RI: Fn(&Matrix, Vec3) -> Vec3,
    RT: Fn(&Matrix, Vec3) -> Vec3,
    RF: Fn(&Shape, &Ray) -> Facts,
    RS: Fn(&BoundingBox, &Ray) -> (Slab, Slab, Slab),
    HA: Fn(&Ray, i64) -> Vec3,
    HI: Fn(&Matrix, Vec3) -> Vec3,
    HC: Fn(&Shape, Vec3, i64, i64) -> Curve,
    HW: Fn(&Matrix, Vec3) -> Vec3,
    HD: Fn(Vec3, Vec3) -> i64,
    HO: Fn(Vec3, Vec3) -> (Vec3, Vec3),
    HR: Fn(Vec3, Vec3) -> Vec3,
    LI: Fn(&Matrix, Vec3) -> Vec3,
    LK: Fn(Vec3) -> PatternPoint,
    LX: Fn(Color, Color, i64) -> Color,
    LT: Fn(Color, Color) -> Color,
    LS: Fn(Color, i64) -> Color,
    LW: Fn(Vec3, Vec3) -> Vec3,
    LD: Fn(Vec3, Vec3) -> i64,
    LR: Fn(Vec3, Vec3) -> Vec3,
    LP: Fn(i64, i64) -> i64,
    LA: Fn(Color, Color) -> Color,
    LE: Fn(Color, i64, usize) -> Color,
    SA: Fn(Vec3, Vec3) -> (i64, Ray),
    SS: Fn(&AreaLight, usize, usize, i64, i64) -> Vec3,
    SR: Fn(usize, usize) -> i64,
    SD: Fn() -> i64,
    TA: Fn(Color, Color) -> Color,
    TS: Fn(Color, i64) -> Color,
    TB: Fn(Color, Color, Color, i64) -> Color,
    TN: Fn(i64, i64, i64) -> i64,
    TC: Fn(i64) -> i64,
    TH: Fn(i64, i64, i64) -> i64,
    TT: Fn(Vec3, Vec3, i64, i64, i64, i64) -> Vec3,
> Tracing<
    RI,
    RT,
    RF,
    RS,
    HA,
    HI,
    HC,
    HW,
    HD,
    HO,
    HR,
    LI,
    LK,
    LX,
    LT,
    LS,
    LW,
    LD,
    LR,
    LP,
    LA,
    LE,
    SA,
    SS,
    SR,
    SD,
    TA,
    TS,
    TB,
    TN,
    TC,
    TH,
    TT,
> {
    /// Whether `color` is what the camera sees through a point of a pixel:
    /// the colour that the ray through the point sees in the world, and the
    /// background of the camera where the ray leaves the scene.
    pub open spec fn sampled<
        G: Fn(&Camera, usize, usize, i64, i64) -> Ray,
        C: Fn(usize, i64, usize) -> i64,
        U: Fn(Color, Color) -> Color,
        E: Fn(Color, usize) -> Color,
    >(
        &self,
        camera: Camera,
        world: World,
        x: usize,
        y: usize,
        dx: i64,
        dy: i64,
        depth: u8,
        lens: Lens<G, C, U, E>,
        color: Color,
    ) -> bool {
        exists|ray: Ray, seen: Option<Color>|
            {
                &&& lens.through.ensures((&camera, x, y, dx, dy), ray)
                &&& #[trigger] self.colored(world, ray, depth, seen)
                &&& color == match seen {
                    Some(c) => c,
                    None => camera.background,
                }
            }
    }

    /// Whether `sum` is the sum of the first `count` samples of a pixel,
    /// each added to the sum of those before. The samples are taken cell
    /// by cell, row by row, where the pixel has as many cells along each
    /// side as the camera has antialiasing. The jitter hands out two values
    /// for each sample, which move it in its cell: the first along the row.
    /// It hands its values out in turn, and starts again after the last.
    pub open spec fn gathered<
        G: Fn(&Camera, usize, usize, i64, i64) -> Ray,
        C: Fn(usize, i64, usize) -> i64,
        U: Fn(Color, Color) -> Color,
        E: Fn(Color, usize) -> Color,
    >(
        &self,
        camera: Camera,
        world: World,
        x: usize,
        y: usize,
        depth: u8,
        jitter: Seq<i64>,
        count: nat,
        lens: Lens<G, C, U, E>,
        sum: Color,
    ) -> bool
        decreases count,
    {
        if count == 0 {
            sum == Color::spec_black()
        } else {
            let last = (count - 1) as int;
            let cells = camera.antialiasing;
            exists|before: Color, dx: i64, dy: i64, one: Color|
                #![trigger
                    self.sampled(camera, world, x, y, dx, dy, depth, lens, one),
                    lens.add.ensures((before, one), sum)
                ]
                {
                    &&& self.gathered(
                        camera,
                        world,
                        x,
                        y,
                        depth,
                        jitter,
                        (count - 1) as nat,
                        lens,
                        before,
                    )
                    &&& lens.place.ensures(
                        (
                            (last % (cells as int)) as usize,
                            jitter[(2 * last) % (jitter.len() as int)],
                            cells,
                        ),
                        dx,
                    )
                    &&& lens.place.ensures(
                        (
                            (last / (cells as int)) as usize,
                            jitter[(2 * last + 1) % (jitter.len() as int)],
                            cells,
                        ),
                        dy,
                    )
                    &&& self.sampled(camera, world, x, y, dx, dy, depth, lens, one)
                    &&& lens.add.ensures((before, one), sum)
                }
        }
    }

    /// Whether `color` is the colour of a pixel: with one sample to a
    /// pixel, what the camera sees through the middle of the pixel; else
    /// the mean of the samples of the pixel, taken in a fixed order with
    /// the same jitter for every pixel.
    pub open spec fn pixel_is<
        G: Fn(&Camera, usize, usize, i64, i64) -> Ray,
        C: Fn(usize, i64, usize) -> i64,
        U: Fn(Color, Color) -> Color,
        E: Fn(Color, usize) -> Color,
    >(
        &self,
        camera: Camera,
        world: World,
        x: usize,
        y: usize,
        depth: u8,
        lens: Lens<G, C, U, E>,
        color: Color,
    ) -> bool {
        if camera.antialiasing <= 1 {
            self.sampled(camera, world, x, y, HALF, HALF, depth, lens, color)
        } else {
            let samples = camera.antialiasing * camera.antialiasing;
            exists|sum: Color|
                {
                    &&& self.gathered(
                        camera,
                        world,
                        x,
                        y,
                        depth,
                        spec_jitter(),
                        samples as nat,
                        lens,
                        sum,
                    )
                    &&& #[trigger] lens.mean.ensures((sum, samples as usize), color)
                }
        }
    }

    /// What the camera sees through a point of a pixel.
    pub fn sample<
        G: Fn(&Camera, usize, usize, i64, i64) -> Ray,
        C: Fn(usize, i64, usize) -> i64,
        U: Fn(Color, Color) -> Color,
        E: Fn(Color, usize) -> Color,
    >(
        &self,
        camera: &Camera,
        world: &World,
        x: usize,
        y: usize,
        dx: i64,
        dy: i64,
        depth: u8,
        lens: &Lens<G, C, U, E>,
    ) -> (color: Color)
        requires
            self.ready(),
            lens.ready(),
        ensures
            self.sampled(*camera, *world, x, y, dx, dy, depth, *lens, color),
    {
        let ray: Ray = (lens.through)(camera, x, y, dx, dy);
        let seen: Option<Color> = self.color_at(world, &ray, depth);
        match seen {
            Some(color) => color,
            None => camera.background,
        }
    }

    /// The colour of a pixel. The number of the samples of a pixel must
    /// fit the machine.
    pub fn color_of_pixel<
        G: Fn(&Camera, usize, usize, i64, i64) -> Ray,
        C: Fn(usize, i64, usize) -> i64,
        U: Fn(Color, Color) -> Color,
        E: Fn(Color, usize) -> Color,
    >(
        &self,
        camera: &Camera,
        world: &World,
        x: usize,
        y: usize,
        depth: u8,
        lens: &Lens<G, C, U, E>,
    ) -> (color: Color)
        requires
            self.ready(),
            lens.ready(),
            camera.antialiasing * camera.antialiasing <= usize::MAX,
        ensures
            self.pixel_is(*camera, *world, x, y, depth, *lens, color),
    {
        let cells: usize = camera.antialiasing;
        if cells <= 1 {
            return self.sample(camera, world, x, y, HALF, HALF, depth, lens);
        }
        let samples: usize = cells * cells;
        let mut jitter_by: Sequence<i64> = jitter();
        let ghost fresh = jitter_by;
        let mut sum: Color = Color::black();
        let mut taken: usize = 0;
        while taken < samples
            invariant
                taken <= samples,
                cells == camera.antialiasing,
                cells > 1,
                self.ready(),
                lens.ready(),
                jitter_by.values() == fresh.values(),
                fresh.values().len() > 0,
                forall|ahead: int|
                    0 <= ahead ==> #[trigger] jitter_by.drawn(ahead) == fresh.drawn(
                        2 * taken + ahead,
                    ),
                fresh.values() == spec_jitter(),
                fresh.position() == 0,
                self.gathered(
                    *camera,
                    *world,
                    x,
                    y,
                    depth,
                    spec_jitter(),
                    taken as nat,
                    *lens,
                    sum,
                ),
            decreases samples - taken,
        {
            let ghost before = jitter_by;
            let along: i64 = jitter_by.next().unwrap();
            let ghost between = jitter_by;
            let down: i64 = jitter_by.next().unwrap();
            let dx: i64 = (lens.place)(taken % cells, along, cells);
            let dy: i64 = (lens.place)(taken / cells, down, cells);
            let one: Color = self.sample(camera, world, x, y, dx, dy, depth, lens);
            let next: Color = (lens.add)(sum, one);
            proof {
                assert(along == before.drawn(0));
                assert(down == between.drawn(0));
                assert(between.drawn(0) == before.drawn(1));
                assert forall|ahead: int| 0 <= ahead implies #[trigger] jitter_by.drawn(ahead)
                    == fresh.drawn(2 * (taken + 1) + ahead) by {
                    assert(jitter_by.drawn(ahead) == between.drawn(ahead + 1));
                    assert(between.drawn(ahead + 1) == before.drawn(ahead + 2));
                }
                assert(along == fresh.drawn(2 * taken));
                assert(down == fresh.drawn(2 * taken + 1));
                assert(lens.add.ensures((sum, one), next));
            }
            sum = next;
            taken += 1;
        }
        (lens.mean)(sum, samples)
    }

    /// Whether the canvas holds the image that the camera makes of the
    /// world: it has the width and the height of the camera, and every
    /// pixel has its colour.
    pub open spec fn rendered<
        G: Fn(&Camera, usize, usize, i64, i64) -> Ray,
        C: Fn(usize, i64, usize) -> i64,
        U: Fn(Color, Color) -> Color,
        E: Fn(Color, usize) -> Color,
    >(&self, camera: Camera, world: World, depth: u8, lens: Lens<G, C, U, E>, canvas: Canvas) -> bool {
        &&& canvas.spec_width() == camera.width
        &&& canvas.spec_height() == camera.height
        &&& canvas@.len() == camera.width * camera.height
        &&& forall|x: usize, y: usize|
            x < camera.width && y < camera.height ==> self.pixel_is(
                camera,
                world,
                x,
                y,
                depth,
                lens,
                canvas@[#[trigger] place(camera.width, x, y)],
            )
    }

    /// The image that the camera makes of the world, pixel by pixel. The
    /// number of the pixels, and that of the samples of a pixel, must fit
    /// the machine.
    pub fn render<
        G: Fn(&Camera, usize, usize, i64, i64) -> Ray,
        C: Fn(usize, i64, usize) -> i64,
        U: Fn(Color, Color) -> Color,
        E: Fn(Color, usize) -> Color,
    >(&self, camera: &Camera, world: &World, max_recursions: u8, lens: &Lens<G, C, U, E>) -> (canvas:
        Canvas)
        requires
            self.ready(),
            lens.ready(),
            camera.width * camera.height <= usize::MAX,
            camera.antialiasing * camera.antialiasing <= usize::MAX,
        ensures
            self.rendered(*camera, *world, max_recursions, *lens, canvas),
    {
        let frame: Canvas = Canvas::new(camera.width, camera.height);
        let count: usize = frame.pixels().len();
        let mut pixels: Vec<Color> = Vec::new();
        let mut index: usize = 0;
        while index < count
            invariant
                index <= count,
                count == camera.width * camera.height,
                count == frame@.len(),
                frame.spec_width() == camera.width,
                frame.spec_height() == camera.height,
                self.ready(),
                lens.ready(),
                camera.antialiasing * camera.antialiasing <= usize::MAX,
                pixels@.len() == index,
                forall|x: usize, y: usize|
                    x < camera.width && y < camera.height && place(camera.width, x, y) < index
                        ==> self.pixel_is(
                        *camera,
                        *world,
                        x,
                        y,
                        max_recursions,
                        *lens,
                        pixels@[#[trigger] place(camera.width, x, y)],
                    ),
            decreases count - index,
        {
            let (x, y) = frame.coordinates(index);
            let color: Color = self.color_of_pixel(camera, world, x, y, max_recursions, lens);
            let ghost before = pixels@;
            pixels.push(color);
            proof {
                assert forall|i: usize, j: usize|
                    i < camera.width && j < camera.height && place(camera.width, i, j) < index
                        + 1 implies self.pixel_is(
                    *camera,
                    *world,
                    i,
                    j,
                    max_recursions,
                    *lens,
                    pixels@[#[trigger] place(camera.width, i, j)],
                ) by {
                    if place(camera.width, i, j) == index {
                        if j < y || (j == y && i <= x) {
                            lemma_places_differ(camera.width, i, j, x, y);
                        } else {
                            lemma_places_differ(camera.width, x, y, i, j);
                        }
                    } else {
                        assert(pixels@[place(camera.width, i, j)] == before[place(
                            camera.width,
                            i,
                            j,
                        )]);
                    }
                }
            }
            index += 1;
        }
        let canvas: Option<Canvas> = Canvas::from_pixels(camera.width, camera.height, pixels);
        let canvas: Canvas = canvas.unwrap();
        proof {
            assert forall|x: usize, y: usize| x < camera.width && y < camera.height implies place(
                camera.width,
                x,
                y,
            ) < count by {
                lemma_place_in_grid(camera.width, camera.height, x, y);
            }
        }
        canvas
    }
}

impl Camera {
    /// The image that the camera makes of the world.
    pub fn render<
        RI: Fn(&Matrix, Vec3) -> Vec3,
        RT: Fn(&Matrix, Vec3) -> Vec3,
        RF: Fn(&Shape, &Ray) -> Facts,
        RS: Fn(&BoundingBox, &Ray) -> (Slab, Slab, Slab),
        HA: Fn(&Ray, i64) -> Vec3,
        HI: Fn(&Matrix, Vec3) -> Vec3,
        HC: Fn(&Shape, Vec3, i64, i64) -> Curve,
        HW: Fn(&Matrix, Vec3) -> Vec3,
        HD: Fn(Vec3, Vec3) -> i64,
        HO: Fn(Vec3, Vec3) -> (Vec3, Vec3),
        HR: Fn(Vec3, Vec3) -> Vec3,
        LI: Fn(&Matrix, Vec3) -> Vec3,
        LK: Fn(Vec3) -> PatternPoint,
        LX: Fn(Color, Color, i64) -> Color,
        LT: Fn(Color, Color) -> Color,
        LS: Fn(Color, i64) -> Color,
        LW: Fn(Vec3, Vec3) -> Vec3,
        LD: Fn(Vec3, Vec3) -> i64,
        LR: Fn(Vec3, Vec3) -> Vec3,
        LP: Fn(i64, i64) -> i64,
        LA: Fn(Color, Color) -> Color,
        LE: Fn(Color, i64, usize) -> Color,
        SA: Fn(Vec3, Vec3) -> (i64, Ray),
        SS: Fn(&AreaLight, usize, usize, i64, i64) -> Vec3,
        SR: Fn(usize, usize) -> i64,
        SD: Fn() -> i64,
        TA: Fn(Color, Color) -> Color,
        TS: Fn(Color, i64) -> Color,
        TB: Fn(Color, Color, Color, i64) -> Color,
        TN: Fn(i64, i64, i64) -> i64,
        TC: Fn(i64) -> i64,
        TH: Fn(i64, i64, i64) -> i64,
        TT: Fn(Vec3, Vec3, i64, i64, i64, i64) -> Vec3,
        G: Fn(&Camera, usize, usize, i64, i64) -> Ray,
        C: Fn(usize, i64, usize) -> i64,
        U: Fn(Color, Color) -> Color,
        E: Fn(Color, usize) -> Color,
    >(
        &self,
        world: &World,
        max_recursions: u8,
        with: &Tracing<RI, RT, RF, RS, HA, HI, HC, HW, HD, HO, HR, LI, LK, LX, LT, LS, LW, LD, LR, LP, LA, LE, SA, SS, SR, SD, TA, TS, TB, TN, TC, TH, TT>,
        lens: &Lens<G, C, U, E>,
    ) -> (canvas: Canvas)
        requires
            with.ready(),
            lens.ready(),
            self.width * self.height <= usize::MAX,
            self.antialiasing * self.antialiasing <= usize::MAX,
        ensures
            with.rendered(*self, *world, max_recursions, *lens, canvas),
    {
        with.render(self, world, max_recursions, lens)
    }
}

} // verus!
