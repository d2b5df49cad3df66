use ray_tracer::color::Color;
use ray_tracer::material::{Material, DEFAULT_AMBIENT, DEFAULT_DIFFUSE, DEFAULT_SHININESS};
use ray_tracer::matrix::Matrix;
use ray_tracer::pattern::{
    GradientPattern, Pattern, PatternObject, PatternPoint, PlainPattern, StrippedPattern,
    TestPattern,
};
use ray_tracer::bounds::Vec3;
use ray_tracer::scalar::{rank_of_bits, ONE};
use ray_tracer::transformations::Transform;

fn rank(x: f64) -> i64 {
    rank_of_bits(x.to_bits())
}

#[test]
fn the_numbers_of_a_new_material() {
    let m = Material::default();
    assert_eq!(m, Material::new());
    assert_eq!(m.ambient(), rank(0.1));
    assert_eq!(m.diffuse(), rank(0.9));
    assert_eq!(m.specular(), rank(0.9));
    assert_eq!(m.shininess(), rank(200.0));
    assert_eq!(m.reflective(), rank(0.0));
    assert_eq!(m.transparency(), rank(0.0));
    assert_eq!(m.refractive_index(), rank(1.0));
    assert_eq!(*m.pattern(), PatternObject::default());
    assert_eq!(
        *m.pattern().pattern(),
        Pattern::Plain(PlainPattern::new(Color::white()))
    );
    assert_eq!(DEFAULT_AMBIENT, rank(0.1));
    assert_eq!(DEFAULT_DIFFUSE, rank(0.9));
    assert_eq!(DEFAULT_SHININESS, rank(200.0));
}

#[test]
fn a_material_is_built_part_by_part() {
    let pattern = PatternObject::new(Pattern::Test(TestPattern::new()));
    let m = Material::new()
        .with_pattern(pattern)
        .with_ambient(1)
        .with_diffuse(2)
        .with_specular(3)
        .with_shininess(4)
        .with_reflective(5)
        .with_transparency(6)
        .with_refractive_index(7);
    assert_eq!(
        m,
        Material {
            pattern,
            ambient: 1,
            diffuse: 2,
            specular: 3,
            shininess: 4,
            reflective: 5,
            transparency: 6,
            refractive_index: 7,
        }
    );
    assert_eq!(*m.pattern(), pattern);
    assert_eq!(
        (m.ambient(), m.diffuse(), m.specular(), m.shininess()),
        (1, 2, 3, 4)
    );
    assert_eq!((m.reflective(), m.transparency(), m.refractive_index()), (5, 6, 7));
    let only = Material::new().with_specular(3);
    assert_eq!(only, Material { specular: 3, ..Material::new() });
}

#[test]
fn a_material_is_changed_part_by_part() {
    let pattern = PatternObject::new(Pattern::Test(TestPattern::new()));
    let mut m = Material::new();
    m.set_pattern(pattern)
        .set_ambient(1)
        .set_diffuse(2)
        .set_specular(3)
        .set_shininess(4)
        .set_reflective(5)
        .set_transparency(6)
        .set_refractive_index(7);
    assert_eq!(
        m,
        Material::new()
            .with_pattern(pattern)
            .with_ambient(1)
            .with_diffuse(2)
            .with_specular(3)
            .with_shininess(4)
            .with_reflective(5)
            .with_transparency(6)
            .with_refractive_index(7)
    );
    m.set_transparency(9);
    assert_eq!(m.transparency(), 9);
    assert_eq!(m.reflective(), 5);
}

// In these tests a matrix moves a point along x by the first of its
// numbers.

fn shift(by: i64) -> Transform {
    let mut cols = [0; 16];
    cols[0] = by;
    Transform::from_matrix(Matrix::new(cols), &|m: &Matrix| {
        let mut back = m.cols;
        back[0] = -back[0];
        Matrix::new(back)
    })
}

fn shifted(m: &Matrix, p: Vec3) -> Vec3 {
    Vec3::new(p.x + m.cols[0], p.y, p.z)
}

fn whole(p: Vec3) -> PatternPoint {
    PatternPoint { point: p, floor_x: p.x, floor_y: p.y, floor_z: p.z, floor_radius: p.x }
}

#[test]
fn a_pattern_stands_in_the_space_of_its_object() {
    let stripes = Pattern::Stripped(StrippedPattern::new(Color::white(), Color::black()));
    let p = PatternObject::new(stripes);
    assert_eq!(*p.pattern(), stripes);
    assert_eq!(*p.transform(), Transform::identity());
    assert_eq!(*p.inverse_transform(), Matrix::identity());
    let unmoved = Matrix::new([0; 16]);
    let at = |p: &PatternObject, object: &Matrix, x: i64| {
        p.color_at_object(object, Vec3::new(x, 0, 0), &shifted, &whole, &|a: Color, _, _| a)
    };
    assert_eq!(at(&p, &unmoved, 4), Color::white());
    assert_eq!(at(&p, &unmoved, 5), Color::black());
    // the object is moved, the pattern is moved, and both are
    assert_eq!(at(&p, &shift(1).inverse_matrix, 5), Color::white());
    let moved = p.with_transform(shift(1));
    assert_eq!(moved.inverse_transform().cols[0], -1);
    assert_eq!(at(&moved, &unmoved, 5), Color::white());
    assert_eq!(at(&moved, &shift(1).inverse_matrix, 5), Color::black());
    let mut again = moved;
    again.apply_transform(shift(2));
    assert_eq!(*again.transform(), shift(2));
    assert_eq!(at(&again, &shift(1).inverse_matrix, 5), Color::white());
    let shown = PatternObject::new(Pattern::Test(TestPattern::new())).with_transform(shift(3));
    assert_eq!(
        shown.color_at_object(
            &shift(10).inverse_matrix,
            Vec3::new(20, 8, 9),
            &shifted,
            &whole,
            &|a: Color, _, _| a
        ),
        Color::new(7, 8, 9)
    );
    // a blend is mixed at the x of the point in the space of the pattern
    let fading = PatternObject::new(Pattern::Gradient(GradientPattern::new(
        Color::new(1, 2, 3),
        Color::new(10, 20, 30),
    )))
    .with_transform(shift(3));
    assert_eq!(
        fading.color_at_object(
            &shift(10).inverse_matrix,
            Vec3::new(20, 8, 9),
            &shifted,
            &whole,
            &|a: Color, b: Color, x: i64| Color::new(a.r + b.r, a.g + b.g, x)
        ),
        Color::new(11, 22, 7)
    );
}

#[test]
fn the_matrices_that_move_and_stretch() {
    assert_eq!(
        Matrix::identity().cols,
        [ONE, 0, 0, 0, 0, ONE, 0, 0, 0, 0, ONE, 0, 0, 0, 0, ONE]
    );
    assert_eq!(
        Matrix::translation(7, 8, 9).cols,
        [ONE, 0, 0, 0, 0, ONE, 0, 0, 0, 0, ONE, 0, 7, 8, 9, ONE]
    );
    assert_eq!(
        Matrix::scaling(7, 8, 9).cols,
        [7, 0, 0, 0, 0, 8, 0, 0, 0, 0, 9, 0, 0, 0, 0, ONE]
    );
    let first = |_: &Matrix, b: &Matrix| *b;
    let same = |m: &Matrix| *m;
    let t = Transform::new().with_translation(1, 2, 3, &|a: &Matrix, _: &Matrix| *a, &same);
    assert_eq!(t.matrix, Matrix::translation(1, 2, 3));
    assert_eq!(t.inverse_matrix, Matrix::translation(1, 2, 3));
    assert_eq!(t.inverse_transpose_matrix, Matrix::translation(1, 2, 3).transpose());
    let s = t.with_scale(4, 5, 6, &first, &same);
    assert_eq!(s.matrix, Matrix::translation(1, 2, 3));
    let s = t.with_scale(4, 5, 6, &|a: &Matrix, _: &Matrix| *a, &same);
    assert_eq!(s.matrix, Matrix::scaling(4, 5, 6));
    let m = t.with_matrix(&Matrix::new([3; 16]), &|a: &Matrix, _: &Matrix| *a, &same);
    assert_eq!(m.matrix, Matrix::new([3; 16]));
}
