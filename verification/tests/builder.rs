use std::cell::RefCell;

use ray_tracer::bounds::{Axis, BoundingBox, Vec3};
use ray_tracer::builder::{Matrices, TransformBuilder};
use ray_tracer::matrix::Matrix;
use ray_tracer::object::Object;
use ray_tracer::pattern::{Pattern, PatternObject, TestPattern};
use ray_tracer::shapes::{Shape, Sphere};
use ray_tracer::transformations::Transform;

// In these tests the product of two matrices is the first of them, so that
// a transform shows its last step, and the inverse of a matrix is its
// transpose. The matrix of a turn holds its axis and its angle.

fn turn(axis: Axis, angle: i64) -> Matrix {
    let mut cols = [0; 16];
    cols[0] = match axis {
        Axis::X => 1,
        Axis::Y => 2,
        Axis::Z => 3,
    };
    cols[1] = angle;
    Matrix::new(cols)
}

type Steps<'a> = RefCell<Vec<(Matrix, Matrix)>>;

fn logging<'a>(
    steps: &'a Steps<'a>,
) -> Matrices<impl Fn(&Matrix, &Matrix) -> Matrix + 'a, fn(&Matrix) -> Matrix, fn(Axis, i64) -> Matrix>
{
    Matrices {
        multiply: move |a: &Matrix, b: &Matrix| {
            steps.borrow_mut().push((*a, *b));
            *a
        },
        invert: |m| m.transpose(),
        turn,
    }
}

fn made_of(step: Matrix) -> Transform {
    Transform::from_matrix(step, &|m: &Matrix| m.transpose())
}

#[test]
fn a_transform_is_turned_about_each_axis() {
    let steps = RefCell::new(Vec::new());
    let with = logging(&steps);
    let start = made_of(Matrix::translation(1, 2, 3));
    assert_eq!(start.with_rotation_x(7, &with), made_of(turn(Axis::X, 7)));
    assert_eq!(start.with_rotation_y(8, &with), made_of(turn(Axis::Y, 8)));
    assert_eq!(start.with_rotation_z(9, &with), made_of(turn(Axis::Z, 9)));
    assert_eq!(start.with_rotation(Axis::Y, -1, &with), made_of(turn(Axis::Y, -1)));
    // each turn is multiplied onto the transform that was there
    assert_eq!(
        *steps.borrow(),
        vec![
            (turn(Axis::X, 7), start.matrix),
            (turn(Axis::Y, 8), start.matrix),
            (turn(Axis::Z, 9), start.matrix),
            (turn(Axis::Y, -1), start.matrix),
        ]
    );
}

#[test]
fn each_step_of_a_builder_follows_the_steps_before_it() {
    let steps = RefCell::new(Vec::new());
    let with = logging(&steps);
    let ball = Object::new(Shape::Sphere(Sphere::new())).with_id(4);
    let builder = TransformBuilder::new(Transform::default(), ball)
        .with_translation(1, 2, 3, &with)
        .with_rotation_x(4, &with)
        .with_rotation_y(5, &with)
        .with_rotation_z(6, &with)
        .with_scale(7, 8, 9, &with);
    assert_eq!(builder.object.id(), 4);
    assert_eq!(builder.transform, made_of(Matrix::scaling(7, 8, 9)));
    assert_eq!(
        *steps.borrow(),
        vec![
            (Matrix::translation(1, 2, 3), Matrix::identity()),
            (turn(Axis::X, 4), Matrix::translation(1, 2, 3)),
            (turn(Axis::Y, 5), turn(Axis::X, 4)),
            (turn(Axis::Z, 6), turn(Axis::Y, 5)),
            (Matrix::scaling(7, 8, 9), turn(Axis::Z, 6)),
        ]
    );
}

#[test]
fn an_object_gets_the_transform_that_was_built_for_it() {
    let steps = RefCell::new(Vec::new());
    let with = logging(&steps);
    let ball = || Object::new(Shape::Sphere(Sphere::new())).with_id(4);
    let shifted = |_: &Matrix, p: Vec3| Vec3::new(p.x + 1, p.y, p.z);
    let moved = ball()
        .with_translation(1, 2, 3, &with)
        .transform(&with.multiply, &with.invert, &shifted);
    assert_eq!(moved.id(), 4);
    assert_eq!(*moved.transform(), made_of(Matrix::translation(1, 2, 3)));
    // the transform that was built follows the one that the object had:
    // its matrix is multiplied onto that of the object from the left
    assert_eq!(
        steps.borrow().last(),
        Some(&(Matrix::translation(1, 2, 3), Matrix::identity()))
    );
    // the box of the object is that of its shape under the new transform
    let unit = Sphere::new().bounds();
    assert_eq!(
        *moved.bounds(),
        BoundingBox::new(
            Vec3::new(unit.min.x + 1, unit.min.y, unit.min.z),
            Vec3::new(unit.max.x + 1, unit.max.y, unit.max.z)
        )
    );
    let scaled = ball().with_scale(1, 2, 3, &with).transform(&with.multiply, &with.invert, &shifted);
    assert_eq!(*scaled.transform(), made_of(Matrix::scaling(1, 2, 3)));
    let about_x = ball().with_rotation_x(5, &with).transform(&with.multiply, &with.invert, &shifted);
    assert_eq!(*about_x.transform(), made_of(turn(Axis::X, 5)));
    let about_y = ball().with_rotation_y(6, &with).transform(&with.multiply, &with.invert, &shifted);
    assert_eq!(*about_y.transform(), made_of(turn(Axis::Y, 6)));
    let about_z = ball().with_rotation_z(7, &with).with_scale(2, 2, 2, &with);
    assert_eq!(about_z.transform, made_of(Matrix::scaling(2, 2, 2)));
    assert_eq!(steps.borrow().last(), Some(&(Matrix::scaling(2, 2, 2), turn(Axis::Z, 7))));
}

#[test]
fn a_pattern_gets_the_transform_that_was_built_for_it() {
    let steps = RefCell::new(Vec::new());
    let with = logging(&steps);
    let pattern = || PatternObject::new(Pattern::Test(TestPattern::new()));
    let moved = pattern().with_translation(1, 2, 3, &with).transform();
    assert_eq!(*moved.pattern(), Pattern::Test(TestPattern::new()));
    assert_eq!(*moved.transform(), made_of(Matrix::translation(1, 2, 3)));
    assert_eq!(*pattern().with_scale(4, 5, 6, &with).transform().transform(), made_of(Matrix::scaling(4, 5, 6)));
    assert_eq!(*pattern().with_rotation_x(1, &with).transform().transform(), made_of(turn(Axis::X, 1)));
    assert_eq!(*pattern().with_rotation_y(2, &with).transform().transform(), made_of(turn(Axis::Y, 2)));
    let twice = pattern().with_rotation_z(3, &with).with_translation(9, 9, 9, &with).transform();
    assert_eq!(*twice.transform(), made_of(Matrix::translation(9, 9, 9)));
    assert_eq!(steps.borrow().last(), Some(&(Matrix::translation(9, 9, 9), turn(Axis::Z, 3))));
}
