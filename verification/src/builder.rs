//! The building of a transform step by step, for an object or a pattern.

use vstd::prelude::*;
use crate::bounds::{Axis, Vec3};
use crate::graph::transformed;
use crate::matrix::Matrix;
use crate::object::Object;
use crate::pattern::PatternObject;
use crate::transformations::Transform;

verus! {

/// The arithmetic of matrices, which is the caller's: `multiply` gives the
/// product of two matrices, `invert` the inverse of one, and `turn` the
/// matrix of a turn by an angle about an axis.
pub struct Matrices<M, I, R> {
    pub multiply: M,
    pub invert: I,
    pub turn: R,
}

impl<
    M: Fn(&Matrix, &Matrix) -> Matrix,
    I: Fn(&Matrix) -> Matrix,
    R: Fn(Axis, i64) -> Matrix,
> Matrices<M, I, R> {
    /// Every part of the arithmetic can be asked anything.
    pub open spec fn ready(&self) -> bool {
        &&& forall|a: &Matrix, b: &Matrix| #[trigger] self.multiply.requires((a, b))
        &&& forall|m: &Matrix| #[trigger] self.invert.requires((m,))
        &&& forall|axis: Axis, angle: i64| #[trigger] self.turn.requires((axis, angle))
    }

    /// Whether `after` is `before` followed by a move by the given amounts.
    pub open spec fn moved(&self, before: Transform, x: i64, y: i64, z: i64, after: Transform) -> bool {
        exists|step: Matrix|
            step.cols@ == Matrix::spec_identity().update(12, x).update(13, y).update(14, z)
                && #[trigger] after.follows(before, step, self.multiply, self.invert)
    }

    /// Whether `after` is `before` followed by a stretch by the given
    /// factors.
    pub open spec fn stretched(
        &self,
        before: Transform,
        x: i64,
        y: i64,
        z: i64,
        after: Transform,
    ) -> bool {
        exists|step: Matrix|
            step.cols@ == Matrix::spec_identity().update(0, x).update(5, y).update(10, z)
                && #[trigger] after.follows(before, step, self.multiply, self.invert)
    }

    /// Whether `after` is `before` followed by a turn by the angle about
    /// the axis.
    pub open spec fn turned(&self, before: Transform, axis: Axis, angle: i64, after: Transform) -> bool {
        exists|step: Matrix|
            self.turn.ensures((axis, angle), step) && #[trigger] after.follows(
                before,
                step,
                self.multiply,
                self.invert,
            )
    }
}

impl Transform {
    /// This transform followed by a turn about an axis.
    pub fn with_rotation<
        M: Fn(&Matrix, &Matrix) -> Matrix,
        I: Fn(&Matrix) -> Matrix,
        R: Fn(Axis, i64) -> Matrix,
    >(self, axis: Axis, angle: i64, with: &Matrices<M, I, R>) -> (transform: Self)
        requires
            with.ready(),
        ensures
            with.turned(self, axis, angle, transform),
    {
        let step: Matrix = (with.turn)(axis, angle);
        let transform = self.with_matrix(&step, &with.multiply, &with.invert);
        assert(transform.follows(self, step, with.multiply, with.invert));
        transform
    }

    /// This transform followed by a turn about the x axis.
    pub fn with_rotation_x<
        M: Fn(&Matrix, &Matrix) -> Matrix,
        I: Fn(&Matrix) -> Matrix,
        R: Fn(Axis, i64) -> Matrix,
    >(self, angle: i64, with: &Matrices<M, I, R>) -> (transform: Self)
        requires
            with.ready(),
        ensures
            with.turned(self, Axis::X, angle, transform),
    {
        self.with_rotation(Axis::X, angle, with)
    }

    /// This transform followed by a turn about the y axis.
    pub fn with_rotation_y<
        M: Fn(&Matrix, &Matrix) -> Matrix,
        I: Fn(&Matrix) -> Matrix,
        R: Fn(Axis, i64) -> Matrix,
    >(self, angle: i64, with: &Matrices<M, I, R>) -> (transform: Self)
        requires
            with.ready(),
        ensures
            with.turned(self, Axis::Y, angle, transform),
    {
        self.with_rotation(Axis::Y, angle, with)
    }

    /// This transform followed by a turn about the z axis.
    pub fn with_rotation_z<
        M: Fn(&Matrix, &Matrix) -> Matrix,
        I: Fn(&Matrix) -> Matrix,
        R: Fn(Axis, i64) -> Matrix,
    >(self, angle: i64, with: &Matrices<M, I, R>) -> (transform: Self)
        requires
            with.ready(),
        ensures
            with.turned(self, Axis::Z, angle, transform),
    {
        self.with_rotation(Axis::Z, angle, with)
    }
}

/// A transform in the making, and what it is to be given to when it is
/// made. Each step follows the steps before it.
pub struct TransformBuilder<T> {
    pub transform: Transform,
    pub object: T,
}

impl<T> TransformBuilder<T> {
    pub fn new(transform: Transform, object: T) -> (builder: Self)
        ensures
            builder.transform == transform,
            builder.object == object,
    {
        Self { transform, object }
    }

    pub fn with_translation<
        M: Fn(&Matrix, &Matrix) -> Matrix,
        I: Fn(&Matrix) -> Matrix,
        R: Fn(Axis, i64) -> Matrix,
    >(self, x: i64, y: i64, z: i64, with: &Matrices<M, I, R>) -> (builder: Self)
        requires
            with.ready(),
        ensures
            builder.object == self.object,
            with.moved(self.transform, x, y, z, builder.transform),
    {
        Self {
            transform: self.transform.with_translation(x, y, z, &with.multiply, &with.invert),
            object: self.object,
        }
    }

    pub fn with_scale<
        M: Fn(&Matrix, &Matrix) -> Matrix,
        I: Fn(&Matrix) -> Matrix,
        R: Fn(Axis, i64) -> Matrix,
    >(self, x: i64, y: i64, z: i64, with: &Matrices<M, I, R>) -> (builder: Self)
        requires
            with.ready(),
        ensures
            builder.object == self.object,
            with.stretched(self.transform, x, y, z, builder.transform),
    {
        Self {
            transform: self.transform.with_scale(x, y, z, &with.multiply, &with.invert),
            object: self.object,
        }
    }

    pub fn with_rotation_x<
        M: Fn(&Matrix, &Matrix) -> Matrix,
        I: Fn(&Matrix) -> Matrix,
        R: Fn(Axis, i64) -> Matrix,
    >(self, angle: i64, with: &Matrices<M, I, R>) -> (builder: Self)
        requires
            with.ready(),
        ensures
            builder.object == self.object,
            with.turned(self.transform, Axis::X, angle, builder.transform),
    {
        Self { transform: self.transform.with_rotation_x(angle, with), object: self.object }
    }

    pub fn with_rotation_y<
        M: Fn(&Matrix, &Matrix) -> Matrix,
        I: Fn(&Matrix) -> Matrix,
        R: Fn(Axis, i64) -> Matrix,
    >(self, angle: i64, with: &Matrices<M, I, R>) -> (builder: Self)
        requires
            with.ready(),
        ensures
            builder.object == self.object,
            with.turned(self.transform, Axis::Y, angle, builder.transform),
    {
        Self { transform: self.transform.with_rotation_y(angle, with), object: self.object }
    }

    pub fn with_rotation_z<
        M: Fn(&Matrix, &Matrix) -> Matrix,
        I: Fn(&Matrix) -> Matrix,
        R: Fn(Axis, i64) -> Matrix,
    >(self, angle: i64, with: &Matrices<M, I, R>) -> (builder: Self)
        requires
            with.ready(),
        ensures
            builder.object == self.object,
            with.turned(self.transform, Axis::Z, angle, builder.transform),
    {
        Self { transform: self.transform.with_rotation_z(angle, with), object: self.object }
    }
}

impl TransformBuilder<Object> {
    /// The object with the transform applied to it. `multiply` gives the
    /// product of two matrices, `invert` the inverse of one, and `image` the
    /// point that a matrix makes of a point.
    pub fn transform<
        X: Fn(&Matrix, &Matrix) -> Matrix,
        I: Fn(&Matrix) -> Matrix,
        P: Fn(&Matrix, Vec3) -> Vec3,
    >(
        self,
        multiply: &X,
        invert: &I,
        image: &P,
    ) -> (object: Object)
        requires
            forall|a: &Matrix, b: &Matrix| #[trigger] multiply.requires((a, b)),
            forall|m: &Matrix| #[trigger] invert.requires((m,)),
            forall|m: &Matrix, p: Vec3| #[trigger] image.requires((m, p)),
        ensures
            transformed(self.object, object, self.transform, *multiply, *invert, *image),
    {
        let mut object: Object = self.object;
        object.apply_transform(&self.transform, multiply, invert, image);
        object
    }
}

impl TransformBuilder<PatternObject> {
    /// The pattern with the transform in place of the one it had.
    pub fn transform(self) -> (pattern: PatternObject)
        ensures
            pattern == (PatternObject { transform: self.transform, ..self.object }),
    {
        let mut pattern: PatternObject = self.object;
        pattern.apply_transform(self.transform);
        pattern
    }
}

impl Object {
    /// Begins a transform for the object with a move.
    pub fn with_translation<
        M: Fn(&Matrix, &Matrix) -> Matrix,
        I: Fn(&Matrix) -> Matrix,
        R: Fn(Axis, i64) -> Matrix,
    >(self, x: i64, y: i64, z: i64, with: &Matrices<M, I, R>) -> (builder: TransformBuilder<Object>)
        requires
            with.ready(),
        ensures
            builder.object == self,
            exists|start: Transform|
                #![trigger with.moved(start, x, y, z, builder.transform)]
                start.is_identity() && start.consistent() && with.moved(
                    start,
                    x,
                    y,
                    z,
                    builder.transform,
                ),
    {
        TransformBuilder::new(Transform::default(), self).with_translation(x, y, z, with)
    }

    /// Begins a transform for the object with a stretch.
    pub fn with_scale<
        M: Fn(&Matrix, &Matrix) -> Matrix,
        I: Fn(&Matrix) -> Matrix,
        R: Fn(Axis, i64) -> Matrix,
    >(self, x: i64, y: i64, z: i64, with: &Matrices<M, I, R>) -> (builder: TransformBuilder<Object>)
        requires
            with.ready(),
        ensures
            builder.object == self,
            exists|start: Transform|
                #![trigger with.stretched(start, x, y, z, builder.transform)]
                start.is_identity() && start.consistent() && with.stretched(
                    start,
                    x,
                    y,
                    z,
                    builder.transform,
                ),
    {
        TransformBuilder::new(Transform::default(), self).with_scale(x, y, z, with)
    }

    /// Begins a transform for the object with a turn about the x axis.
    pub fn with_rotation_x<
        M: Fn(&Matrix, &Matrix) -> Matrix,
        I: Fn(&Matrix) -> Matrix,
        R: Fn(Axis, i64) -> Matrix,
    >(self, angle: i64, with: &Matrices<M, I, R>) -> (builder: TransformBuilder<Object>)
        requires
            with.ready(),
        ensures
            builder.object == self,
            exists|start: Transform|
                #![trigger with.turned(start, Axis::X, angle, builder.transform)]
                start.is_identity() && start.consistent() && with.turned(
                    start,
                    Axis::X,
                    angle,
                    builder.transform,
                ),
    {
        TransformBuilder::new(Transform::default(), self).with_rotation_x(angle, with)
    }

    /// Begins a transform for the object with a turn about the y axis.
    pub fn with_rotation_y<
        M: Fn(&Matrix, &Matrix) -> Matrix,
        I: Fn(&Matrix) -> Matrix,
        R: Fn(Axis, i64) -> Matrix,
    >(self, angle: i64, with: &Matrices<M, I, R>) -> (builder: TransformBuilder<Object>)
        requires
            with.ready(),
        ensures
            builder.object == self,
            exists|start: Transform|
                #![trigger with.turned(start, Axis::Y, angle, builder.transform)]
                start.is_identity() && start.consistent() && with.turned(
                    start,
                    Axis::Y,
                    angle,
                    builder.transform,
                ),
    {
        TransformBuilder::new(Transform::default(), self).with_rotation_y(angle, with)
    }

    /// Begins a transform for the object with a turn about the z axis.
    pub fn with_rotation_z<
        M: Fn(&Matrix, &Matrix) -> Matrix,
        I: Fn(&Matrix) -> Matrix,
        R: Fn(Axis, i64) -> Matrix,
    >(self, angle: i64, with: &Matrices<M, I, R>) -> (builder: TransformBuilder<Object>)
        requires
            with.ready(),
        ensures
            builder.object == self,
            exists|start: Transform|
                #![trigger with.turned(start, Axis::Z, angle, builder.transform)]
                start.is_identity() && start.consistent() && with.turned(
                    start,
                    Axis::Z,
                    angle,
                    builder.transform,
                ),
    {
        TransformBuilder::new(Transform::default(), self).with_rotation_z(angle, with)
    }
}

impl PatternObject {
    /// Begins a transform for the pattern with a move.
    pub fn with_translation<
        M: Fn(&Matrix, &Matrix) -> Matrix,
        I: Fn(&Matrix) -> Matrix,
        R: Fn(Axis, i64) -> Matrix,
    >(self, x: i64, y: i64, z: i64, with: &Matrices<M, I, R>) -> (builder: TransformBuilder<
        PatternObject,
    >)
        requires
            with.ready(),
        ensures
            builder.object == self,
            exists|start: Transform|
                #![trigger with.moved(start, x, y, z, builder.transform)]
                start.is_identity() && start.consistent() && with.moved(
                    start,
                    x,
                    y,
                    z,
                    builder.transform,
                ),
    {
        TransformBuilder::new(Transform::default(), self).with_translation(x, y, z, with)
    }

    /// Begins a transform for the pattern with a stretch.
    pub fn with_scale<
        M: Fn(&Matrix, &Matrix) -> Matrix,
        I: Fn(&Matrix) -> Matrix,
        R: Fn(Axis, i64) -> Matrix,
    >(self, x: i64, y: i64, z: i64, with: &Matrices<M, I, R>) -> (builder: TransformBuilder<
        PatternObject,
    >)
        requires
            with.ready(),
        ensures
            builder.object == self,
            exists|start: Transform|
                #![trigger with.stretched(start, x, y, z, builder.transform)]
                start.is_identity() && start.consistent() && with.stretched(
                    start,
                    x,
                    y,
                    z,
                    builder.transform,
                ),
    {
        TransformBuilder::new(Transform::default(), self).with_scale(x, y, z, with)
    }

    /// Begins a transform for the pattern with a turn about the x axis.
    pub fn with_rotation_x<
        M: Fn(&Matrix, &Matrix) -> Matrix,
        I: Fn(&Matrix) -> Matrix,
        R: Fn(Axis, i64) -> Matrix,
    >(self, angle: i64, with: &Matrices<M, I, R>) -> (builder: TransformBuilder<PatternObject>)
        requires
            with.ready(),
        ensures
            builder.object == self,
            exists|start: Transform|
                #![trigger with.turned(start, Axis::X, angle, builder.transform)]
                start.is_identity() && start.consistent() && with.turned(
                    start,
                    Axis::X,
                    angle,
                    builder.transform,
                ),
    {
        TransformBuilder::new(Transform::default(), self).with_rotation_x(angle, with)
    }

    /// Begins a transform for the pattern with a turn about the y axis.
    pub fn with_rotation_y<
        M: Fn(&Matrix, &Matrix) -> Matrix,
        I: Fn(&Matrix) -> Matrix,
        R: Fn(Axis, i64) -> Matrix,
    >(self, angle: i64, with: &Matrices<M, I, R>) -> (builder: TransformBuilder<PatternObject>)
        requires
            with.ready(),
        ensures
            builder.object == self,
            exists|start: Transform|
                #![trigger with.turned(start, Axis::Y, angle, builder.transform)]
                start.is_identity() && start.consistent() && with.turned(
                    start,
                    Axis::Y,
                    angle,
                    builder.transform,
                ),
    {
        TransformBuilder::new(Transform::default(), self).with_rotation_y(angle, with)
    }

    /// Begins a transform for the pattern with a turn about the z axis.
    pub fn with_rotation_z<
        M: Fn(&Matrix, &Matrix) -> Matrix,
        I: Fn(&Matrix) -> Matrix,
        R: Fn(Axis, i64) -> Matrix,
    >(self, angle: i64, with: &Matrices<M, I, R>) -> (builder: TransformBuilder<PatternObject>)
        requires
            with.ready(),
        ensures
            builder.object == self,
            exists|start: Transform|
                #![trigger with.turned(start, Axis::Z, angle, builder.transform)]
                start.is_identity() && start.consistent() && with.turned(
                    start,
                    Axis::Z,
                    angle,
                    builder.transform,
                ),
    {
        TransformBuilder::new(Transform::default(), self).with_rotation_z(angle, with)
    }
}

} // verus!
