//! The primitive and composite shapes, each in its own canonical frame.
//!
//! A primitive decides which intersections a ray has with it from the
//! quantities of the ray's equation. Those quantities are real arithmetic on
//! the ray and are worked out by the caller.

pub mod cube;
pub mod cylinder;
pub mod group;
pub mod mesh;
pub mod plane;
pub mod shape;
pub mod smooth_triangle;
pub mod sphere;
pub mod triangle;

pub use cube::Cube;
pub use cylinder::Cylinder;
pub use group::Group;
pub use mesh::Mesh;
pub use plane::Plane;
pub use shape::Shape;
pub use smooth_triangle::SmoothTriangle;
pub use sphere::Sphere;
pub use triangle::Triangle;
