//! A Whitted-style ray tracer: the scene, the camera, and everything that
//! is decided about a ray between the two.
//!
//! The library holds the scene graph with its materials, transforms and
//! boxes, the lists of intersections, the lights, the patterns, the camera
//! and the canvas. It decides which intersections a primitive has, in which
//! order a ray meets them, which of them the ray sees, which media lie on
//! either side of it, which groups a ray is spared, and how a hierarchy of
//! boxes is built. It shades what a ray sees: the light that each lamp
//! leaves on the surface and how much of the lamp reaches it, what the
//! surface mirrors and what comes through it, as deep as the caller allows.
//! And it makes the image, pixel by pixel and sample by sample.
//!
//! It does no arithmetic on real numbers. A real number is held as its
//! rank, an integer that orders as the number does (see [`scalar`]), and
//! what has to be worked out in real numbers is asked of functions that the
//! caller hands in: the image of a point under a matrix, the product of two
//! matrices, the roots of a ray's equation. A contract that speaks of such a
//! function says what holds of whatever the function gave.

pub mod bounds;
pub mod builder;
pub mod camera;
pub mod canvas;
pub mod color;
pub mod graph;
pub mod hierarchy;
pub mod intersection;
pub mod lights;
pub mod material;
pub mod matrix;
pub mod model;
pub mod object;
pub mod pattern;
pub mod phong;
pub mod ray;
pub mod scalar;
pub mod sequence;
pub mod shading;
pub mod shapes;
pub mod transformations;
pub mod visibility;
pub mod world;
