//! The verified core of a path tracer.
//!
//! A path tracer estimates the light that arrives at every pixel of an image
//! by following rays through a scene. Its arithmetic is rounded and lives
//! with whoever implements the shapes, the materials and the camera. What
//! is decided on the results of that arithmetic is exact, and it lives here:
//!
//! * [`scalar`], [`vec2`], [`vec3`], [`ray`]: doubles, held by the integers
//!   that order them, and the vectors and rays made of them;
//! * [`aabb`], [`axis_order`]: bounding boxes, their merge, their order along
//!   an axis and the slab test;
//! * [`geometry`], [`shapes`]: hit records, the [`geometry::Hittable`]
//!   capability, lists of shapes with their closest-hit sweep, rectangles,
//!   boxes, and the choices that spheres, rectangles and triangles make
//!   among their crossings;
//! * [`bvh`], [`closest`]: the bounding-volume hierarchy, built by sorting
//!   and halving, its traversal, and the proofs that boxes nest and that
//!   traversal finds what a linear scan finds;
//! * [`material`], [`texture`]: scatter events and emission;
//! * [`ray`], [`renderer`]: the bounce-limited estimate of radiance and the
//!   layout of the pixel buffer;
//! * [`parser`], [`scene`], [`obj_model`], [`transformation`]: the scene
//!   language, what a scene says of view and picture, triangle meshes, and
//!   the matrices of scaling and shifting.

pub mod aabb;
pub mod axis_order;
pub mod bvh;
pub mod closest;
pub mod geometry;
pub mod material;
pub mod obj_model;
pub mod parser;
pub mod ray;
pub mod renderer;
pub mod scalar;
pub mod scene;
pub mod shapes;
pub mod texture;
pub mod transformation;
pub mod vec2;
pub mod vec3;
