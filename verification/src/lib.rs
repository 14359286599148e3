//! The deciding core of a recursive ray tracer.
//!
//! A ray tracer computes and decides in turn: it works out where a ray meets
//! an object, then decides which meeting counts; works out angles, then
//! decides whether light reaches a point, is mirrored, or passes through.
//! This crate holds the decisions and the data they are taken on, and proves
//! them. It performs no floating-point arithmetic at all. A real number is a
//! [`scalar::Scalar`], an IEEE 754 binary64 value known by its bit pattern;
//! comparisons, sign changes and floors are exact on the bits and are done
//! here, sums and products are not and are handed in by the caller.
//!
//! * [`scalar`], [`geometry`], [`canvas`], [`matrix`], [`transform`]: numbers,
//!   vectors, colours, matrices and affine maps as data, with what is exact
//!   on them; the pivoting of the matrix inversion.
//! * [`pattern`], [`material`], [`light`], [`object`]: what a scene is made of,
//!   which colour a pattern shows, which parts of the light count, and where a
//!   ray hits a sphere or a plane.
//! * [`intersection`], [`precedence`]: the ordered list of hits, the visible
//!   hit, and the refractive indices of the media that meet there.
//! * [`world`], [`camera`], [`ray`]: the scene, shadows, and the secondary
//!   rays of reflection and refraction with their budget of bounces.
//! * [`examples`]: ready-made scenes.
pub mod camera;
pub mod canvas;
pub mod examples;
pub mod geometry;
pub mod intersection;
pub mod light;
pub mod material;
pub mod matrix;
pub mod object;
pub mod pattern;
pub mod precedence;
pub mod ray;
pub mod scalar;
pub mod transform;
pub mod world;
