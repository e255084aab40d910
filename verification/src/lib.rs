//! A recursive ray tracer whose geometry is carried out in fixed-point
//! arithmetic: every coordinate, direction component, light intensity and
//! reflectivity is a signed integer counting millionths of a world unit.
//! Working over integers lets every stage of the pipeline — vector algebra,
//! primitive intersection, camera ray generation, lighting and the recursive
//! trace — carry an exact contract.
//!
//! Trigonometry is the one thing the core does not compute: a rotation is
//! driven by a [`vector::Angle`], the pre-evaluated sine and cosine of the
//! rotation angle in the same fixed-point scale, supplied by the host.

pub mod fixed;
pub mod vector;
pub mod ray;
pub mod figures;
pub mod camera;
pub mod material;
pub mod object;
pub mod light;
pub mod raytracer;
