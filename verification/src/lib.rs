//! A small stochastic ray tracer for scenes of spheres, built on a verified
//! saturating fixed-point scalar type.
//!
//! Every arithmetic step is pinned down by an exact contract over the raw
//! integer representation, so the rendering pipeline — vector algebra, ray
//! geometry, sphere intersection, material scattering and the recursive
//! radiance integrator — is verified free of panics and overflow, and the
//! algebraic laws of the model (orthogonality of the cross product, exactness
//! of reflection, termination of the integrator) are proved as lemmas.

pub mod fixed;
pub mod vector;
pub mod ray;
pub mod sampling;
pub mod materials;
pub mod objects;
pub mod camera;
pub mod scene;
pub mod render;
