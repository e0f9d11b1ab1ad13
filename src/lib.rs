//! Discrete core of a recursive ray tracer: the tag algebra of points,
//! vectors and colours, dense matrix layout, the scene tree, materials and
//! patterns, visible-hit selection, nested-medium bookkeeping for
//! refraction, the secondary-ray decisions of the shading recursion, the
//! pixel buffer and its plain-text encoding. Floating-point geometry and
//! colour arithmetic are layered on top of these by the caller.

pub mod canvas;
pub mod intersection;
pub mod material;
pub mod matrix;
pub mod pattern;
pub mod ppm;
pub mod shading;
pub mod sphere;
pub mod tree;
pub mod vec3;
