//! A verified ray tracer core: fixed-point vector and matrix algebra,
//! ray-shape intersection, procedural patterns, Phong shading, and the
//! recursive world-level color resolution with shadows, reflection,
//! refraction and Fresnel blending.
//!
//! All quantities are fixed-point numbers (`i128` units of 1e-9), and
//! every executable operation carries a contract that pins its result
//! to a mathematical model of the same computation.  The component
//! bounds in the contracts are machine limits: they keep every
//! intermediate product inside an `i128` and are far wider than any
//! scene a renderer meets.

pub mod fixed;
pub mod tuple;
pub mod color;
pub mod matrix;
pub mod transform;
pub mod transformation;
pub mod ray;
pub mod light;
pub mod pattern;
pub mod material;
pub mod shape;
pub mod intersection;
pub mod comps;
pub mod world;
pub mod canvas;
pub mod camera;
pub mod ppm;
