//! The discrete core of a recursive ray tracer: colour arithmetic, selection of
//! the nearest hit, composition of shaded light, the bounce budget, the queue of
//! camera moves, mesh indexing and the layout of a frame.
//!
//! Numbers that are measured in space reach this library as 64-bit patterns:
//! it orders them, picks among them and carries them, and leaves the
//! arithmetic on them to its caller.

pub mod animate;
pub mod appearance;
pub mod camera;
pub mod color;
pub mod distance;
pub mod finish;
pub mod frame;
pub mod light;
pub mod mesh;
pub mod plane;
pub mod prism;
pub mod ray;
pub mod scale;
pub mod scene;
pub mod shape;
pub mod sphere;
pub mod util;
pub mod vec3;
