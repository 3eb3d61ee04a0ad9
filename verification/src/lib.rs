//! The control core of a stochastic ray tracer for scenes of spheres.
//!
//! The crate holds the parts of the renderer that are made of whole numbers and
//! decisions: the layout of the pixel buffer, the parallel driver that fills it,
//! the rule by which a light path goes on or ends and the loop that follows a
//! path, and the choices of the intersection layer and of transparent surfaces.
//! The arithmetic of rays and colours is the caller's.

pub mod frame;
pub mod hitable;
pub mod integrator;
pub mod material;
pub mod renderer;
