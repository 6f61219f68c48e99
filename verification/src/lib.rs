//! Verified core of a stochastic path-tracing renderer.
//!
//! The floating-point geometry (vectors, intersections, refraction) and the
//! thread plumbing live in the surrounding application; this crate holds the
//! parts whose behaviour can be pinned down exactly: the row-band work
//! partition, the material-scattering and radiance-loop decision machines,
//! the progress-bar text, band reassembly, and the plain-text image encoding.

pub mod assemble;
pub mod intersect;
pub mod ppm;
pub mod progress;
pub mod radiance;
pub mod scatter;
pub mod schedule;
