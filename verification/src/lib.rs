//! A recursive Monte Carlo path tracer that renders a static scene of
//! spheres into a grid of linear-space colors.
//!
//! All real quantities (coordinates, colors, ray parameters) are carried as
//! fixed-point numbers: an `i64` holding the value scaled by [`fx::SCALE`].
//! Every arithmetic step of the renderer is specified exactly over that
//! representation, so the contracts in this crate pin down each computed
//! value to the bit.

pub mod camera;
pub mod fx;
pub mod image;
pub mod material;
pub mod ppm;
pub mod ray;
pub mod render;
pub mod rng;
pub mod sphere;
pub mod vec;
