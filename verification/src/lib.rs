//! Verified decision core of a small depth and color ray tracer.
//!
//! The crate holds every rule of the renderer that can be stated over
//! integers: how single-precision values compare, where a pixel sits in a
//! frame buffer, which solid a ray reports, when a traced path ends, which
//! observations a noise model supports, and how a frame is laid out as a
//! bitmap file. Arithmetic on the values themselves is left to the caller,
//! who hands them over as IEEE-754 bit patterns.

pub mod bitmap;
pub mod config;
pub mod noise;
pub mod rotation;
pub mod scalar;
pub mod solid;
pub mod tracer;
