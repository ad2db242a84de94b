//! Verified core of a Monte Carlo path-tracing renderer.
//!
//! The numeric heart of a path tracer is floating-point geometry; what this
//! library verifies is everything around it that admits exact reasoning:
//! the type-erased object store ([`blobvec`]), the scene object index
//! ([`world`]), the structural build of the bounding-volume hierarchy over
//! integer sort keys ([`bvh`]), the permutation tables behind gradient noise
//! ([`perlin`]), image-texture texel addressing ([`texture`]), and the pixel
//! buffer and tiling arithmetic of the renderer ([`renderer`]).

pub mod blobvec;
pub mod bvh;
pub mod perlin;
pub mod renderer;
pub mod rng;
pub mod texture;
pub mod world;
