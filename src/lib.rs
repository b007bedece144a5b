//! Verified core of a path-tracing renderer: the parts of the engine whose
//! behaviour is decided by integers and structure rather than by floating
//! point arithmetic.

pub mod bvh;
pub mod image;
pub mod perlin;
pub mod pixel;
pub mod random;
pub mod render;
pub mod scene;
pub mod texture;
