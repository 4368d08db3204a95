//! A rotating wireframe cube rendered into a grid of characters.
//!
//! Every quantity is held in exact fixed-point arithmetic: a value `v` stands
//! for `v / FIX`. The pipeline is transform, perspective projection,
//! back-face culling and line rasterization into a `Frame`.
pub mod fixed;
pub mod linalg;
pub mod projection;
pub mod cull;
pub mod raster;
pub mod cube;
