//! A playground for signed-distance-function scenes: a fixed-point
//! ray-marching evaluator, a hot-reload build supervisor, and a renderer
//! resource model, with machine-checked contracts throughout.

pub mod common;
pub mod compiler;
pub mod renderer;
pub mod shader;
pub mod fx;
pub mod sdf;
pub mod vec3;
