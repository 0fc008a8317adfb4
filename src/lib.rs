//! An interactive mesh viewer's core: a parser for line-oriented mesh text,
//! an orbit camera driven by pointer and wheel input, and the derivation of
//! the per-frame transforms that a rendering backend consumes.

pub mod camera;
pub mod mesh;
pub mod number;
pub mod render;
pub mod text;
pub mod transform;
pub mod viewer;
