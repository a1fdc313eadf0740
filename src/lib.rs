//! A scene graph of solids, transforms and boolean operators, and the text
//! that describes such a scene to an OpenSCAD-style renderer.
//!
//! Numbers are held in fixed point (millionths of a unit), so every parameter
//! is finite by construction; parameters computed in single precision enter
//! through their bit patterns and are checked there.

pub mod error;
pub mod number;
pub mod node;
pub mod emit;
pub mod scene;
pub mod laws;
