//! Region-algebra compiler for signed-distance fields over a fixed-point
//! planar map frame.
//!
//! A caller builds a program of SDF instructions through [`compiler::SdfCompiler`],
//! compiles it once into an evaluation routine keyed by a structural hash,
//! binds the program's constant payloads to per-tile argument buffers, and
//! evaluates the resulting field at sample positions. Distances are whole
//! centimeters; positions are fixed-point planar coordinates, so evaluation is
//! deterministic across platforms.

pub mod cache;
pub mod calendar;
pub mod circle;
pub mod compiled;
pub mod compiler;
pub mod game;
pub mod identifiers;
pub mod instruction;
pub mod laws;
pub mod math;
pub mod question;
pub mod sem;
pub mod shader;
pub mod tile;
pub mod transit;
pub mod types;

pub use types::Centimeters;
pub use types::Position;
