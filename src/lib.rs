//! Verified building blocks for a series of small GPU rendering programs:
//! the index topology of procedurally generated meshes, the state kept by
//! the debug windows drawn over each frame, the input decisions of the
//! orbiting camera, and the decisions of the event loop.

pub mod camera;
pub mod control;
pub mod frames;
pub mod geometry;
