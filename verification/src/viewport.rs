//! The 3D viewport: what a frame's input does to the selection, the running
//! transform, the ruler and the aim, and what the overlays say.

pub mod duplicate;
pub mod frame;
pub mod num_input;
pub mod overlay;
pub mod picking;
pub mod transform;
