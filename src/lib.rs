//! A small 3D scene engine: the render-target binding layer, the scene graph,
//! the camera input dispatch and the per-frame plan, stated and proved with Verus.
//! Everything that touches the GPU is expressed as a list of commands that a
//! backend executes in order.
use vstd::prelude::*;

pub mod camera;
pub mod command;
pub mod event;
pub mod framebuffers;
pub mod geometry;
pub mod object;
pub mod window;

verus! {

} // verus!
