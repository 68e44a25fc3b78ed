//! The decisions around the Vulkan renderer: which device and queue family
//! to use, what a window event does to the simulation, and whether a compute
//! pass gave the expected output.

pub mod compute;
pub mod events;
pub mod selection;
pub mod context;
pub mod frames;
