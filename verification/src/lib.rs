//! Verified core of a small rigid-body physics engine: the queue and stack
//! used to buffer collisions, sorting and searching helpers, the tags that
//! name bodies and collisions, the arithmetic that lays out GPU buffers, and
//! the decisions taken while picking a device and handling window events.

pub mod data_structures;
pub mod merge_sort;
pub mod binary_search;
pub mod type_traits;
pub mod physics;
pub mod rigidbodies;
pub mod vulkan;
mod strings;
