//! Tags that name rigid bodies and collisions, and the index arithmetic of a
//! scene's GPU buffers.

pub mod collision;
pub mod rigidbodies;
pub mod scene;
pub mod rigidbody;
