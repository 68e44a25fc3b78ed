//! Queue and stack containers.

pub mod linearqueue;
pub mod stack;
