//! The forward pass: its descriptor sets, its per-image render targets, and the
//! commands that draw a frame.
//!
//! Device objects are known by handle; the null handle is 0. Creating and destroying
//! them is left to the caller, who is told what to destroy and when.

pub mod commands;
pub mod frame;
pub mod outputs;
pub mod pass;
pub mod resources;
pub mod sets;
pub mod setup;
pub mod targets;

pub use self::pass::ForwardPass;
