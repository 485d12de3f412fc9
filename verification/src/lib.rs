//! Runs a shader in a window, with a user interface over it.
//!
//! The crate decides what is to be created on the graphics device and which steps make up a frame
//! or a dispatch; [`render_pass::RenderPass`] is where to start. It does not talk to the device
//! itself: each function describes what to do, and who calls it carries that out.

pub mod bind_group;
pub mod command;
pub mod controller;
pub mod dispatch;
pub mod features;
pub mod flags;
pub mod label;
pub mod laws;
mod outside;
pub mod pipeline;
pub mod render_pass;
pub mod setup;
pub mod single;
pub mod spirv;

pub use crate::controller::ControllerTrait;
pub use crate::render_pass::RenderPass;
