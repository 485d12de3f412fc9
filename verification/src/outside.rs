//! Types of other crates that values are carried in. Each is opaque here.

use vstd::prelude::*;

verus! {

/// Declares `glam::UVec2`. A size that a controller gets; nothing is said of what it holds.
#[verifier::external_type_specification]
#[verifier::external_body]
pub struct ExUVec2(glam::UVec2);

/// Declares `glam::UVec3`. Dimensions that a controller hands out; nothing is said of what they hold.
#[verifier::external_type_specification]
#[verifier::external_body]
pub struct ExUVec3(glam::UVec3);

/// Declares `glam::Vec2`. An offset that a controller gets; nothing is said of what it holds.
#[verifier::external_type_specification]
#[verifier::external_body]
pub struct ExVec2(glam::Vec2);

/// Declares `glam::DVec2`. A position of the mouse; nothing is said of what it holds.
#[verifier::external_type_specification]
#[verifier::external_body]
pub struct ExDVec2(glam::DVec2);

/// Declares `egui_winit::winit::event::ElementState`.
/// Whether a button was pressed or released, for the controller alone.
#[verifier::external_type_specification]
#[verifier::external_body]
pub struct ExElementState(egui_winit::winit::event::ElementState);

/// Declares `egui_winit::winit::event::MouseButton`.
/// A button of the mouse, for the controller alone.
#[verifier::external_type_specification]
#[verifier::external_body]
pub struct ExMouseButton(egui_winit::winit::event::MouseButton);

/// Declares `egui_winit::winit::event::KeyEvent`.
/// An event of the keyboard, for the controller alone.
#[verifier::external_type_specification]
#[verifier::external_body]
pub struct ExKeyEvent(egui_winit::winit::event::KeyEvent);

/// Declares `egui::Context`. A handle of the user interface, for the controller alone.
#[verifier::external_type_specification]
#[verifier::external_body]
pub struct ExContext(egui::Context);

/// Declares `wgpu::Device`. The graphics device, for the controller alone.
#[verifier::external_type_specification]
#[verifier::external_body]
pub struct ExDevice(wgpu::Device);

/// Declares `wgpu::BindGroupLayout`. A layout that a controller has created; it is only carried.
#[verifier::external_type_specification]
#[verifier::external_body]
pub struct ExBindGroupLayout(wgpu::BindGroupLayout);

/// Declares `wgpu::BindGroup`. A bind group that a controller has created; it is only carried.
#[verifier::external_type_specification]
#[verifier::external_body]
pub struct ExBindGroup(wgpu::BindGroup);

/// Declares `wgpu::Buffer`. A buffer of the graphics device; it is only carried.
#[verifier::external_type_specification]
#[verifier::external_body]
pub struct ExBuffer(wgpu::Buffer);

/// Declares `wgpu::TextureFormat`. The format of a surface; it is only carried.
#[verifier::external_type_specification]
#[verifier::external_body]
pub struct ExTextureFormat(wgpu::TextureFormat);

/// Declares `wgpu::VertexBufferLayout`. The layout of a vertex buffer; it is only carried.
#[verifier::external_type_specification]
#[verifier::external_body]
pub struct ExVertexBufferLayout<'a>(wgpu::VertexBufferLayout<'a>);

/// Declares `wgpu::DepthStencilState`. A test of depths and stencils; it is only carried.
#[verifier::external_type_specification]
#[verifier::external_body]
pub struct ExDepthStencilState(wgpu::DepthStencilState);

/// Declares `wgpu::BlendState`. A way to blend colors; it is only carried.
#[verifier::external_type_specification]
#[verifier::external_body]
pub struct ExBlendState(wgpu::BlendState);

/// Declares `wgpu::PipelineCache`. A cache of compiled pipelines; it is only carried.
#[verifier::external_type_specification]
#[verifier::external_body]
pub struct ExPipelineCache(wgpu::PipelineCache);

} // verus!
