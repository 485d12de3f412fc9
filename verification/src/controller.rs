//! What a user of the render pass implements.

use crate::bind_group::BufferDescriptor;
use crate::single::Single;
use egui_winit::winit::event::{ElementState, KeyEvent, MouseButton};
use glam::{DVec2, UVec2, UVec3, Vec2};
use vstd::prelude::*;

verus! {

/// Reacts to the window, and feeds the shaders. The callbacks that have a body do nothing unless
/// they are overridden.
pub trait ControllerTrait: Sized + 'static {
    /// The constants that the shader gets in each frame. To pass them on, the render pass reads
    /// them as bytes.
    type Constants;

    /// What the user interface keeps from frame to frame.
    type UiState;

    /// The handles of the graphics device.
    type GraphicsContext;

    /// The area of the shader has a new size, in pixels.
    fn resize(&mut self, _size: UVec2);

    fn mouse_move(&mut self, _position: DVec2)
        default_ensures
            *final(self) == *old(self),
    {
    }

    fn mouse_scroll(&mut self, _delta: DVec2)
        default_ensures
            *final(self) == *old(self),
    {
    }

    fn mouse_input(&mut self, _state: ElementState, _button: MouseButton)
        default_ensures
            *final(self) == *old(self),
    {
    }

    fn keyboard_input(&mut self, _key: KeyEvent)
        default_ensures
            *final(self) == *old(self),
    {
    }

    /// The constants of a frame whose shader area begins at `offset`.
    fn prepare_render(&mut self, offset: Vec2) -> Self::Constants;

    /// Run the compute shader after rendering. `_compute` takes the dimensions, the threads as
    /// declared in the compute shader, and the push constants; `_allowed_duration` is in seconds.
    fn update<F: Fn(UVec3, UVec3, &[u8])>(&mut self, _compute: F, _allowed_duration: Single)
        default_ensures
            *final(self) == *old(self),
    {
    }

    /// The buffers that the shaders see, one list per bind group.
    fn describe_buffers(&mut self) -> (buffers: Vec<Vec<BufferDescriptor>>)
        default_ensures
            *final(self) == *old(self),
            buffers@.len() == 0,
    {
        vec![]
    }

    /// The buffers that were described as writable, in the order of their descriptions.
    fn receive_buffers(&mut self, _buffers: Vec<wgpu::Buffer>)
        default_ensures
            *final(self) == *old(self),
    {
    }

    fn describe_bind_groups(&mut self, _device: &wgpu::Device) -> (groups: (
        Vec<wgpu::BindGroupLayout>,
        Vec<wgpu::BindGroup>,
    ))
        default_ensures
            *final(self) == *old(self),
            groups.0@.len() == 0,
            groups.1@.len() == 0,
    {
        (vec![], vec![])
    }

    fn ui(
        &mut self,
        _ctx: &egui::Context,
        _ui_state: &mut Self::UiState,
        _graphics_context: &Self::GraphicsContext,
    )
        default_ensures
            *final(self) == *old(self),
            *final(_ui_state) == *old(_ui_state),
    {
    }
}

} // verus!
