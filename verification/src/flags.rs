//! The bits of the flag sets that the render pass hands to the graphics device.

use vstd::prelude::*;

verus! {

/// The bits of `wgpu::BufferUsages::STORAGE`.
pub const STORAGE: u32 = 0x80;

/// The bits of `wgpu::BufferUsages::COPY_DST`.
pub const COPY_DST: u32 = 0x08;

/// The bits of `wgpu::ShaderStages::FRAGMENT`.
pub const FRAGMENT: u32 = 0x02;

/// The bits of `wgpu::ShaderStages::COMPUTE`.
pub const COMPUTE: u32 = 0x04;

/// The bits of `wgpu::ColorWrites::ALL`.
pub const COLOR_WRITES_ALL: u32 = 0x0f;

/// Calls `wgpu::BufferUsages::bits` on `STORAGE`, whose one bit is bit 7.
#[verifier::external_body]
pub(crate) fn storage_usage() -> (bits: u32)
    ensures
        bits == STORAGE,
{
    wgpu::BufferUsages::STORAGE.bits()
}

/// Calls `wgpu::BufferUsages::bits` on `COPY_DST`, whose one bit is bit 3.
#[verifier::external_body]
pub(crate) fn copy_dst_usage() -> (bits: u32)
    ensures
        bits == COPY_DST,
{
    wgpu::BufferUsages::COPY_DST.bits()
}

/// Calls `wgpu::ShaderStages::bits` on `FRAGMENT`, whose one bit is bit 1.
#[verifier::external_body]
pub(crate) fn fragment_stage() -> (bits: u32)
    ensures
        bits == FRAGMENT,
{
    wgpu::ShaderStages::FRAGMENT.bits()
}

/// Calls `wgpu::ShaderStages::bits` on `COMPUTE`, whose one bit is bit 2.
#[verifier::external_body]
pub(crate) fn compute_stage() -> (bits: u32)
    ensures
        bits == COMPUTE,
{
    wgpu::ShaderStages::COMPUTE.bits()
}

/// Calls `wgpu::ColorWrites::bits` on `ALL`, which holds the bits 0 to 3, one per channel.
#[verifier::external_body]
pub(crate) fn color_writes_all() -> (bits: u32)
    ensures
        bits == COLOR_WRITES_ALL,
{
    wgpu::ColorWrites::ALL.bits()
}

} // verus!
