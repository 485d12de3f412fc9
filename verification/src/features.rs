//! What a render pass can be built for.

use vstd::prelude::*;

verus! {

/// What the render pass is built for.
#[derive(Clone, Copy, Debug, PartialEq, Eq, Structural)]
pub struct Features {
    /// There is a compute pipeline beside the render pipeline.
    pub compute: bool,
    /// Push constants are passed in storage buffers of a bind group of their own, for devices
    /// that have none.
    pub emulate_constants: bool,
}

/// The size in bytes of the push constants of one pipeline.
pub const CONSTANTS_SIZE: u32 = 128;

/// How many pipelines there are.
pub open spec fn pipeline_count(features: Features) -> nat {
    if features.compute {
        2
    } else {
        1
    }
}

} // verus!
