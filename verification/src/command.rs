//! The steps of a frame and of a dispatch, in the order in which they are carried out.

use crate::bind_group::BufferSlot;
use crate::dispatch::Extent3;
use crate::pipeline::PipelineKind;
use crate::single::{Edges, Single};
use vstd::prelude::*;

verus! {

/// Two unsigned extents, one per axis.
#[derive(Clone, Copy, Debug, PartialEq, Eq, Structural)]
pub struct Extent2 {
    pub x: u32,
    pub y: u32,
}

/// A point, or the size of an area.
#[derive(Clone, Copy, Debug, PartialEq, Eq, Structural)]
pub struct Offset {
    pub x: Single,
    pub y: Single,
}

/// The area of the window that the shader fills.
#[derive(Clone, Copy, Debug, PartialEq, Eq)]
pub struct ShaderArea {
    /// The area in pixels.
    pub edges: Edges,
    /// Its width and height, rounded down.
    pub size: Offset,
    /// The same as integers.
    pub pixels: Extent2,
}

/// The size of the window, and how many of its pixels make up a point of the user interface.
#[derive(Clone, Copy, Debug, PartialEq, Eq)]
pub struct ScreenDescriptor {
    pub size_in_pixels: Extent2,
    pub pixels_per_point: Single,
}

/// What the user interface leaves to be drawn.
#[derive(Clone, Copy, Debug, PartialEq, Eq)]
pub struct UiFrame {
    /// The width and height, in points, of the area that it leaves free.
    pub available: Offset,
    /// That area in pixels.
    pub area: ShaderArea,
    pub screen: ScreenDescriptor,
    /// How many textures have changed.
    pub textures_set: usize,
    /// How many textures are no longer needed.
    pub textures_free: usize,
}

/// What a render pass does with the surface when it begins.
#[derive(Clone, Copy, Debug, PartialEq, Eq)]
pub enum LoadOp {
    /// Fill it with green.
    ClearGreen,
    /// Keep what it shows.
    Load,
}

/// What a render pass does with its picture when it ends.
#[derive(Clone, Copy, Debug, PartialEq, Eq)]
pub enum StoreOp {
    /// Leave it on the surface.
    Store,
    /// Give it up.
    Discard,
}

/// A render pass over the surface.
#[derive(Clone, Copy, Debug, PartialEq, Eq)]
pub struct RenderPassDescriptor {
    pub label: Option<&'static str>,
    pub load: LoadOp,
    pub store: StoreOp,
    /// Whether the picture is resolved to another texture.
    pub resolves: bool,
    /// Whether there are depths and stencils beside the colors.
    pub depth_stencil: bool,
    /// Whether hidden samples are counted.
    pub occlusion_queries: bool,
    /// Whether the pass is timed.
    pub timestamps: bool,
}

/// The part of the surface that is drawn to, and the range of depths.
#[derive(Clone, Copy, Debug, PartialEq, Eq)]
pub struct Viewport {
    pub offset: Offset,
    pub size: Offset,
    pub min_depth: Single,
    pub max_depth: Single,
}

/// Where the constants of a pipeline go.
#[derive(Clone, Copy, Debug, PartialEq, Eq)]
pub enum ConstantsTarget {
    /// To the push constants from `first_byte` on. A render pass names the bits of the
    /// `wgpu::ShaderStages`; a compute pass has no need to.
    PushConstants { stages: Option<u32>, first_byte: u32 },
    /// To a buffer, at `offset`.
    Buffer { slot: BufferSlot, offset: u64 },
}

/// One step. Each is one call to the graphics device, the user interface or the controller.
#[derive(Clone, Copy, Debug, PartialEq, Eq)]
pub enum Command<'a> {
    /// Create the command encoder of what follows.
    CreateEncoder { label: Option<&'static str> },
    /// Begin a render pass.
    BeginRenderPass(RenderPassDescriptor),
    /// Begin a compute pass; `timestamps` where it is timed.
    BeginComputePass { label: Option<&'static str>, timestamps: bool },
    /// Tell the controller the new size of the shader's area.
    Resize(Extent2),
    SetViewport(Viewport),
    SetPipeline(PipelineKind),
    /// Ask the controller for the constants of the frame, and pass them to `target`.
    PrepareRender { offset: Offset, target: ConstantsTarget },
    /// Pass `data` to `target`.
    SetConstants { target: ConstantsTarget, data: &'a [u8] },
    /// Bind the group at position `group` to `index`.
    SetBindGroup { index: u32, group: usize },
    /// Draw the vertices from `first_vertex` to before `end_vertex`, once for each instance from
    /// `first_instance` to before `end_instance`.
    Draw { first_vertex: u32, end_vertex: u32, first_instance: u32, end_instance: u32 },
    /// Run this many workgroups.
    DispatchWorkgroups(Extent3),
    /// Upload the changed texture at this position.
    UpdateTexture(usize),
    /// Upload the vertices and indices of the user interface.
    UpdateBuffers(ScreenDescriptor),
    /// Free the texture at this position among those no longer needed.
    FreeTexture(usize),
    /// Draw the user interface.
    RenderUi(ScreenDescriptor),
    /// End the pass that was begun last.
    EndPass,
    /// Submit what the encoder has recorded.
    Submit,
    /// Print the line of [`error_report`].
    ReportError(SurfaceError),
    /// Configure the surface anew.
    ConfigureSurface,
    /// Show the surface.
    Present,
}

/// Why the surface gave no texture to draw to.
#[derive(Clone, Copy, Debug, PartialEq, Eq, Structural)]
pub enum SurfaceError {
    Timeout,
    Outdated,
    Lost,
    OutOfMemory,
    Other,
}

/// The name of an error.
pub open spec fn error_name(error: SurfaceError) -> Seq<char> {
    match error {
        SurfaceError::Timeout => "Timeout"@,
        SurfaceError::Outdated => "Outdated"@,
        SurfaceError::Lost => "Lost"@,
        SurfaceError::OutOfMemory => "OutOfMemory"@,
        SurfaceError::Other => "Other"@,
    }
}

/// The line that reports an error.
pub open spec fn error_line(error: SurfaceError) -> Seq<char> {
    "get_current_texture error: "@ + error_name(error)
}

/// The lines that `commands` print.
pub open spec fn printed_lines(commands: Seq<Command>) -> Seq<Seq<char>>
    decreases commands.len(),
{
    if commands.len() == 0 {
        Seq::empty()
    } else {
        let before = printed_lines(commands.drop_last());
        match commands.last() {
            Command::ReportError(error) => before.push(error_line(error)),
            _ => before,
        }
    }
}

/// The line to print where the surface gave no texture: that it did not, and why.
pub fn error_report(error: SurfaceError) -> (line: String)
    ensures
        line@ == "get_current_texture error: "@ + error_name(error),
        line@ == error_line(error),
{
    let name: &'static str = match error {
        SurfaceError::Timeout => "Timeout",
        SurfaceError::Outdated => "Outdated",
        SurfaceError::Lost => "Lost",
        SurfaceError::OutOfMemory => "OutOfMemory",
        SurfaceError::Other => "Other",
    };
    let mut line = "get_current_texture error: ".to_owned();
    line.append(name);
    line
}

/// Steps none of which reports an error print nothing.
pub(crate) proof fn lemma_prints_nothing(commands: Seq<Command>)
    requires
        forall|i: int| 0 <= i < commands.len() ==> !(#[trigger] commands[i] is ReportError),
    ensures
        printed_lines(commands) == Seq::<Seq<char>>::empty(),
    decreases commands.len(),
{
    if commands.len() > 0 {
        lemma_prints_nothing(commands.drop_last());
    }
}

/// Each error is reported by its name, after words that are the same for all.
pub proof fn law_error_lines(error: SurfaceError)
    ensures
        error is Timeout ==> error_line(error) == "get_current_texture error: Timeout"@,
        error is Outdated ==> error_line(error) == "get_current_texture error: Outdated"@,
        error is Lost ==> error_line(error) == "get_current_texture error: Lost"@,
        error is OutOfMemory ==> error_line(error) == "get_current_texture error: OutOfMemory"@,
        error is Other ==> error_line(error) == "get_current_texture error: Other"@,
{
    reveal_strlit("get_current_texture error: ");
    reveal_strlit("Timeout");
    reveal_strlit("Outdated");
    reveal_strlit("Lost");
    reveal_strlit("OutOfMemory");
    reveal_strlit("Other");
    reveal_strlit("get_current_texture error: Timeout");
    reveal_strlit("get_current_texture error: Outdated");
    reveal_strlit("get_current_texture error: Lost");
    reveal_strlit("get_current_texture error: OutOfMemory");
    reveal_strlit("get_current_texture error: Other");
}

/// Steps print their lines in their order: those of the first ones, then those of the others. One
/// step prints one line where it reports an error, and else none.
pub proof fn law_lines_in_order(first: Seq<Command>, second: Seq<Command>, command: Command)
    ensures
        printed_lines(first + second) == printed_lines(first) + printed_lines(second),
        printed_lines(seq![command]) == match command {
            Command::ReportError(error) => seq![error_line(error)],
            _ => Seq::<Seq<char>>::empty(),
        },
    decreases second.len(),
{
    assert(seq![command].drop_last() =~= Seq::empty());
    reveal_with_fuel(printed_lines, 2);
    if second.len() == 0 {
        assert(first + second =~= first);
        assert(printed_lines(first) + printed_lines(second) =~= printed_lines(first));
    } else {
        law_lines_in_order(first, second.drop_last(), command);
        assert((first + second).drop_last() =~= first + second.drop_last());
        assert(printed_lines(first + second) =~= printed_lines(first) + printed_lines(second));
    }
}

} // verus!
