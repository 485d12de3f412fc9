//! The render pass: what is set up once, and what is done in each frame.

use crate::bind_group::{
    create_bind_group_layouts, create_bind_groups, BindGroupDescriptor, BindGroupLayoutDescriptor,
    BindGroupLayoutView, BindGroupView, BufferDescriptor, BufferSlot,
};
use crate::command::{
    Command, ConstantsTarget, LoadOp, Offset, RenderPassDescriptor, ShaderArea, StoreOp,
    SurfaceError, UiFrame, Viewport,
};
use crate::dispatch::{divide_rounding_up, Extent3};
use crate::features::Features;
use crate::flags::{fragment_stage, FRAGMENT};
use crate::pipeline::{
    create_pipeline_layouts, create_pipelines, PipelineKind, PipelineLayouts, PipelineLayoutsView,
    Pipelines, PipelinesView,
};
use crate::setup::{list_setup_steps, push_pipeline_steps, SetupStep};
use crate::single::{nan_edges, Edges, Single};
use vstd::prelude::*;

verus! {

/// A bind group of the render pass.
#[derive(Clone, Copy, Debug, PartialEq, Eq)]
pub struct BindGroupData {
    /// How many of its buffers the render pass keeps.
    pub buffers: usize,
}

/// How the renderer of the user interface is made.
#[derive(Clone, Copy, Debug)]
pub struct UiRendererDescriptor {
    pub output_color_format: wgpu::TextureFormat,
    pub output_depth_format: Option<wgpu::TextureFormat>,
    pub msaa_samples: u32,
    pub dithering: bool,
}

/// What is to be created for a new render pass, beside its pipelines and their layouts.
#[derive(Debug)]
pub struct Setup<'a> {
    pub bind_group_layouts: Vec<BindGroupLayoutDescriptor>,
    pub bind_groups: Vec<BindGroupDescriptor<'a>>,
    /// The buffers that the controller gets, in this order.
    pub writable_buffers: Vec<BufferSlot>,
    pub ui_renderer: UiRendererDescriptor,
    /// What is created when, and when the controller gets its buffers.
    pub steps: Vec<SetupStep>,
}

/// What a [`Setup`] says.
pub struct SetupView<'a> {
    pub bind_group_layouts: Seq<BindGroupLayoutView>,
    pub bind_groups: Seq<BindGroupView<'a>>,
    pub writable_buffers: Seq<BufferSlot>,
    pub ui_renderer: UiRendererDescriptor,
    pub steps: Seq<SetupStep>,
}

impl<'a> View for Setup<'a> {
    type V = SetupView<'a>;

    open spec fn view(&self) -> SetupView<'a> {
        SetupView {
            bind_group_layouts: self.bind_group_layouts@.map_values(
                |layout: BindGroupLayoutDescriptor| layout@,
            ),
            bind_groups: self.bind_groups@.map_values(|group: BindGroupDescriptor<'a>| group@),
            writable_buffers: self.writable_buffers@,
            ui_renderer: self.ui_renderer,
            steps: self.steps@,
        }
    }
}

/// The pipelines and bind groups that a frame is drawn with, and the area that the shader filled
/// last.
#[derive(Debug)]
pub struct RenderPass {
    features: Features,
    pipelines: Pipelines,
    pipeline_layouts: PipelineLayouts,
    bind_group_data: Vec<BindGroupData>,
    shader_viewport: Edges,
}

/// What a [`RenderPass`] holds.
pub struct RenderPassView {
    pub features: Features,
    pub pipelines: PipelinesView,
    pub pipeline_layouts: PipelineLayoutsView,
    pub bind_group_data: Seq<BindGroupData>,
    pub shader_viewport: Edges,
}

impl RenderPassView {
    /// There is a compute pipeline just where there should be, the pipelines are laid out over all
    /// bind groups, and the last bind group keeps one buffer per pipeline where constants are
    /// emulated.
    pub open spec fn wf(self) -> bool {
        &&& self.features.compute == self.pipelines.compute is Some
        &&& self.pipeline_layouts == crate::pipeline::all_pipeline_layouts(
            self.features,
            self.bind_group_data.len(),
        )
        &&& self.features.emulate_constants ==> {
            &&& self.bind_group_data.len() > 0
            &&& self.bind_group_data.last().buffers == crate::features::pipeline_count(
                self.features,
            )
        }
    }
}

/// How the renderer of the user interface draws to a surface of format `format`: without depth,
/// each pixel sampled once, without dithering.
pub open spec fn ui_renderer(format: wgpu::TextureFormat) -> UiRendererDescriptor {
    UiRendererDescriptor {
        output_color_format: format,
        output_depth_format: None,
        msaa_samples: 1,
        dithering: false,
    }
}

/// How many layouts, and bind groups, there are for `groups`.
pub open spec fn group_count(features: Features, groups: Seq<Vec<BufferDescriptor>>) -> nat {
    if features.emulate_constants {
        groups.len() + 1
    } else {
        groups.len()
    }
}

/// What is to be created for the buffers `groups` and a surface of format `format`.
pub open spec fn setup_of<'a>(
    features: Features,
    format: wgpu::TextureFormat,
    groups: Seq<Vec<BufferDescriptor<'a>>>,
) -> SetupView<'a> {
    SetupView {
        bind_group_layouts: crate::bind_group::all_layouts(features, groups),
        bind_groups: crate::bind_group::all_setups(features, groups, group_count(features, groups)),
        writable_buffers: crate::bind_group::writable_slots(groups, groups.len()),
        ui_renderer: ui_renderer(format),
        steps: crate::setup::setup_steps(features, groups),
    }
}

/// What a render pass keeps of `bind_group`.
pub open spec fn kept(bind_group: BindGroupView) -> BindGroupData {
    BindGroupData {
        buffers: if bind_group.keep_buffers {
            bind_group.buffers.len() as usize
        } else {
            0
        },
    }
}

/// Whether `pass` is the render pass over the buffers `groups`, with the shader module `shader`,
/// before its first frame. No area has been filled yet, which the edges of NaN stand for.
pub open spec fn is_new_pass<'a>(
    pass: RenderPassView,
    features: Features,
    format: wgpu::TextureFormat,
    shader: Seq<u8>,
    groups: Seq<Vec<BufferDescriptor<'a>>>,
) -> bool {
    &&& pass.features == features
    &&& pass.pipelines == crate::pipeline::all_pipelines(features.compute, format, shader)
    &&& pass.pipeline_layouts == crate::pipeline::all_pipeline_layouts(
        features,
        group_count(features, groups),
    )
    &&& pass.bind_group_data == setup_of(features, format, groups).bind_groups.map_values(
        |group: BindGroupView<'a>| kept(group),
    )
    &&& pass.shader_viewport.all_nan()
}

/// Where the constants of a pipeline go: to the push constants, or to the pipeline's buffer in
/// the last bind group where they are emulated.
pub open spec fn constants_target(pass: RenderPassView, kind: PipelineKind) -> ConstantsTarget {
    if pass.features.emulate_constants {
        ConstantsTarget::Buffer {
            slot: BufferSlot {
                group: (pass.bind_group_data.len() - 1) as usize,
                buffer: match kind {
                    PipelineKind::Render => 0,
                    PipelineKind::Compute => 1,
                },
            },
            offset: 0,
        }
    } else {
        ConstantsTarget::PushConstants {
            stages: match kind {
                PipelineKind::Render => Some(FRAGMENT),
                PipelineKind::Compute => None,
            },
            first_byte: 0,
        }
    }
}

/// All bind groups are bound, each to its position.
pub open spec fn bind_all<'a>(pass: RenderPassView) -> Seq<Command<'a>> {
    Seq::new(
        pass.bind_group_data.len(),
        |i: int| Command::SetBindGroup { index: i as u32, group: i as usize },
    )
}

/// The steps of a dispatch over `dimensions`, with workgroups of `threads`.
pub open spec fn compute_commands<'a>(
    pass: RenderPassView,
    dimensions: Extent3,
    threads: Extent3,
    push_constants: &'a [u8],
) -> Seq<Command<'a>> {
    seq![
        Command::CreateEncoder { label: None },
        Command::BeginComputePass { label: None, timestamps: false },
        Command::SetPipeline(PipelineKind::Compute),
        Command::SetConstants {
            target: constants_target(pass, PipelineKind::Compute),
            data: push_constants,
        },
    ] + bind_all(pass) + seq![
        Command::DispatchWorkgroups(
            Extent3 {
                x: crate::dispatch::workgroups(dimensions.x, threads.x),
                y: crate::dispatch::workgroups(dimensions.y, threads.y),
                z: crate::dispatch::workgroups(dimensions.z, threads.z),
            },
        ),
        Command::EndPass,
        Command::Submit,
    ]
}

/// A pass that draws colors to the surface and leaves them there.
pub open spec fn surface_pass(label: &'static str, load: LoadOp) -> RenderPassDescriptor {
    RenderPassDescriptor {
        label: Some(label),
        load,
        store: StoreOp::Store,
        resolves: false,
        depth_stencil: false,
        occlusion_queries: false,
        timestamps: false,
    }
}

/// The area that the render pass remembers once the shader has filled `edges`.
pub open spec fn next_viewport(viewport: Edges, edges: Edges) -> Edges {
    if viewport.same_rect(edges) {
        viewport
    } else {
        edges
    }
}

/// The offset of an area from the corner of the window.
pub open spec fn corner(edges: Edges) -> Offset {
    Offset { x: edges.left, y: edges.top }
}

/// The steps that fill `area` with the shader's picture. The controller hears of the area's size
/// where the area is not the one that was filled last.
pub open spec fn shader_commands<'a>(pass: RenderPassView, area: ShaderArea) -> Seq<Command<'a>> {
    let offset = corner(next_viewport(pass.shader_viewport, area.edges));
    let resize = if pass.shader_viewport.same_rect(area.edges) {
        Seq::empty()
    } else {
        seq![Command::Resize(area.pixels)]
    };
    seq![
        Command::CreateEncoder { label: Some("Shader Encoder") },
        Command::BeginRenderPass(surface_pass("Shader Render Pass", LoadOp::ClearGreen)),
    ] + resize + seq![
        Command::SetViewport(
            Viewport {
                offset,
                size: area.size,
                min_depth: Single { bits: 0 },
                max_depth: Single { bits: 0x3f80_0000 },
            },
        ),
        Command::SetPipeline(PipelineKind::Render),
        Command::PrepareRender {
            offset,
            target: constants_target(pass, PipelineKind::Render),
        },
    ] + bind_all(pass) + seq![
        Command::Draw { first_vertex: 0, end_vertex: 3, first_instance: 0, end_instance: 1 },
        Command::EndPass,
        Command::Submit,
    ]
}

/// Whether the user interface leaves room for the shader.
pub open spec fn has_room(frame: UiFrame) -> bool {
    frame.available.x.positive() && frame.available.y.positive()
}

/// The steps that draw the user interface.
pub open spec fn overlay_commands<'a>(frame: UiFrame) -> Seq<Command<'a>> {
    Seq::new(frame.textures_set as nat, |i: int| Command::UpdateTexture(i as usize)) + seq![
        Command::CreateEncoder { label: Some("UI Encoder") },
        Command::UpdateBuffers(frame.screen),
        Command::BeginRenderPass(surface_pass("UI Render Pass", LoadOp::Load)),
    ] + Seq::new(frame.textures_free as nat, |i: int| Command::FreeTexture(i as usize)) + seq![
        Command::RenderUi(frame.screen),
        Command::EndPass,
        Command::Submit,
    ]
}

/// The steps that draw the user interface, after the shader's picture where there is room for it.
pub open spec fn ui_commands<'a>(pass: RenderPassView, frame: UiFrame) -> Seq<Command<'a>> {
    if has_room(frame) {
        shader_commands(pass, frame.area) + overlay_commands(frame)
    } else {
        overlay_commands(frame)
    }
}

/// A frame runs no compute shader, reports no error, and ends with a submission.
pub(crate) proof fn lemma_frame_steps(pass: RenderPassView, frame: UiFrame)
    ensures
        ({
            let steps = ui_commands(pass, frame);
            &&& steps.len() > 0
            &&& steps.last() == Command::Submit
            &&& forall|i: int|
                0 <= i < steps.len() ==> !(#[trigger] steps[i] is DispatchWorkgroups)
                    && !(steps[i] is ReportError)
        }),
{
}

/// The render pass after the shader has filled `edges`.
pub open spec fn after_shader(pass: RenderPassView, edges: Edges) -> RenderPassView {
    RenderPassView { shader_viewport: next_viewport(pass.shader_viewport, edges), ..pass }
}

/// The render pass after `frame` has been drawn.
pub open spec fn after_frame(pass: RenderPassView, frame: UiFrame) -> RenderPassView {
    if has_room(frame) {
        after_shader(pass, frame.area.edges)
    } else {
        pass
    }
}

/// The steps that follow what came of asking the surface for a texture.
pub open spec fn render_commands<'a>(
    pass: RenderPassView,
    acquired: Result<UiFrame, SurfaceError>,
) -> Seq<Command<'a>> {
    match acquired {
        Ok(frame) => ui_commands(pass, frame).push(Command::Present),
        Err(SurfaceError::Lost) => seq![
            Command::ReportError(SurfaceError::Lost),
            Command::ConfigureSurface,
        ],
        Err(error) => seq![Command::ReportError(error)],
    }
}

/// What is returned for what came of asking the surface for a texture.
pub open spec fn render_result(acquired: Result<UiFrame, SurfaceError>) -> Result<
    (),
    SurfaceError,
> {
    match acquired {
        Ok(_) => Ok(()),
        Err(SurfaceError::Lost) => Ok(()),
        Err(error) => Err(error),
    }
}

/// The render pass after what came of asking the surface for a texture.
pub open spec fn after_render(
    pass: RenderPassView,
    acquired: Result<UiFrame, SurfaceError>,
) -> RenderPassView {
    match acquired {
        Ok(frame) => after_frame(pass, frame),
        Err(_) => pass,
    }
}

/// The render pass with the shader module `shader` in place of the one before.
pub open spec fn after_reload(
    pass: RenderPassView,
    format: wgpu::TextureFormat,
    shader: Seq<u8>,
) -> RenderPassView {
    RenderPassView {
        pipelines: crate::pipeline::all_pipelines(pass.features.compute, format, shader),
        ..pass
    }
}

impl View for RenderPass {
    type V = RenderPassView;

    closed spec fn view(&self) -> RenderPassView {
        RenderPassView {
            features: self.features,
            pipelines: self.pipelines@,
            pipeline_layouts: self.pipeline_layouts@,
            bind_group_data: self.bind_group_data@,
            shader_viewport: self.shader_viewport,
        }
    }
}

impl RenderPass {
    #[verifier::type_invariant]
    spec fn valid(self) -> bool {
        self@.wf()
    }

    /// Describes a render pass over the buffers of `buffer_data`, and all that is to be created
    /// for it.
    pub fn new<'a>(
        features: Features,
        surface_format: wgpu::TextureFormat,
        shader_bytes: &[u8],
        buffer_data: &[Vec<BufferDescriptor<'a>>],
    ) -> (created: (Self, Setup<'a>))
        requires
            crate::spirv::is_spirv_module(shader_bytes@),
        ensures
            created.0@.wf(),
            is_new_pass(created.0@, features, surface_format, shader_bytes@, buffer_data@),
            created.1@ == setup_of(features, surface_format, buffer_data@),
            created.0@.features == features,
            created.0@.pipelines.module == crate::spirv::spirv_words(shader_bytes@),
            created.0@.pipelines.render.target.format == surface_format,
            created.1.ui_renderer.output_color_format == surface_format,
            created.1.bind_groups@.len() == created.1.bind_group_layouts@.len(),
            created.0@.bind_group_data.len() == created.1.bind_groups@.len(),
    {
        let bind_group_layouts = create_bind_group_layouts(features, buffer_data);
        let ghost layout_views = bind_group_layouts@.map_values(
            |layout: BindGroupLayoutDescriptor| layout@,
        );
        assert(bind_group_layouts@.len() == layout_views.len());
        let pipeline_layouts = create_pipeline_layouts(features, &bind_group_layouts);
        let pipelines = create_pipelines(&pipeline_layouts, surface_format, shader_bytes);
        let (bind_groups, writable_buffers) = create_bind_groups(
            features,
            buffer_data,
            &bind_group_layouts,
        );
        let bind_group_data = Self::keep(&bind_groups);
        let setup = Setup {
            bind_group_layouts,
            bind_groups,
            writable_buffers,
            ui_renderer: UiRendererDescriptor {
                output_color_format: surface_format,
                output_depth_format: None,
                msaa_samples: 1,
                dithering: false,
            },
            steps: list_setup_steps(features, buffer_data),
        };
        assert(setup@ == setup_of(features, surface_format, buffer_data@));
        proof {
            assert(setup@.bind_groups.len() == setup.bind_groups@.len());
            assert(bind_group_data@ =~= setup@.bind_groups.map_values(
                |group: BindGroupView<'a>| kept(group),
            ));
            if features.emulate_constants {
                assert(setup@.bind_groups.last() == crate::bind_group::constants_setup::<'a>(
                    features,
                    group_count(features, buffer_data@),
                ));
                let last = setup.bind_groups@.len() - 1;
                assert(setup.bind_groups@[last]@ == setup@.bind_groups[last]);
                assert(bind_group_data@.last() == kept(setup@.bind_groups[last]));
            }
        }
        let pass = RenderPass {
            features,
            pipelines,
            pipeline_layouts,
            bind_group_data,
            shader_viewport: nan_edges(),
        };
        (pass, setup)
    }

    fn keep(bind_groups: &Vec<BindGroupDescriptor>) -> (data: Vec<BindGroupData>)
        ensures
            data@ == bind_groups@.map_values(|group: BindGroupDescriptor| kept(group@)),
    {
        let mut data: Vec<BindGroupData> = Vec::new();
        let mut i: usize = 0;
        while i < bind_groups.len()
            invariant
                i <= bind_groups.len(),
                data@ == bind_groups@.take(i as int).map_values(
                    |group: BindGroupDescriptor| kept(group@),
                ),
            decreases bind_groups.len() - i,
        {
            let buffers: usize = if bind_groups[i].keep_buffers {
                bind_groups[i].buffers.len()
            } else {
                0
            };
            data.push(BindGroupData { buffers });
            i += 1;
        }
        assert(bind_groups@.take(i as int) =~= bind_groups@);
        data
    }

    /// What the render pass is built for.
    pub fn features(&self) -> (features: Features)
        ensures
            features == self@.features,
    {
        self.features
    }

    /// The pipelines to be created.
    pub fn pipelines(&self) -> (pipelines: &Pipelines)
        ensures
            pipelines@ == self@.pipelines,
    {
        &self.pipelines
    }

    /// The layouts of the pipelines to be created.
    pub fn pipeline_layouts(&self) -> (layouts: &PipelineLayouts)
        ensures
            layouts@ == self@.pipeline_layouts,
    {
        &self.pipeline_layouts
    }

    fn push_bind_groups<'a>(&self, commands: &mut Vec<Command<'a>>)
        ensures
            final(commands)@ == old(commands)@ + bind_all(self@),
    {
        let mut i: usize = 0;
        while i < self.bind_group_data.len()
            invariant
                i <= self.bind_group_data.len(),
                commands@ == old(commands)@ + bind_all(self@).take(i as int),
            decreases self.bind_group_data.len() - i,
        {
            commands.push(Command::SetBindGroup { index: i as u32, group: i });
            i += 1;
        }
        assert(bind_all::<'a>(self@).take(i as int) =~= bind_all(self@));
    }

    fn target(&self, kind: PipelineKind) -> (target: ConstantsTarget)
        ensures
            target == constants_target(self@, kind),
    {
        proof {
            use_type_invariant(self);
        }
        if self.features.emulate_constants {
            let buffer: usize = match kind {
                PipelineKind::Render => 0,
                PipelineKind::Compute => 1,
            };
            let slot = BufferSlot { group: self.bind_group_data.len() - 1, buffer };
            ConstantsTarget::Buffer { slot, offset: 0 }
        } else {
            let stages = match kind {
                PipelineKind::Render => Some(fragment_stage()),
                PipelineKind::Compute => None,
            };
            ConstantsTarget::PushConstants { stages, first_byte: 0 }
        }
    }

    fn surface_pass(label: &'static str, load: LoadOp) -> (pass: RenderPassDescriptor)
        ensures
            pass == surface_pass(label, load),
    {
        RenderPassDescriptor {
            label: Some(label),
            load,
            store: StoreOp::Store,
            resolves: false,
            depth_stencil: false,
            occlusion_queries: false,
            timestamps: false,
        }
    }

    /// Runs the compute shader over `dimensions`, in workgroups of `threads`.
    pub fn compute<'a>(
        &self,
        dimensions: Extent3,
        threads: Extent3,
        push_constants: &'a [u8],
    ) -> (commands: Vec<Command<'a>>)
        requires
            self@.features.compute,
        ensures
            commands@ == compute_commands(self@, dimensions, threads, push_constants),
            forall|i: int|
                0 <= i < commands@.len() ==> match #[trigger] commands@[i] {
                    Command::SetConstants { data, .. } => data == push_constants,
                    Command::DispatchWorkgroups(count) => {
                        &&& count.x == crate::dispatch::workgroups(dimensions.x, threads.x)
                        &&& count.y == crate::dispatch::workgroups(dimensions.y, threads.y)
                        &&& count.z == crate::dispatch::workgroups(dimensions.z, threads.z)
                    },
                    _ => true,
                },
    {
        let workspace = divide_rounding_up(dimensions, threads);
        let mut commands: Vec<Command<'a>> = Vec::new();
        commands.push(Command::CreateEncoder { label: None });
        commands.push(Command::BeginComputePass { label: None, timestamps: false });
        commands.push(Command::SetPipeline(PipelineKind::Compute));
        commands.push(
            Command::SetConstants { target: self.target(PipelineKind::Compute), data: push_constants },
        );
        self.push_bind_groups(&mut commands);
        commands.push(Command::DispatchWorkgroups(workspace));
        commands.push(Command::EndPass);
        commands.push(Command::Submit);
        commands
    }

    /// Draws a frame, given what came of asking the surface for a texture: what the user
    /// interface leaves to be drawn on it, or the error. An error is reported; then a
    /// lost surface is configured anew, and the frame is skipped; any other error is returned.
    pub fn render<'a>(&mut self, acquired: Result<UiFrame, SurfaceError>) -> (rendered: (
        Vec<Command<'a>>,
        Result<(), SurfaceError>,
    ))
        ensures
            rendered.0@ == render_commands::<'a>(old(self)@, acquired),
            rendered.1 == render_result(acquired),
            final(self)@ == after_render(old(self)@, acquired),
            match acquired {
                Ok(frame) => {
                    &&& rendered.0@ == ui_commands(old(self)@, frame).push(Command::Present)
                    &&& rendered.1 == Ok::<(), SurfaceError>(())
                    &&& final(self)@ == after_frame(old(self)@, frame)
                },
                Err(SurfaceError::Lost) => {
                    &&& rendered.0@ == seq![
                        Command::<'a>::ReportError(SurfaceError::Lost),
                        Command::<'a>::ConfigureSurface,
                    ]
                    &&& rendered.1 == Ok::<(), SurfaceError>(())
                    &&& final(self)@ == old(self)@
                },
                Err(error) => {
                    &&& rendered.0@ == seq![Command::<'a>::ReportError(error)]
                    &&& rendered.1 == Err::<(), SurfaceError>(error)
                    &&& final(self)@ == old(self)@
                },
            },
            crate::command::printed_lines(rendered.0@) == match acquired {
                Ok(_) => Seq::<Seq<char>>::empty(),
                Err(error) => seq![crate::command::error_line(error)],
            },
    {
        match acquired {
            Ok(frame) => {
                let mut commands = self.render_ui(frame);
                commands.push(Command::Present);
                proof {
                    lemma_frame_steps(old(self)@, frame);
                    crate::command::lemma_prints_nothing(commands@);
                }
                (commands, Ok(()))
            },
            Err(error) => {
                let mut commands: Vec<Command<'a>> = Vec::new();
                commands.push(Command::ReportError(error));
                let ghost reported = commands@;
                assert(crate::command::printed_lines(reported) == seq![
                    crate::command::error_line(error),
                ]) by {
                    crate::command::lemma_prints_nothing(reported.drop_last());
                }
                match error {
                    SurfaceError::Lost => {
                        commands.push(Command::ConfigureSurface);
                        assert(commands@.drop_last() == reported);
                        (commands, Ok(()))
                    },
                    _ => (commands, Err(error)),
                }
            },
        }
    }

    /// Fills `area` with the shader's picture.
    pub fn render_shader<'a>(&mut self, area: ShaderArea) -> (commands: Vec<Command<'a>>)
        ensures
            commands@ == shader_commands(old(self)@, area),
            final(self)@ == after_shader(old(self)@, area.edges),
            forall|i: int|
                0 <= i < commands@.len() ==> match #[trigger] commands@[i] {
                    Command::Resize(size) => size == area.pixels,
                    Command::SetViewport(viewport) => viewport.size == area.size,
                    _ => true,
                },
    {
        proof {
            use_type_invariant(&*self);
        }
        let mut commands: Vec<Command<'a>> = Vec::new();
        commands.push(Command::CreateEncoder { label: Some("Shader Encoder") });
        commands.push(
            Command::BeginRenderPass(Self::surface_pass("Shader Render Pass", LoadOp::ClearGreen)),
        );
        if !self.shader_viewport.equals(area.edges) {
            self.shader_viewport = area.edges;
            commands.push(Command::Resize(area.pixels));
        }
        let offset = self.shader_offset();
        commands.push(
            Command::SetViewport(
                Viewport {
                    offset,
                    size: area.size,
                    min_depth: Single { bits: 0 },
                    max_depth: Single { bits: 0x3f80_0000 },
                },
            ),
        );
        commands.push(Command::SetPipeline(PipelineKind::Render));
        commands.push(
            Command::PrepareRender { offset, target: self.target(PipelineKind::Render) },
        );
        self.push_bind_groups(&mut commands);
        commands.push(
            Command::Draw { first_vertex: 0, end_vertex: 3, first_instance: 0, end_instance: 1 },
        );
        commands.push(Command::EndPass);
        commands.push(Command::Submit);
        commands
    }

    /// Draws the user interface, after the shader's picture where there is room for it.
    pub fn render_ui<'a>(&mut self, frame: UiFrame) -> (commands: Vec<Command<'a>>)
        ensures
            commands@ == ui_commands(old(self)@, frame),
            final(self)@ == after_frame(old(self)@, frame),
            forall|i: int|
                0 <= i < commands@.len() ==> match #[trigger] commands@[i] {
                    Command::UpdateBuffers(screen) => screen == frame.screen,
                    Command::RenderUi(screen) => screen == frame.screen,
                    _ => true,
                },
    {
        let mut commands: Vec<Command<'a>> = Vec::new();
        if frame.available.x.is_positive() && frame.available.y.is_positive() {
            commands = self.render_shader(frame.area);
        }
        let ghost before = commands@;
        let mut i: usize = 0;
        while i < frame.textures_set
            invariant
                i <= frame.textures_set,
                commands@ == before + Seq::new(i as nat, |j: int| Command::UpdateTexture(j as usize)),
            decreases frame.textures_set - i,
        {
            commands.push(Command::UpdateTexture(i));
            i += 1;
        }
        commands.push(Command::CreateEncoder { label: Some("UI Encoder") });
        commands.push(Command::UpdateBuffers(frame.screen));
        commands.push(
            Command::BeginRenderPass(Self::surface_pass("UI Render Pass", LoadOp::Load)),
        );
        let ghost begun = commands@;
        let mut i: usize = 0;
        while i < frame.textures_free
            invariant
                i <= frame.textures_free,
                commands@ == begun + Seq::new(i as nat, |j: int| Command::FreeTexture(j as usize)),
            decreases frame.textures_free - i,
        {
            commands.push(Command::FreeTexture(i));
            i += 1;
        }
        commands.push(Command::RenderUi(frame.screen));
        commands.push(Command::EndPass);
        commands.push(Command::Submit);
        assert(commands@ == before + overlay_commands(frame));
        commands
    }

    /// Takes the shader module `shader_bytes` in place of the one before, and lists what is to be
    /// created anew.
    pub fn new_module(&mut self, surface_format: wgpu::TextureFormat, shader_bytes: &[u8]) -> (steps:
        Vec<SetupStep>)
        requires
            crate::spirv::is_spirv_module(shader_bytes@),
        ensures
            final(self)@ == after_reload(old(self)@, surface_format, shader_bytes@),
            final(self)@.pipelines.module == crate::spirv::spirv_words(shader_bytes@),
            final(self)@.pipelines.render.target.format == surface_format,
            steps@ == crate::setup::pipeline_steps(old(self)@.features.compute),
    {
        proof {
            use_type_invariant(&*self);
        }
        self.pipelines = create_pipelines(&self.pipeline_layouts, surface_format, shader_bytes);
        let mut steps: Vec<SetupStep> = Vec::new();
        push_pipeline_steps(&mut steps, self.features.compute);
        steps
    }

    /// The offset of the area that the shader filled last, from the corner of the window.
    pub fn shader_offset(&self) -> (offset: Offset)
        ensures
            offset == corner(self@.shader_viewport),
            offset.x == self@.shader_viewport.left,
            offset.y == self@.shader_viewport.top,
    {
        Offset { x: self.shader_viewport.left, y: self.shader_viewport.top }
    }
}

} // verus!
