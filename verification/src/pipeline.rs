//! The pipelines that run the shaders, and their layouts.

use crate::bind_group::BindGroupLayoutDescriptor;
use crate::features::{Features, CONSTANTS_SIZE};
use crate::flags::{
    color_writes_all, compute_stage, fragment_stage, COLOR_WRITES_ALL, COMPUTE, FRAGMENT,
};
use crate::spirv::make_spirv;
use vstd::prelude::*;

verus! {

/// The two kinds of pipelines.
#[derive(Clone, Copy, Debug, PartialEq, Eq, Structural)]
pub enum PipelineKind {
    Render,
    Compute,
}

/// A range of push constants, in bytes, and the bits of the `wgpu::ShaderStages` that see it.
#[derive(Clone, Copy, Debug, PartialEq, Eq)]
pub struct PushConstantRange {
    pub stages: u32,
    pub start: u32,
    pub end: u32,
}

/// The layout of a pipeline.
#[derive(Debug)]
pub struct PipelineLayoutDescriptor {
    pub label: Option<&'static str>,
    /// The layouts of its bind groups, by their positions among those of the render pass.
    pub bind_group_layouts: Vec<usize>,
    pub push_constant_ranges: Vec<PushConstantRange>,
}

/// What a [`PipelineLayoutDescriptor`] says.
pub struct PipelineLayoutView {
    pub label: Option<&'static str>,
    pub bind_group_layouts: Seq<usize>,
    pub push_constant_ranges: Seq<PushConstantRange>,
}

impl View for PipelineLayoutDescriptor {
    type V = PipelineLayoutView;

    open spec fn view(&self) -> PipelineLayoutView {
        PipelineLayoutView {
            label: self.label,
            bind_group_layouts: self.bind_group_layouts@,
            push_constant_ranges: self.push_constant_ranges@,
        }
    }
}

/// The layouts of the pipelines of a render pass.
#[derive(Debug)]
pub struct PipelineLayouts {
    pub render: PipelineLayoutDescriptor,
    pub compute: Option<PipelineLayoutDescriptor>,
}

/// What [`PipelineLayouts`] say.
pub struct PipelineLayoutsView {
    pub render: PipelineLayoutView,
    pub compute: Option<PipelineLayoutView>,
}

impl View for PipelineLayouts {
    type V = PipelineLayoutsView;

    open spec fn view(&self) -> PipelineLayoutsView {
        PipelineLayoutsView {
            render: self.render@,
            compute: match self.compute {
                Some(layout) => Some(layout@),
                None => None,
            },
        }
    }
}

/// How vertices make up primitives.
#[derive(Clone, Copy, Debug, PartialEq, Eq)]
pub enum PrimitiveTopology {
    PointList,
    LineList,
    LineStrip,
    TriangleList,
    TriangleStrip,
}

/// Which winding a front face has.
#[derive(Clone, Copy, Debug, PartialEq, Eq)]
pub enum FrontFace {
    Ccw,
    Cw,
}

/// A face of a triangle.
#[derive(Clone, Copy, Debug, PartialEq, Eq)]
pub enum Face {
    Front,
    Back,
}

/// How triangles are drawn.
#[derive(Clone, Copy, Debug, PartialEq, Eq)]
pub enum PolygonMode {
    Fill,
    Line,
    Point,
}

/// The width of the indices of a strip.
#[derive(Clone, Copy, Debug, PartialEq, Eq)]
pub enum IndexFormat {
    Uint16,
    Uint32,
}

/// How primitives are assembled and drawn.
#[derive(Clone, Copy, Debug, PartialEq, Eq)]
pub struct PrimitiveState {
    pub topology: PrimitiveTopology,
    pub strip_index_format: Option<IndexFormat>,
    pub front_face: FrontFace,
    pub cull_mode: Option<Face>,
    pub unclipped_depth: bool,
    pub polygon_mode: PolygonMode,
    pub conservative: bool,
}

/// How many samples a pixel has.
#[derive(Clone, Copy, Debug, PartialEq, Eq)]
pub struct MultisampleState {
    pub count: u32,
    pub mask: u64,
    pub alpha_to_coverage_enabled: bool,
}

/// The color target of a render pipeline.
#[derive(Clone, Copy, Debug)]
pub struct ColorTargetState {
    pub format: wgpu::TextureFormat,
    /// How colors mix with those that are there; without it they replace them.
    pub blend: Option<wgpu::BlendState>,
    /// The bits of the `wgpu::ColorWrites`.
    pub write_mask: u32,
}

/// How a shader is compiled for a pipeline.
#[derive(Clone, Copy, Debug, PartialEq, Eq)]
pub enum CompilationOptions {
    /// As `wgpu` does it by default.
    Standard,
}

/// A render pipeline.
#[derive(Debug)]
pub struct RenderPipelineDescriptor {
    pub label: Option<&'static str>,
    /// Which of the pipeline layouts it has.
    pub layout: PipelineKind,
    pub vertex_entry_point: &'static str,
    pub vertex_buffers: Vec<wgpu::VertexBufferLayout<'static>>,
    pub fragment_entry_point: &'static str,
    /// Of both shaders.
    pub compilation_options: CompilationOptions,
    pub primitive: PrimitiveState,
    pub depth_stencil: Option<wgpu::DepthStencilState>,
    pub multisample: MultisampleState,
    /// The one color target.
    pub target: ColorTargetState,
    /// How many views are drawn at once, where there are several.
    pub multiview: Option<u32>,
    pub cache: Option<wgpu::PipelineCache>,
}

/// What a [`RenderPipelineDescriptor`] says.
pub struct RenderPipelineView {
    pub label: Option<&'static str>,
    pub layout: PipelineKind,
    pub vertex_entry_point: &'static str,
    pub vertex_buffers: Seq<wgpu::VertexBufferLayout<'static>>,
    pub fragment_entry_point: &'static str,
    pub compilation_options: CompilationOptions,
    pub primitive: PrimitiveState,
    pub depth_stencil: Option<wgpu::DepthStencilState>,
    pub multisample: MultisampleState,
    pub target: ColorTargetState,
    pub multiview: Option<u32>,
    pub cache: Option<wgpu::PipelineCache>,
}

impl View for RenderPipelineDescriptor {
    type V = RenderPipelineView;

    open spec fn view(&self) -> RenderPipelineView {
        RenderPipelineView {
            label: self.label,
            layout: self.layout,
            vertex_entry_point: self.vertex_entry_point,
            vertex_buffers: self.vertex_buffers@,
            fragment_entry_point: self.fragment_entry_point,
            compilation_options: self.compilation_options,
            primitive: self.primitive,
            depth_stencil: self.depth_stencil,
            multisample: self.multisample,
            target: self.target,
            multiview: self.multiview,
            cache: self.cache,
        }
    }
}

/// A compute pipeline.
#[derive(Debug)]
pub struct ComputePipelineDescriptor {
    pub label: Option<&'static str>,
    /// Which of the pipeline layouts it has.
    pub layout: PipelineKind,
    pub entry_point: &'static str,
    pub compilation_options: CompilationOptions,
    pub cache: Option<wgpu::PipelineCache>,
}

/// The pipelines of a render pass, all with the same shader module.
#[derive(Debug)]
pub struct Pipelines {
    pub module_label: Option<&'static str>,
    /// The words of the SPIR-V module.
    pub module: Vec<u32>,
    pub render: RenderPipelineDescriptor,
    pub compute: Option<ComputePipelineDescriptor>,
}

/// What [`Pipelines`] say.
pub struct PipelinesView {
    pub module_label: Option<&'static str>,
    pub module: Seq<u32>,
    pub render: RenderPipelineView,
    pub compute: Option<ComputePipelineDescriptor>,
}

impl View for Pipelines {
    type V = PipelinesView;

    open spec fn view(&self) -> PipelinesView {
        PipelinesView {
            module_label: self.module_label,
            module: self.module@,
            render: self.render@,
            compute: self.compute,
        }
    }
}

/// The layout of a pipeline whose constants the stage `stages` sees: all bind groups in their
/// order, and push constants unless they are emulated.
pub open spec fn pipeline_layout(features: Features, layouts: nat, stages: u32) -> PipelineLayoutView {
    PipelineLayoutView {
        label: None,
        bind_group_layouts: Seq::new(layouts, |i: int| i as usize),
        push_constant_ranges: if features.emulate_constants {
            Seq::empty()
        } else {
            seq![PushConstantRange { stages, start: 0, end: CONSTANTS_SIZE }]
        },
    }
}

/// The layouts of all pipelines, over `layouts` bind groups.
pub open spec fn all_pipeline_layouts(features: Features, layouts: nat) -> PipelineLayoutsView {
    PipelineLayoutsView {
        render: pipeline_layout(features, layouts, FRAGMENT),
        compute: if features.compute {
            Some(pipeline_layout(features, layouts, COMPUTE))
        } else {
            None
        },
    }
}

/// The render pipeline: filled, counter-clockwise triangles without vertex buffers, each pixel
/// sampled once, drawn to all channels of a surface of format `format`, in place of what was there.
/// Depths and stencils are not tested, and there is one view and no cache.
pub open spec fn render_pipeline(format: wgpu::TextureFormat) -> RenderPipelineView {
    RenderPipelineView {
        label: None,
        layout: PipelineKind::Render,
        vertex_entry_point: "main_vs",
        vertex_buffers: Seq::empty(),
        fragment_entry_point: "main_fs",
        compilation_options: CompilationOptions::Standard,
        primitive: PrimitiveState {
            topology: PrimitiveTopology::TriangleList,
            strip_index_format: None,
            front_face: FrontFace::Ccw,
            cull_mode: None,
            unclipped_depth: false,
            polygon_mode: PolygonMode::Fill,
            conservative: false,
        },
        depth_stencil: None,
        multisample: MultisampleState {
            count: 1,
            mask: u64::MAX,
            alpha_to_coverage_enabled: false,
        },
        target: ColorTargetState { format, blend: None, write_mask: COLOR_WRITES_ALL },
        multiview: None,
        cache: None,
    }
}

/// The compute pipeline.
pub open spec fn compute_pipeline() -> ComputePipelineDescriptor {
    ComputePipelineDescriptor {
        label: None,
        layout: PipelineKind::Compute,
        entry_point: "main_cs",
        compilation_options: CompilationOptions::Standard,
        cache: None,
    }
}

/// The pipelines of the module `shader`: a compute pipeline where `compute`, beside the render
/// pipeline.
pub open spec fn all_pipelines(
    compute: bool,
    format: wgpu::TextureFormat,
    shader: Seq<u8>,
) -> PipelinesView {
    PipelinesView {
        module_label: None,
        module: crate::spirv::spirv_words(shader),
        render: render_pipeline(format),
        compute: if compute {
            Some(compute_pipeline())
        } else {
            None
        },
    }
}

fn create_pipeline_layout(features: Features, layouts: usize, stages: u32) -> (layout:
    PipelineLayoutDescriptor)
    ensures
        layout@ == pipeline_layout(features, layouts as nat, stages),
{
    let mut bind_group_layouts: Vec<usize> = Vec::new();
    let mut i: usize = 0;
    while i < layouts
        invariant
            i <= layouts,
            bind_group_layouts@ == Seq::new(i as nat, |j: int| j as usize),
        decreases layouts - i,
    {
        bind_group_layouts.push(i);
        i += 1;
    }
    let mut push_constant_ranges: Vec<PushConstantRange> = Vec::new();
    if !features.emulate_constants {
        push_constant_ranges.push(PushConstantRange { stages, start: 0, end: CONSTANTS_SIZE });
    }
    let layout = PipelineLayoutDescriptor { label: None, bind_group_layouts, push_constant_ranges };
    assert(layout@.push_constant_ranges =~= pipeline_layout(
        features,
        layouts as nat,
        stages,
    ).push_constant_ranges);
    layout
}

/// Lays out the pipelines over the bind groups of `bind_group_layouts`.
pub fn create_pipeline_layouts(
    features: Features,
    bind_group_layouts: &[BindGroupLayoutDescriptor],
) -> (layouts: PipelineLayouts)
    ensures
        layouts@ == all_pipeline_layouts(features, bind_group_layouts@.len()),
        layouts.render.bind_group_layouts@.len() == bind_group_layouts@.len(),
        layouts.compute is Some <==> features.compute,
        layouts.compute matches Some(layout) ==> layout.bind_group_layouts@.len()
            == bind_group_layouts@.len(),
{
    let render = create_pipeline_layout(features, bind_group_layouts.len(), fragment_stage());
    let compute = if features.compute {
        Some(create_pipeline_layout(features, bind_group_layouts.len(), compute_stage()))
    } else {
        None
    };
    PipelineLayouts { render, compute }
}

/// Describes the pipelines of the shader module `shader_bytes`, one for each layout.
pub fn create_pipelines(
    pipeline_layouts: &PipelineLayouts,
    surface_format: wgpu::TextureFormat,
    shader_bytes: &[u8],
) -> (pipelines: Pipelines)
    requires
        crate::spirv::is_spirv_module(shader_bytes@),
    ensures
        pipelines@ == all_pipelines(
            pipeline_layouts.compute is Some,
            surface_format,
            shader_bytes@,
        ),
        pipelines.module@ == crate::spirv::spirv_words(shader_bytes@),
        pipelines.render.target.format == surface_format,
        pipelines.compute is Some <==> pipeline_layouts.compute is Some,
{
    let module = make_spirv(shader_bytes);
    let render = RenderPipelineDescriptor {
        label: None,
        layout: PipelineKind::Render,
        vertex_entry_point: "main_vs",
        vertex_buffers: Vec::new(),
        fragment_entry_point: "main_fs",
        compilation_options: CompilationOptions::Standard,
        primitive: PrimitiveState {
            topology: PrimitiveTopology::TriangleList,
            strip_index_format: None,
            front_face: FrontFace::Ccw,
            cull_mode: None,
            unclipped_depth: false,
            polygon_mode: PolygonMode::Fill,
            conservative: false,
        },
        depth_stencil: None,
        multisample: MultisampleState {
            count: 1,
            mask: u64::MAX,
            alpha_to_coverage_enabled: false,
        },
        target: ColorTargetState {
            format: surface_format,
            blend: None,
            write_mask: color_writes_all(),
        },
        multiview: None,
        cache: None,
    };
    let compute = if pipeline_layouts.compute.is_some() {
        Some(
            ComputePipelineDescriptor {
                label: None,
                layout: PipelineKind::Compute,
                entry_point: "main_cs",
                compilation_options: CompilationOptions::Standard,
                cache: None,
            },
        )
    } else {
        None
    };
    Pipelines { module_label: None, module, render, compute }
}

} // verus!
