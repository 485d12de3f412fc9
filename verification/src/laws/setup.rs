//! What is created for a render pass, in terms of what the controller describes.

use crate::bind_group::{
    BindGroupDescriptor, BindGroupLayoutDescriptor, BindGroupLayoutEntry, BufferContents,
    BufferDescriptor, BufferInitDescriptor,
};
use crate::command::{Command, ConstantsTarget, ShaderArea};
use crate::dispatch::Extent3;
use crate::features::Features;
use crate::flags::{COLOR_WRITES_ALL, COMPUTE, COPY_DST, FRAGMENT, STORAGE};
use crate::laws::frame::StepKind;
use crate::pipeline::{
    CompilationOptions, FrontFace, PipelineKind, PipelineLayoutDescriptor, PipelineLayoutView,
    PipelineLayouts, Pipelines, PipelinesView, PolygonMode, PrimitiveTopology,
};
use crate::render_pass::{RenderPassView, Setup, SetupView};
use crate::setup::SetupStep;
use vstd::prelude::*;

verus! {

/// Whether the entry binds a single storage buffer of any size, at no offset.
pub open spec fn binds_whole_buffer(entry: BindGroupLayoutEntry) -> bool {
    &&& !entry.has_dynamic_offset
    &&& entry.min_binding_size is None
    &&& entry.count is None
}

/// There is a layout for every described group, in their order. It has an entry for every described
/// buffer, in their order, which the buffer's shader stages see, and which is read-only just where
/// the buffer is, whatever else the description says.
pub proof fn law_layouts_follow_descriptions(
    features: Features,
    groups: Seq<Vec<BufferDescriptor>>,
    i: int,
)
    requires
        0 <= i < groups.len(),
    ensures
        ({
            let layouts = crate::bind_group::all_layouts(features, groups);
            let group = groups[i]@;
            &&& i < layouts.len()
            &&& layouts[i].label == "bind_group_layout "@ + crate::label::decimal(i as nat)
            &&& layouts[i].entries.len() == group.len()
            &&& forall|j: int|
                0 <= j < group.len() ==> {
                    let entry = #[trigger] layouts[i].entries[j];
                    &&& entry.binding == j as u32
                    &&& entry.visibility == group[j].shader_stages
                    &&& entry.read_only == group[j].read_only
                    &&& binds_whole_buffer(entry)
                }
        }),
{
}

/// Beside the layouts of the described groups there is one more just where constants are emulated,
/// the last. Its first entry is for the fragment shader; a second one is for the compute shader,
/// where there is one. Shaders only read them.
pub proof fn law_layout_of_constants(features: Features, groups: Seq<Vec<BufferDescriptor>>)
    ensures
        ({
            let layouts = crate::bind_group::all_layouts(features, groups);
            &&& !features.emulate_constants ==> layouts.len() == groups.len()
            &&& features.emulate_constants ==> {
                let layout = layouts[groups.len() as int];
                &&& layouts.len() == groups.len() + 1
                &&& layout.label == "emulated push constants layout"@
                &&& layout.entries.len() == if features.compute {
                    2int
                } else {
                    1
                }
                &&& layout.entries[0].visibility == FRAGMENT
                &&& features.compute ==> layout.entries[1].visibility == COMPUTE
                &&& forall|j: int|
                    0 <= j < layout.entries.len() ==> {
                        let entry = #[trigger] layout.entries[j];
                        &&& entry.binding == j
                        &&& entry.read_only
                        &&& binds_whole_buffer(entry)
                    }
            }
        }),
{
}

/// Whether `buffer` is the one that `descriptor` asks for: its data, as storage, and as the target
/// of copies just where the controller writes to it.
pub open spec fn is_described_by(
    buffer: BufferInitDescriptor,
    descriptor: BufferDescriptor,
) -> bool {
    &&& buffer.label == Some("Bind Group Buffer")
    &&& buffer.contents == BufferContents::Data(descriptor.data)
    &&& descriptor.cpu_writable ==> buffer.usage == STORAGE | COPY_DST
    &&& !descriptor.cpu_writable ==> buffer.usage == STORAGE
}

/// There is a bind group for every described group that has a layout, in their order. It has the
/// layout of its number, holds every described buffer, in their order, and binds each, whole, to
/// the binding of its number. The render pass does not keep the buffers.
pub proof fn law_bind_groups_follow_descriptions(
    features: Features,
    groups: Seq<Vec<BufferDescriptor>>,
    layouts: nat,
    i: int,
)
    requires
        0 <= i < groups.len(),
        i < layouts,
        groups.len() <= usize::MAX,
        groups[i]@.len() <= usize::MAX,
    ensures
        ({
            let setups = crate::bind_group::all_setups(features, groups, layouts);
            let group = groups[i]@;
            &&& i < setups.len()
            &&& setups[i].label == "bind_group "@ + crate::label::decimal(i as nat)
            &&& setups[i].layout == i
            &&& setups[i].buffers.len() == group.len()
            &&& forall|j: int|
                0 <= j < group.len() ==> is_described_by(
                    #[trigger] setups[i].buffers[j],
                    group[j],
                )
            &&& setups[i].entries.len() == group.len()
            &&& forall|j: int|
                0 <= j < group.len() ==> {
                    &&& (#[trigger] setups[i].entries[j]).binding == j as u32
                    &&& setups[i].entries[j].buffer == j
                }
            &&& !setups[i].keep_buffers
        }),
{
}

/// A described group without a layout has no bind group. Just where constants are emulated, there
/// is one more bind group, the last, with the last of the layouts. It holds, for each pipeline, 128
/// zero bytes as storage that can be the target of copies; the render pass keeps these buffers.
pub proof fn law_bind_group_of_constants(
    features: Features,
    groups: Seq<Vec<BufferDescriptor>>,
    layouts: nat,
)
    requires
        layouts <= usize::MAX,
        features.emulate_constants ==> layouts > 0,
    ensures
        ({
            let setups = crate::bind_group::all_setups(features, groups, layouts);
            let described = if groups.len() < layouts {
                groups.len()
            } else {
                layouts
            };
            let pipelines: int = if features.compute {
                2
            } else {
                1
            };
            &&& crate::bind_group::paired(groups, layouts) == described
            &&& !features.emulate_constants ==> setups.len() == described
            &&& features.emulate_constants ==> {
                let setup = setups[described as int];
                &&& setups.len() == described + 1
                &&& setup.label == "emulated push constants bind group"@
                &&& setup.layout == layouts - 1
                &&& setup.keep_buffers
                &&& setup.buffers.len() == pipelines
                &&& forall|j: int|
                    0 <= j < pipelines ==> {
                        let buffer = #[trigger] setup.buffers[j];
                        &&& buffer.label is None
                        &&& buffer.contents == BufferContents::Zeroed(128)
                        &&& buffer.usage == STORAGE | COPY_DST
                    }
                &&& setup.entries.len() == pipelines
                &&& forall|j: int|
                    0 <= j < pipelines ==> {
                        &&& (#[trigger] setup.entries[j]).binding == j
                        &&& setup.entries[j].buffer == j
                    }
            }
        }),
{
}

/// Whether a pipeline of this layout sees the bind groups `0..layouts`, each at its number, and, just
/// where constants are not emulated, 128 bytes of push constants at the stage `stage`.
pub open spec fn lays_out_all(
    layout: PipelineLayoutView,
    features: Features,
    layouts: nat,
    stage: u32,
) -> bool {
    &&& layout.label is None
    &&& layout.bind_group_layouts.len() == layouts
    &&& forall|i: int| 0 <= i < layouts ==> #[trigger] layout.bind_group_layouts[i] == i
    &&& features.emulate_constants ==> layout.push_constant_ranges.len() == 0
    &&& !features.emulate_constants ==> {
        let ranges = layout.push_constant_ranges;
        ranges.len() == 1 && ranges[0].stages == stage && ranges[0].start == 0 && ranges[0].end
            == 128
    }
}

/// The render pipeline sees all bind groups, and its push constants are the fragment shader's. There
/// is a compute pipeline just where there should be; it sees all bind groups as well, and its push
/// constants are the compute shader's.
pub proof fn law_pipelines_see_all_groups(features: Features, layouts: nat)
    requires
        layouts <= usize::MAX,
    ensures
        ({
            let laid_out = crate::pipeline::all_pipeline_layouts(features, layouts);
            &&& lays_out_all(laid_out.render, features, layouts, FRAGMENT)
            &&& laid_out.compute is Some <==> features.compute
            &&& laid_out.compute matches Some(layout) ==> lays_out_all(
                layout,
                features,
                layouts,
                COMPUTE,
            )
        }),
{
}

/// Whether `pipelines` run the words `module`, on a surface of format `format`: the vertex shader
/// `main_vs` on filled triangles of either winding, without vertex buffers; the fragment shader
/// `main_fs` on each pixel once, in place of what all channels held; and, where `compute`, the
/// compute shader `main_cs`. Each pipeline has the layout of its kind.
pub open spec fn run_module(
    pipelines: PipelinesView,
    module: Seq<u32>,
    format: wgpu::TextureFormat,
    compute: bool,
) -> bool {
    let render = pipelines.render;
    &&& pipelines.module_label is None
    &&& pipelines.module == module
    &&& render.label is None
    &&& render.layout is Render
    &&& render.vertex_entry_point@ == "main_vs"@
    &&& render.vertex_buffers.len() == 0
    &&& render.fragment_entry_point@ == "main_fs"@
    &&& render.compilation_options == CompilationOptions::Standard
    &&& render.primitive.topology == PrimitiveTopology::TriangleList
    &&& render.primitive.strip_index_format is None
    &&& render.primitive.front_face == FrontFace::Ccw
    &&& render.primitive.cull_mode is None
    &&& !render.primitive.unclipped_depth
    &&& render.primitive.polygon_mode == PolygonMode::Fill
    &&& !render.primitive.conservative
    &&& render.depth_stencil is None
    &&& render.multisample.count == 1
    &&& render.multisample.mask == u64::MAX
    &&& !render.multisample.alpha_to_coverage_enabled
    &&& render.target.format == format
    &&& render.target.blend is None
    &&& render.target.write_mask == COLOR_WRITES_ALL
    &&& render.multiview is None
    &&& render.cache is None
    &&& pipelines.compute is Some <==> compute
    &&& pipelines.compute matches Some(pipeline) ==> {
        &&& pipeline.label is None
        &&& pipeline.layout is Compute
        &&& pipeline.entry_point@ == "main_cs"@
        &&& pipeline.compilation_options == CompilationOptions::Standard
        &&& pipeline.cache is None
    }
}

/// All pipelines run the module that they are made of, and draw to the surface that they are made
/// for.
pub proof fn law_pipelines_run_their_module(
    compute: bool,
    format: wgpu::TextureFormat,
    shader: Seq<u8>,
)
    ensures
        run_module(
            crate::pipeline::all_pipelines(compute, format, shader),
            crate::spirv::spirv_words(shader),
            format,
            compute,
        ),
{
}

/// After a module has been loaded, the render pass runs that module, whatever it is built for and
/// whatever it ran before, and draws to the given surface. Nothing else of it changes.
pub proof fn law_reload_runs_the_new_module(
    pass: RenderPassView,
    format: wgpu::TextureFormat,
    shader: Seq<u8>,
)
    ensures
        ({
            let after = crate::render_pass::after_reload(pass, format, shader);
            &&& run_module(
                after.pipelines,
                crate::spirv::spirv_words(shader),
                format,
                pass.features.compute,
            )
            &&& after.features == pass.features
            &&& after.pipeline_layouts == pass.pipeline_layouts
            &&& after.bind_group_data == pass.bind_group_data
            &&& after.shader_viewport == pass.shader_viewport
        }),
{
}

/// Of two modules, those whose words differ give pipelines that differ, whatever the render pass is
/// built for.
pub proof fn law_reload_tells_modules_apart(
    pass: RenderPassView,
    format: wgpu::TextureFormat,
    shader: Seq<u8>,
    other_format: wgpu::TextureFormat,
    other: Seq<u8>,
)
    requires
        crate::spirv::spirv_words(shader) != crate::spirv::spirv_words(other) || format
            != other_format,
    ensures
        crate::render_pass::after_reload(pass, format, shader).pipelines
            != crate::render_pass::after_reload(pass, other_format, other).pipelines,
{
}

/// To load a module, the module is created first, then the render pipeline, then the compute
/// pipeline where there is one, each once.
pub proof fn law_reload_steps(compute: bool)
    ensures
        ({
            let steps = crate::setup::pipeline_steps(compute);
            &&& steps.len() == if compute {
                3int
            } else {
                2
            }
            &&& steps[0] == SetupStep::CreateShaderModule
            &&& steps[1] == SetupStep::CreatePipeline(PipelineKind::Render)
            &&& compute ==> steps[2] == SetupStep::CreatePipeline(PipelineKind::Compute)
        }),
{
}

/// A set-up is made of what the laws above speak of: the layouts and bind groups of the described
/// buffers, one bind group per layout; the buffers that the controller writes to, of all groups;
/// and a renderer of the user interface for the surface, without depth, multisampling or dithering.
pub proof fn law_setup_has_its_parts(
    features: Features,
    format: wgpu::TextureFormat,
    groups: Seq<Vec<BufferDescriptor>>,
)
    ensures
        ({
            let setup = crate::render_pass::setup_of(features, format, groups);
            let count = if features.emulate_constants {
                groups.len() + 1
            } else {
                groups.len()
            };
            &&& setup.bind_group_layouts == crate::bind_group::all_layouts(features, groups)
            &&& setup.bind_group_layouts.len() == count
            &&& setup.bind_groups == crate::bind_group::all_setups(features, groups, count)
            &&& setup.bind_groups.len() == count
            &&& setup.writable_buffers == crate::bind_group::writable_slots(groups, groups.len())
            &&& setup.ui_renderer.output_color_format == format
            &&& setup.ui_renderer.output_depth_format is None
            &&& setup.ui_renderer.msaa_samples == 1
            &&& !setup.ui_renderer.dithering
            &&& setup.steps == crate::setup::setup_steps(features, groups)
        }),
{
}

/// A new render pass is what it was asked to be: built for `features`, running `shader`, over one
/// bind group per layout. It keeps the buffers of constants, one per pipeline, where constants are
/// emulated, and no others. It has filled no area: the edges that it remembers are no numbers.
pub proof fn law_new_pass(
    pass: RenderPassView,
    features: Features,
    format: wgpu::TextureFormat,
    shader: Seq<u8>,
    groups: Seq<Vec<BufferDescriptor>>,
)
    requires
        crate::render_pass::is_new_pass(pass, features, format, shader, groups),
        groups.len() < usize::MAX,
    ensures
        ({
            let count = if features.emulate_constants {
                groups.len() + 1
            } else {
                groups.len()
            };
            let pipelines: int = if features.compute {
                2
            } else {
                1
            };
            &&& pass.features == features
            &&& run_module(
                pass.pipelines,
                crate::spirv::spirv_words(shader),
                format,
                features.compute,
            )
            &&& lays_out_all(pass.pipeline_layouts.render, features, count, FRAGMENT)
            &&& pass.pipeline_layouts.compute is Some <==> features.compute
            &&& pass.pipeline_layouts.compute matches Some(layout) ==> lays_out_all(
                layout,
                features,
                count,
                COMPUTE,
            )
            &&& pass.bind_group_data.len() == count
            &&& forall|i: int|
                0 <= i < groups.len() ==> (#[trigger] pass.bind_group_data[i]).buffers == 0
            &&& features.emulate_constants ==> pass.bind_group_data[groups.len() as int].buffers
                == pipelines
            &&& pass.shader_viewport.left.nan()
            &&& pass.shader_viewport.top.nan()
            &&& pass.shader_viewport.right.nan()
            &&& pass.shader_viewport.bottom.nan()
        }),
{
    let setup = crate::render_pass::setup_of(features, format, groups);
    law_setup_has_its_parts(features, format, groups);
    law_pipelines_see_all_groups(features, setup.bind_groups.len());
    law_bind_group_of_constants(features, groups, setup.bind_groups.len());
    assert forall|i: int| 0 <= i < setup.bind_groups.len() implies #[trigger] pass.bind_group_data[i]
        == crate::render_pass::kept(setup.bind_groups[i]) by {}
}

/// Whether constants that go to `target` are seen by the stage `stage`: they are granted to it by
/// the push constant range of `layout`, or go to a buffer that the render pass keeps, that can be
/// the target of copies, and that is bound to an entry which the stage sees.
pub open spec fn reaches(
    target: ConstantsTarget,
    stage: u32,
    layout: PipelineLayoutView,
    pass: RenderPassView,
    setup: SetupView,
) -> bool {
    match target {
        ConstantsTarget::PushConstants { stages, first_byte } => {
            &&& layout.push_constant_ranges.len() == 1
            &&& layout.push_constant_ranges[0].stages == stage
            &&& layout.push_constant_ranges[0].start == first_byte
            &&& stages matches Some(bits) ==> bits == stage
        },
        ConstantsTarget::Buffer { slot, offset } => {
            let entry = setup.bind_group_layouts[slot.group as int].entries[slot.buffer as int];
            let group = setup.bind_groups[slot.group as int];
            &&& slot.group < pass.bind_group_data.len()
            &&& slot.buffer < pass.bind_group_data[slot.group as int].buffers
            &&& offset == 0
            &&& entry.visibility == stage
            &&& group.entries[slot.buffer as int].binding == entry.binding
            &&& group.entries[slot.buffer as int].buffer == slot.buffer
            &&& group.buffers[slot.buffer as int].usage == STORAGE | COPY_DST
        },
    }
}

/// In every dispatch the constants reach the compute shader, and in every picture of the shader the
/// controller's constants reach the fragment shader: in a new render pass, and in any later state
/// of it, since frames and modules change neither its bind groups nor its layouts.
pub proof fn law_constants_reach_their_shader(
    created: RenderPassView,
    pass: RenderPassView,
    features: Features,
    format: wgpu::TextureFormat,
    shader: Seq<u8>,
    groups: Seq<Vec<BufferDescriptor>>,
    dimensions: Extent3,
    threads: Extent3,
    push_constants: &[u8],
    area: ShaderArea,
)
    requires
        crate::render_pass::is_new_pass(created, features, format, shader, groups),
        groups.len() < usize::MAX,
        pass.features == created.features,
        pass.bind_group_data == created.bind_group_data,
        pass.pipeline_layouts == created.pipeline_layouts,
    ensures
        ({
            let setup = crate::render_pass::setup_of(features, format, groups);
            let constants = crate::laws::frame::of_kind(
                crate::render_pass::shader_commands(pass, area),
                StepKind::PrepareRender,
            );
            &&& constants.len() == 1
            &&& constants[0] matches Command::PrepareRender { target, .. } && reaches(
                target,
                FRAGMENT,
                pass.pipeline_layouts.render,
                pass,
                setup,
            )
        }),
        features.compute ==> {
            let setup = crate::render_pass::setup_of(features, format, groups);
            let constants = crate::laws::frame::of_kind(
                crate::render_pass::compute_commands(pass, dimensions, threads, push_constants),
                StepKind::SetConstants,
            );
            &&& constants.len() == 1
            &&& constants[0] matches Command::SetConstants { target, data } && {
                &&& data == push_constants
                &&& pass.pipeline_layouts.compute matches Some(layout) && reaches(
                    target,
                    COMPUTE,
                    layout,
                    pass,
                    setup,
                )
            }
        },
{
    law_new_pass(created, features, format, shader, groups);
    law_setup_has_its_parts(features, format, groups);
    law_layout_of_constants(features, groups);
    law_bind_group_of_constants(
        features,
        groups,
        crate::render_pass::setup_of(features, format, groups).bind_groups.len(),
    );
    crate::laws::frame::law_dispatch_is_one_pass(pass, dimensions, threads, push_constants);
    crate::laws::frame::law_shader_is_one_pass(pass, area);
}

/// What is said of a set-up is said of its own lists, item by item.
pub proof fn law_views_of_setup(
    setup: Setup,
    layout: BindGroupLayoutDescriptor,
    group: BindGroupDescriptor,
)
    ensures
        setup@.bind_group_layouts.len() == setup.bind_group_layouts@.len(),
        forall|i: int|
            0 <= i < setup.bind_group_layouts@.len() ==> #[trigger] setup@.bind_group_layouts[i]
                == setup.bind_group_layouts@[i]@,
        setup@.bind_groups.len() == setup.bind_groups@.len(),
        forall|i: int|
            0 <= i < setup.bind_groups@.len() ==> #[trigger] setup@.bind_groups[i]
                == setup.bind_groups@[i]@,
        setup@.writable_buffers == setup.writable_buffers@,
        setup@.ui_renderer == setup.ui_renderer,
        setup@.steps == setup.steps@,
        layout@.label == layout.label@,
        layout@.entries == layout.entries@,
        group@.label == group.label@,
        group@.layout == group.layout,
        group@.buffers == group.buffers@,
        group@.entries == group.entries@,
        group@.keep_buffers == group.keep_buffers,
{
}

/// What is said of pipelines and their layouts is said of their own descriptions.
pub proof fn law_views_of_pipelines(
    pipelines: Pipelines,
    layouts: PipelineLayouts,
    layout: PipelineLayoutDescriptor,
)
    ensures
        pipelines@.module_label == pipelines.module_label,
        pipelines@.module == pipelines.module@,
        pipelines@.compute == pipelines.compute,
        pipelines@.render.label == pipelines.render.label,
        pipelines@.render.layout == pipelines.render.layout,
        pipelines@.render.vertex_entry_point == pipelines.render.vertex_entry_point,
        pipelines@.render.vertex_buffers == pipelines.render.vertex_buffers@,
        pipelines@.render.fragment_entry_point == pipelines.render.fragment_entry_point,
        pipelines@.render.compilation_options == pipelines.render.compilation_options,
        pipelines@.render.primitive == pipelines.render.primitive,
        pipelines@.render.depth_stencil == pipelines.render.depth_stencil,
        pipelines@.render.multisample == pipelines.render.multisample,
        pipelines@.render.target == pipelines.render.target,
        pipelines@.render.multiview == pipelines.render.multiview,
        pipelines@.render.cache == pipelines.render.cache,
        layouts@.render == layouts.render@,
        layouts@.compute is Some <==> layouts.compute is Some,
        layouts.compute is Some ==> layouts@.compute->0 == layouts.compute->0@,
        layout@.label == layout.label,
        layout@.bind_group_layouts == layout.bind_group_layouts@,
        layout@.push_constant_ranges == layout.push_constant_ranges@,
{
}

} // verus!
