use easy_shader_runner::bind_group::{
    create_bind_group_layouts, create_bind_groups, BindGroupEntry, BindGroupLayoutEntry,
    BufferContents, BufferDescriptor, BufferSlot,
};
use easy_shader_runner::features::Features;
use easy_shader_runner::label::numbered_label;
use easy_shader_runner::pipeline::{
    create_pipeline_layouts, create_pipelines, CompilationOptions, FrontFace, MultisampleState,
    PipelineKind, PolygonMode, PrimitiveState, PrimitiveTopology, PushConstantRange,
};
use easy_shader_runner::setup::SetupStep;
use easy_shader_runner::spirv::is_spirv;
use easy_shader_runner::RenderPass;

const FORMAT: wgpu::TextureFormat = wgpu::TextureFormat::Rgba8Unorm;

const MODULE: [u8; 12] = [
    0x03, 0x02, 0x23, 0x07, 0x01, 0x02, 0x03, 0x04, 0xff, 0xfe, 0xfd, 0xfc,
];

const SWAPPED: [u8; 12] = [
    0x07, 0x23, 0x02, 0x03, 0x04, 0x03, 0x02, 0x01, 0xfc, 0xfd, 0xfe, 0xff,
];

fn features(compute: bool, emulate_constants: bool) -> Features {
    Features { compute, emulate_constants }
}

fn descriptor(data: &[u8], read_only: bool, stages: wgpu::ShaderStages, cpu_writable: bool) -> BufferDescriptor<'_> {
    BufferDescriptor { data, read_only, shader_stages: stages.bits(), cpu_writable }
}

fn two_groups(data: &[u8]) -> Vec<Vec<BufferDescriptor<'_>>> {
    vec![
        vec![
            descriptor(data, true, wgpu::ShaderStages::FRAGMENT, true),
            descriptor(&data[1..], false, wgpu::ShaderStages::COMPUTE, false),
            descriptor(&data[2..], false, wgpu::ShaderStages::VERTEX_FRAGMENT, true),
        ],
        vec![descriptor(data, false, wgpu::ShaderStages::COMPUTE, true)],
    ]
}

fn storage(binding: u32, stages: wgpu::ShaderStages, read_only: bool) -> BindGroupLayoutEntry {
    BindGroupLayoutEntry {
        binding,
        visibility: stages.bits(),
        read_only,
        has_dynamic_offset: false,
        min_binding_size: None,
        count: None,
    }
}

#[test]
fn layouts_follow_the_descriptors() {
    let data = [1u8, 2, 3, 4];
    let layouts = create_bind_group_layouts(features(true, false), &two_groups(&data));
    assert_eq!(layouts.len(), 2);
    assert_eq!(layouts[0].label, "bind_group_layout 0");
    assert_eq!(layouts[1].label, "bind_group_layout 1");
    assert_eq!(
        layouts[0].entries,
        vec![
            storage(0, wgpu::ShaderStages::FRAGMENT, true),
            storage(1, wgpu::ShaderStages::COMPUTE, false),
            storage(2, wgpu::ShaderStages::VERTEX_FRAGMENT, false),
        ]
    );
    assert_eq!(layouts[1].entries, vec![storage(0, wgpu::ShaderStages::COMPUTE, false)]);
}

#[test]
fn emulated_constants_have_a_layout_of_their_own() {
    let layouts = create_bind_group_layouts(features(true, true), &[vec![]]);
    assert_eq!(layouts.len(), 2);
    assert!(layouts[0].entries.is_empty());
    assert_eq!(layouts[1].label, "emulated push constants layout");
    assert_eq!(
        layouts[1].entries,
        vec![
            storage(0, wgpu::ShaderStages::FRAGMENT, true),
            storage(1, wgpu::ShaderStages::COMPUTE, true),
        ]
    );
    let layouts = create_bind_group_layouts(features(false, true), &[]);
    assert_eq!(layouts.len(), 1);
    assert_eq!(layouts[0].entries, vec![storage(0, wgpu::ShaderStages::FRAGMENT, true)]);
}

#[test]
fn bind_groups_hold_the_described_buffers() {
    let data = [1u8, 2, 3, 4];
    let groups = two_groups(&data);
    let layouts = create_bind_group_layouts(features(false, false), &groups);
    let (created, _) = create_bind_groups(features(false, false), &groups, &layouts);
    assert_eq!(created.len(), 2);
    assert_eq!(created[0].label, "bind_group 0");
    assert_eq!(created[1].label, "bind_group 1");
    assert_eq!(created[1].layout, 1);
    assert!(!created[0].keep_buffers);
    assert_eq!(
        created[0].entries,
        vec![
            BindGroupEntry { binding: 0, buffer: 0 },
            BindGroupEntry { binding: 1, buffer: 1 },
            BindGroupEntry { binding: 2, buffer: 2 },
        ]
    );
    for buffer in &created[0].buffers {
        assert_eq!(buffer.label, Some("Bind Group Buffer"));
    }
    let storage = wgpu::BufferUsages::STORAGE;
    let writable = storage | wgpu::BufferUsages::COPY_DST;
    assert_eq!(created[0].buffers[0].usage, writable.bits());
    assert_eq!(created[0].buffers[1].usage, storage.bits());
    assert_eq!(created[0].buffers[2].usage, writable.bits());
    assert!(matches!(created[0].buffers[2].contents, BufferContents::Data(bytes) if bytes == &data[2..]));
}

#[test]
fn controller_gets_the_writable_buffers_in_order() {
    let data = [1u8, 2, 3, 4];
    let groups = two_groups(&data);
    let (_, setup) = RenderPass::new(features(true, true), FORMAT, &MODULE, &groups);
    assert_eq!(
        setup.writable_buffers,
        vec![
            BufferSlot { group: 0, buffer: 0 },
            BufferSlot { group: 0, buffer: 2 },
            BufferSlot { group: 1, buffer: 0 },
        ]
    );
}

#[test]
fn groups_without_a_layout_are_left_out() {
    let data = [1u8, 2, 3, 4];
    let groups = two_groups(&data);
    let layouts = create_bind_group_layouts(features(false, false), &groups[..1]);
    let (created, writable) = create_bind_groups(features(false, false), &groups, &layouts);
    assert_eq!(created.len(), 1);
    assert_eq!(
        writable,
        vec![BufferSlot { group: 0, buffer: 0 }, BufferSlot { group: 0, buffer: 2 }]
    );
}

#[test]
fn emulated_constants_have_zeroed_buffers() {
    let data = [1u8, 2, 3, 4];
    let groups = two_groups(&data);
    let (_, setup) = RenderPass::new(features(true, true), FORMAT, &MODULE, &groups);
    assert_eq!(setup.bind_group_layouts.len(), 3);
    assert_eq!(setup.bind_groups.len(), 3);
    let constants = &setup.bind_groups[2];
    assert_eq!(constants.label, "emulated push constants bind group");
    assert_eq!(constants.layout, 2);
    assert!(constants.keep_buffers);
    assert_eq!(constants.buffers.len(), 2);
    for buffer in &constants.buffers {
        assert_eq!(buffer.label, None);
        assert!(matches!(buffer.contents, BufferContents::Zeroed(128)));
        let usage = wgpu::BufferUsages::STORAGE | wgpu::BufferUsages::COPY_DST;
        assert_eq!(buffer.usage, usage.bits());
    }
    assert_eq!(
        constants.entries,
        vec![
            BindGroupEntry { binding: 0, buffer: 0 },
            BindGroupEntry { binding: 1, buffer: 1 },
        ]
    );
    let (_, setup) = RenderPass::new(features(false, true), FORMAT, &MODULE, &[]);
    assert_eq!(setup.bind_groups[0].buffers.len(), 1);
}

#[test]
fn pipeline_layouts_grant_push_constants() {
    let layouts = create_bind_group_layouts(features(true, false), &[vec![], vec![], vec![]]);
    let pipelines = create_pipeline_layouts(features(true, false), &layouts);
    assert_eq!(pipelines.render.label, None);
    assert_eq!(pipelines.render.bind_group_layouts, vec![0, 1, 2]);
    assert_eq!(
        pipelines.render.push_constant_ranges,
        vec![PushConstantRange {
            stages: wgpu::ShaderStages::FRAGMENT.bits(),
            start: 0,
            end: 128,
        }]
    );
    let compute = pipelines.compute.unwrap();
    assert_eq!(compute.bind_group_layouts, vec![0, 1, 2]);
    assert_eq!(
        compute.push_constant_ranges,
        vec![PushConstantRange {
            stages: wgpu::ShaderStages::COMPUTE.bits(),
            start: 0,
            end: 128,
        }]
    );
}

#[test]
fn pipeline_layouts_without_push_constants() {
    let layouts = create_bind_group_layouts(features(false, true), &[vec![]]);
    let pipelines = create_pipeline_layouts(features(false, true), &layouts);
    assert_eq!(pipelines.render.bind_group_layouts, vec![0, 1]);
    assert!(pipelines.render.push_constant_ranges.is_empty());
    assert!(pipelines.compute.is_none());
}

#[test]
fn pipelines_of_a_module() {
    let layouts = create_pipeline_layouts(features(true, false), &[]);
    let pipelines = create_pipelines(&layouts, FORMAT, &MODULE);
    assert_eq!(pipelines.module, vec![0x0723_0203, 0x0403_0201, 0xfcfd_feff]);
    assert_eq!(pipelines.module_label, None);
    let render = pipelines.render;
    assert_eq!(render.label, None);
    assert_eq!(render.layout, PipelineKind::Render);
    assert_eq!(render.vertex_entry_point, "main_vs");
    assert_eq!(render.fragment_entry_point, "main_fs");
    assert_eq!(
        render.primitive,
        PrimitiveState {
            topology: PrimitiveTopology::TriangleList,
            strip_index_format: None,
            front_face: FrontFace::Ccw,
            cull_mode: None,
            unclipped_depth: false,
            polygon_mode: PolygonMode::Fill,
            conservative: false,
        }
    );
    assert_eq!(
        render.multisample,
        MultisampleState { count: 1, mask: !0, alpha_to_coverage_enabled: false }
    );
    assert!(render.vertex_buffers.is_empty());
    assert_eq!(render.compilation_options, CompilationOptions::Standard);
    assert_eq!(render.depth_stencil, None);
    assert_eq!(render.multiview, None);
    assert!(render.cache.is_none());
    assert_eq!(render.target.blend, None);
    assert_eq!(render.target.format, FORMAT);
    assert_eq!(render.target.write_mask, wgpu::ColorWrites::ALL.bits());
    let compute = pipelines.compute.unwrap();
    assert_eq!(compute.label, None);
    assert_eq!(compute.layout, PipelineKind::Compute);
    assert_eq!(compute.entry_point, "main_cs");
    assert_eq!(compute.compilation_options, CompilationOptions::Standard);
    assert!(compute.cache.is_none());
}

#[test]
fn no_compute_pipeline_without_its_layout() {
    let layouts = create_pipeline_layouts(features(false, false), &[]);
    assert!(create_pipelines(&layouts, FORMAT, &MODULE).compute.is_none());
}

#[test]
fn modules_of_either_byte_order_hold_the_same_words() {
    let layouts = create_pipeline_layouts(features(false, false), &[]);
    assert!(is_spirv(&SWAPPED));
    assert_eq!(
        create_pipelines(&layouts, FORMAT, &MODULE).module,
        create_pipelines(&layouts, FORMAT, &SWAPPED).module
    );
}

#[test]
fn modules_need_not_be_aligned() {
    let layouts = create_pipeline_layouts(features(false, false), &[]);
    for shift in 0..4usize {
        let mut bytes = vec![0u8; shift];
        bytes.extend_from_slice(&MODULE);
        assert_eq!(
            create_pipelines(&layouts, FORMAT, &bytes[shift..]).module,
            vec![0x0723_0203, 0x0403_0201, 0xfcfd_feff]
        );
    }
}

#[test]
fn what_is_no_module() {
    assert!(is_spirv(&MODULE));
    assert!(is_spirv(&MODULE[..4]));
    assert!(!is_spirv(&[]));
    assert!(!is_spirv(&MODULE[..3]));
    assert!(!is_spirv(&MODULE[..11]));
    assert!(!is_spirv(&MODULE[4..]));
}

#[test]
fn renderer_of_the_user_interface() {
    let (_, setup) = RenderPass::new(features(false, false), FORMAT, &MODULE, &[]);
    assert_eq!(setup.ui_renderer.output_color_format, FORMAT);
    assert_eq!(setup.ui_renderer.output_depth_format, None);
    assert_eq!(setup.ui_renderer.msaa_samples, 1);
    assert!(!setup.ui_renderer.dithering);
}

#[test]
fn new_module_replaces_the_pipelines_alone() {
    let data = [1u8, 2, 3, 4];
    let groups = two_groups(&data);
    let (mut pass, _) = RenderPass::new(features(true, false), FORMAT, &MODULE, &groups);
    assert_eq!(pass.pipelines().module.len(), 3);
    assert_eq!(pass.pipelines().render.target.format, FORMAT);
    let steps = pass.new_module(wgpu::TextureFormat::Bgra8Unorm, &MODULE[..8]);
    assert_eq!(
        steps,
        vec![
            SetupStep::CreateShaderModule,
            SetupStep::CreatePipeline(PipelineKind::Render),
            SetupStep::CreatePipeline(PipelineKind::Compute),
        ]
    );
    assert_eq!(pass.pipelines().module, vec![0x0723_0203, 0x0403_0201]);
    assert_eq!(pass.pipelines().render.target.format, wgpu::TextureFormat::Bgra8Unorm);
    assert!(pass.pipelines().compute.is_some());
    assert_eq!(pass.pipeline_layouts().render.bind_group_layouts, vec![0, 1]);
    assert_eq!(pass.features(), features(true, false));
    pass.new_module(FORMAT, &MODULE);
    assert_eq!(pass.pipelines().module, vec![0x0723_0203, 0x0403_0201, 0xfcfd_feff]);
}

#[test]
fn labels_carry_decimal_numbers() {
    assert_eq!(numbered_label("group ", 0), "group 0");
    assert_eq!(numbered_label("group ", 9), "group 9");
    assert_eq!(numbered_label("", 10), "10");
    assert_eq!(numbered_label("x", 1_203_045), "x1203045");
    assert_eq!(numbered_label("", usize::MAX), format!("{}", usize::MAX));
    assert_ne!(numbered_label("x", 11), numbered_label("x", 1));
}

#[test]
fn steps_of_a_plain_setup() {
    let data = [1u8, 2, 3, 4];
    let groups = two_groups(&data);
    let (_, setup) = RenderPass::new(features(false, false), FORMAT, &MODULE, &groups);
    assert_eq!(
        setup.steps,
        vec![
            SetupStep::CreateBindGroupLayout(0),
            SetupStep::CreateBindGroupLayout(1),
            SetupStep::CreatePipelineLayout(PipelineKind::Render),
            SetupStep::CreateShaderModule,
            SetupStep::CreatePipeline(PipelineKind::Render),
            SetupStep::CreateBuffer(BufferSlot { group: 0, buffer: 0 }),
            SetupStep::CreateBuffer(BufferSlot { group: 0, buffer: 1 }),
            SetupStep::CreateBuffer(BufferSlot { group: 0, buffer: 2 }),
            SetupStep::CreateBindGroup(0),
            SetupStep::CreateBuffer(BufferSlot { group: 1, buffer: 0 }),
            SetupStep::CreateBindGroup(1),
            SetupStep::ReceiveBuffers,
            SetupStep::CreateUiRenderer,
        ]
    );
}

#[test]
fn steps_of_a_setup_with_emulated_constants() {
    let data = [1u8, 2, 3, 4];
    let groups = two_groups(&data);
    let (_, setup) = RenderPass::new(features(true, true), FORMAT, &MODULE, &groups[1..]);
    assert_eq!(
        setup.steps,
        vec![
            SetupStep::CreateBindGroupLayout(1),
            SetupStep::CreateBindGroupLayout(0),
            SetupStep::CreatePipelineLayout(PipelineKind::Render),
            SetupStep::CreatePipelineLayout(PipelineKind::Compute),
            SetupStep::CreateShaderModule,
            SetupStep::CreatePipeline(PipelineKind::Render),
            SetupStep::CreatePipeline(PipelineKind::Compute),
            SetupStep::CreateBuffer(BufferSlot { group: 1, buffer: 0 }),
            SetupStep::CreateBuffer(BufferSlot { group: 1, buffer: 1 }),
            SetupStep::CreateBindGroup(1),
            SetupStep::CreateBuffer(BufferSlot { group: 0, buffer: 0 }),
            SetupStep::CreateBindGroup(0),
            SetupStep::ReceiveBuffers,
            SetupStep::CreateUiRenderer,
        ]
    );
}

#[test]
fn writable_buffers_of_joined_groups_join() {
    let data = [1u8, 2, 3, 4];
    let writable = |groups: &[Vec<BufferDescriptor<'_>>]| {
        RenderPass::new(features(false, false), FORMAT, &MODULE, groups).1.writable_buffers
    };
    let mut joined = two_groups(&data);
    joined.extend(two_groups(&data));
    let mut expected = writable(&two_groups(&data));
    for slot in writable(&two_groups(&data)) {
        expected.push(BufferSlot { group: slot.group + 2, buffer: slot.buffer });
    }
    assert_eq!(writable(&joined), expected);
}
