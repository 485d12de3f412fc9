use easy_shader_runner::bind_group::{BufferDescriptor, BufferSlot};
use easy_shader_runner::command::{
    error_report, Command, ConstantsTarget, Extent2, LoadOp, Offset, RenderPassDescriptor,
    ScreenDescriptor, ShaderArea, StoreOp, SurfaceError, UiFrame, Viewport,
};
use easy_shader_runner::dispatch::Extent3;
use easy_shader_runner::features::Features;
use easy_shader_runner::pipeline::PipelineKind;
use easy_shader_runner::single::{Edges, Single};
use easy_shader_runner::RenderPass;

const MODULE: [u8; 4] = [0x03, 0x02, 0x23, 0x07];

fn single(number: f32) -> Single {
    Single { bits: number.to_bits() }
}

fn offset(x: f32, y: f32) -> Offset {
    Offset { x: single(x), y: single(y) }
}

fn edges(left: f32, top: f32, right: f32, bottom: f32) -> Edges {
    Edges { left: single(left), top: single(top), right: single(right), bottom: single(bottom) }
}

fn area(left: f32, top: f32, right: f32, bottom: f32) -> ShaderArea {
    let (width, height) = ((right - left).floor(), (bottom - top).floor());
    ShaderArea {
        edges: edges(left, top, right, bottom),
        size: offset(width, height),
        pixels: Extent2 { x: width as u32, y: height as u32 },
    }
}

fn screen() -> ScreenDescriptor {
    ScreenDescriptor { size_in_pixels: Extent2 { x: 800, y: 600 }, pixels_per_point: single(2.0) }
}

fn frame(width: f32, height: f32, area: ShaderArea) -> UiFrame {
    UiFrame {
        available: offset(width, height),
        area,
        screen: screen(),
        textures_set: 2,
        textures_free: 1,
    }
}

fn pass(emulate_constants: bool) -> RenderPass {
    let data = [0u8; 4];
    let group = vec![BufferDescriptor {
        data: &data,
        read_only: true,
        shader_stages: wgpu::ShaderStages::FRAGMENT.bits(),
        cpu_writable: false,
    }];
    let features = Features { compute: false, emulate_constants };
    RenderPass::new(features, wgpu::TextureFormat::Rgba8Unorm, &MODULE, &[group]).0
}

fn surface_pass(label: &'static str, load: LoadOp) -> RenderPassDescriptor {
    RenderPassDescriptor {
        label: Some(label),
        load,
        store: StoreOp::Store,
        resolves: false,
        depth_stencil: false,
        occlusion_queries: false,
        timestamps: false,
    }
}

fn overlay() -> Vec<Command<'static>> {
    vec![
        Command::UpdateTexture(0),
        Command::UpdateTexture(1),
        Command::CreateEncoder { label: Some("UI Encoder") },
        Command::UpdateBuffers(screen()),
        Command::BeginRenderPass(surface_pass("UI Render Pass", LoadOp::Load)),
        Command::FreeTexture(0),
        Command::RenderUi(screen()),
        Command::EndPass,
        Command::Submit,
    ]
}

fn resizes(commands: &[Command]) -> Vec<Extent2> {
    let mut sizes = Vec::new();
    for command in commands {
        if let Command::Resize(size) = command {
            sizes.push(*size);
        }
    }
    sizes
}

#[test]
fn first_frame_tells_the_size() {
    let mut pass = pass(false);
    let commands = pass.render_shader(area(10.0, 20.0, 110.5, 70.9));
    assert_eq!(
        commands,
        vec![
            Command::CreateEncoder { label: Some("Shader Encoder") },
            Command::BeginRenderPass(surface_pass("Shader Render Pass", LoadOp::ClearGreen)),
            Command::Resize(Extent2 { x: 100, y: 50 }),
            Command::SetViewport(Viewport {
                offset: offset(10.0, 20.0),
                size: offset(100.0, 50.0),
                min_depth: single(0.0),
                max_depth: single(1.0),
            }),
            Command::SetPipeline(PipelineKind::Render),
            Command::PrepareRender {
                offset: offset(10.0, 20.0),
                target: ConstantsTarget::PushConstants {
                    stages: Some(wgpu::ShaderStages::FRAGMENT.bits()),
                    first_byte: 0,
                },
            },
            Command::SetBindGroup { index: 0, group: 0 },
            Command::Draw { first_vertex: 0, end_vertex: 3, first_instance: 0, end_instance: 1 },
            Command::EndPass,
            Command::Submit,
        ]
    );
}

#[test]
fn size_is_told_where_the_area_moves() {
    let mut pass = pass(false);
    let first = area(0.0, 0.0, 100.0, 50.0);
    let second = area(1.0, 0.0, 100.0, 50.0);
    assert_eq!(resizes(&pass.render_shader(first)), vec![Extent2 { x: 100, y: 50 }]);
    assert_eq!(resizes(&pass.render_shader(first)), vec![]);
    assert_eq!(resizes(&pass.render_shader(second)), vec![Extent2 { x: 99, y: 50 }]);
    assert_eq!(resizes(&pass.render_shader(second)), vec![]);
    assert_eq!(resizes(&pass.render_shader(first)), vec![Extent2 { x: 100, y: 50 }]);
}

#[test]
fn either_zero_is_the_same_edge() {
    let mut pass = pass(false);
    pass.render_shader(area(0.0, 0.0, 100.0, 50.0));
    assert_eq!(resizes(&pass.render_shader(area(-0.0, 0.0, 100.0, 50.0))), vec![]);
    assert_eq!(pass.shader_offset(), offset(0.0, 0.0));
}

#[test]
fn area_of_nan_resizes_every_time() {
    let mut pass = pass(false);
    let mut nan = area(0.0, 0.0, 100.0, 50.0);
    nan.edges.right = single(f32::NAN);
    assert_eq!(resizes(&pass.render_shader(nan)).len(), 1);
    assert_eq!(resizes(&pass.render_shader(nan)).len(), 1);
}

#[test]
fn offset_is_the_corner_of_the_area() {
    let mut pass = pass(false);
    let before = pass.shader_offset();
    assert!(f32::from_bits(before.x.bits).is_nan());
    assert!(f32::from_bits(before.y.bits).is_nan());
    pass.render_shader(area(3.5, 7.25, 100.0, 50.0));
    assert_eq!(pass.shader_offset(), offset(3.5, 7.25));
}

#[test]
fn emulated_constants_of_the_frame_go_to_the_first_buffer() {
    let mut pass = pass(true);
    let commands = pass.render_shader(area(0.0, 0.0, 8.0, 8.0));
    assert_eq!(
        commands[5],
        Command::PrepareRender {
            offset: offset(0.0, 0.0),
            target: ConstantsTarget::Buffer {
                slot: BufferSlot { group: 1, buffer: 0 },
                offset: 0,
            },
        }
    );
    assert_eq!(commands[6], Command::SetBindGroup { index: 0, group: 0 });
    assert_eq!(commands[7], Command::SetBindGroup { index: 1, group: 1 });
}

#[test]
fn shader_is_drawn_below_the_user_interface() {
    let mut pass_a = pass(false);
    let mut pass_b = pass(false);
    let filled = area(0.0, 0.0, 20.0, 10.0);
    let mut expected = pass_a.render_shader(filled);
    expected.extend(overlay());
    assert_eq!(pass_b.render_ui(frame(10.0, 5.0, filled)), expected);
    assert_eq!(pass_b.shader_offset(), offset(0.0, 0.0));
}

#[test]
fn no_shader_without_room() {
    let mut pass = pass(false);
    let filled = area(1.0, 1.0, 20.0, 10.0);
    pass.render_ui(frame(1.0, 1.0, area(5.0, 6.0, 20.0, 10.0)));
    for (width, height) in [
        (0.0, 5.0),
        (5.0, 0.0),
        (-1.0, 5.0),
        (5.0, -0.0),
        (f32::NAN, 5.0),
        (5.0, f32::NEG_INFINITY),
    ] {
        assert_eq!(pass.render_ui(frame(width, height, filled)), overlay());
        assert_eq!(pass.shader_offset(), offset(5.0, 6.0));
    }
    for (width, height) in [(f32::MIN_POSITIVE, 5.0), (1e-45, f32::INFINITY)] {
        assert!(pass.render_ui(frame(width, height, filled)).len() > overlay().len());
    }
}

#[test]
fn a_frame_is_presented() {
    let mut pass = pass(false);
    let empty = area(0.0, 0.0, 0.0, 0.0);
    let (commands, result) = pass.render(Ok(frame(0.0, 0.0, empty)));
    let mut expected = overlay();
    expected.push(Command::Present);
    assert_eq!(commands, expected);
    assert_eq!(result, Ok(()));
}

#[test]
fn a_lost_surface_is_configured_anew() {
    let mut pass = pass(false);
    let (commands, result) = pass.render(Err(SurfaceError::Lost));
    assert_eq!(
        commands,
        vec![Command::ReportError(SurfaceError::Lost), Command::ConfigureSurface]
    );
    assert_eq!(result, Ok(()));
}

#[test]
fn other_errors_of_the_surface_are_returned() {
    let mut pass = pass(false);
    for error in [
        SurfaceError::Timeout,
        SurfaceError::Outdated,
        SurfaceError::OutOfMemory,
        SurfaceError::Other,
    ] {
        let (commands, result) = pass.render(Err(error));
        assert_eq!(commands, vec![Command::ReportError(error)]);
        assert_eq!(result, Err(error));
    }
}

#[test]
fn a_new_module_disturbs_no_frame() {
    let mut reloaded = pass(false);
    let mut plain = pass(false);
    let filled = frame(10.0, 5.0, area(0.0, 0.0, 20.0, 10.0));
    assert_eq!(reloaded.render(Ok(filled)), plain.render(Ok(filled)));
    reloaded.new_module(wgpu::TextureFormat::Rgba8Unorm, &MODULE);
    assert_eq!(reloaded.render(Ok(filled)), plain.render(Ok(filled)));
    assert_eq!(reloaded.shader_offset(), plain.shader_offset());
}

#[test]
fn patterns_compare_like_numbers() {
    let numbers = [
        0.0f32,
        -0.0,
        1.0,
        -1.0,
        1e-45,
        -1e-45,
        f32::MIN_POSITIVE,
        f32::MAX,
        f32::MIN,
        f32::INFINITY,
        f32::NEG_INFINITY,
        f32::NAN,
        -f32::NAN,
    ];
    for a in numbers {
        assert_eq!(single(a).is_positive(), a > 0.0);
        for b in numbers {
            assert_eq!(single(a).equals(single(b)), a == b);
            assert_eq!(
                edges(1.0, a, 2.0, 3.0).equals(edges(1.0, b, 2.0, 3.0)),
                a == b
            );
        }
    }
}

#[test]
fn report_names_the_error() {
    let errors = [
        (SurfaceError::Timeout, wgpu::SurfaceError::Timeout, "Timeout"),
        (SurfaceError::Outdated, wgpu::SurfaceError::Outdated, "Outdated"),
        (SurfaceError::Lost, wgpu::SurfaceError::Lost, "Lost"),
        (SurfaceError::OutOfMemory, wgpu::SurfaceError::OutOfMemory, "OutOfMemory"),
        (SurfaceError::Other, wgpu::SurfaceError::Other, "Other"),
    ];
    for (error, outside, name) in errors {
        assert_eq!(error_report(error), format!("get_current_texture error: {outside:?}"));
        assert_eq!(error_report(error), format!("get_current_texture error: {name}"));
    }
}

#[test]
fn dispatches_follow_the_frame() {
    let features = Features { compute: true, emulate_constants: true };
    let format = wgpu::TextureFormat::Rgba8Unorm;
    let mut pass = RenderPass::new(features, format, &MODULE, &[]).0;
    let extent = Extent3 { x: 8, y: 8, z: 1 };
    let shown = frame(50.0, 25.0, area(0.0, 0.0, 100.0, 50.0));
    let mut commands = pass.render(Ok(shown)).0;
    let drawn = commands.len();
    commands.extend(pass.compute(extent, extent, &[1]));
    commands.extend(pass.compute(extent, extent, &[2]));
    let positions = |wanted: fn(&Command) -> bool| -> Vec<usize> {
        (0..commands.len()).filter(|&i| wanted(&commands[i])).collect()
    };
    let submits = positions(|command| *command == Command::Submit);
    let drawings =
        positions(|command| matches!(command, Command::Draw { .. } | Command::RenderUi(_)));
    let dispatches = positions(|command| matches!(command, Command::DispatchWorkgroups(_)));
    assert_eq!((submits.len(), drawings.len(), dispatches.len()), (4, 2, 2));
    assert_eq!(commands[drawn - 1], Command::Present);
    assert_eq!(submits[1], drawn - 2);
    assert!(drawings[0] < submits[0] && submits[0] < drawings[1] && drawings[1] < submits[1]);
    assert!(submits[1] < dispatches[0] && dispatches[0] < submits[2]);
    assert!(submits[2] < dispatches[1] && dispatches[1] < submits[3]);
}
