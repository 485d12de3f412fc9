//! What holds of the render pass as a whole.

pub mod frame;
pub mod setup;

use crate::bind_group::{BufferContents, BufferDescriptor, BufferSlot};
use crate::command::{Command, ConstantsTarget, LoadOp, ShaderArea, StoreOp, UiFrame};
use crate::dispatch::Extent3;
use crate::features::{Features, CONSTANTS_SIZE};
use crate::flags::{COMPUTE, COPY_DST, FRAGMENT, STORAGE};
use crate::pipeline::{PipelineKind, PushConstantRange};
use crate::render_pass::RenderPassView;
use vstd::prelude::*;

verus! {

/// How far the steps of a frame have come.
pub enum Stage {
    /// No encoder is open.
    Idle,
    /// An encoder is open, but no pass.
    Encoding,
    /// A render pass is open; `ready` where its pipeline is set.
    Rendering { ready: bool },
    /// A compute pass is open; `ready` where its pipeline is set.
    Computing { ready: bool },
    /// A step came where it cannot be carried out.
    Misplaced,
}

/// The stage after `command`.
pub open spec fn advance(stage: Stage, command: Command) -> Stage {
    match (stage, command) {
        (Stage::Idle, Command::CreateEncoder { .. }) => Stage::Encoding,
        (Stage::Idle, Command::UpdateTexture(_)) => Stage::Idle,
        (Stage::Idle, Command::ReportError(_)) => Stage::Idle,
        (Stage::Idle, Command::ConfigureSurface) => Stage::Idle,
        (Stage::Idle, Command::Present) => Stage::Idle,
        (Stage::Encoding, Command::UpdateBuffers(_)) => Stage::Encoding,
        (Stage::Encoding, Command::BeginRenderPass(_)) => Stage::Rendering { ready: false },
        (Stage::Encoding, Command::BeginComputePass { .. }) => Stage::Computing { ready: false },
        (Stage::Encoding, Command::Submit) => Stage::Idle,
        (Stage::Rendering { ready }, Command::Resize(_)) => stage,
        (Stage::Rendering { ready }, Command::SetViewport(_)) => stage,
        (
            Stage::Rendering { ready },
            Command::SetPipeline(PipelineKind::Render),
        ) => Stage::Rendering { ready: true },
        (Stage::Rendering { ready: true }, Command::PrepareRender { .. }) => stage,
        (Stage::Rendering { ready: true }, Command::SetBindGroup { .. }) => stage,
        (Stage::Rendering { ready: true }, Command::Draw { .. }) => stage,
        (Stage::Rendering { ready }, Command::FreeTexture(_)) => stage,
        (Stage::Rendering { ready }, Command::RenderUi(_)) => stage,
        (Stage::Rendering { ready }, Command::EndPass) => Stage::Encoding,
        (
            Stage::Computing { ready },
            Command::SetPipeline(PipelineKind::Compute),
        ) => Stage::Computing { ready: true },
        (Stage::Computing { ready: true }, Command::SetConstants { .. }) => stage,
        (Stage::Computing { ready: true }, Command::SetBindGroup { .. }) => stage,
        (Stage::Computing { ready: true }, Command::DispatchWorkgroups(_)) => stage,
        (Stage::Computing { ready }, Command::EndPass) => Stage::Encoding,
        _ => Stage::Misplaced,
    }
}

/// The stage after all of `commands`.
pub open spec fn run(stage: Stage, commands: Seq<Command>) -> Stage
    decreases commands.len(),
{
    if commands.len() == 0 {
        stage
    } else {
        advance(run(stage, commands.drop_last()), commands.last())
    }
}

proof fn lemma_run_concat(stage: Stage, first: Seq<Command>, second: Seq<Command>)
    ensures
        run(stage, first + second) == run(run(stage, first), second),
    decreases second.len(),
{
    if second.len() == 0 {
        assert(first + second =~= first);
    } else {
        assert((first + second).drop_last() =~= first + second.drop_last());
        lemma_run_concat(stage, first, second.drop_last());
    }
}

/// Steps that leave the stage as it is, all of them, leave it as it is together.
proof fn lemma_run_steady(stage: Stage, commands: Seq<Command>)
    requires
        forall|i: int| 0 <= i < commands.len() ==> advance(stage, #[trigger] commands[i]) == stage,
    ensures
        run(stage, commands) == stage,
    decreases commands.len(),
{
    if commands.len() > 0 {
        lemma_run_steady(stage, commands.drop_last());
    }
}

/// The stage after up to four steps.
proof fn lemma_run_short(stage: Stage, commands: Seq<Command>)
    requires
        commands.len() <= 4,
    ensures
        commands.len() == 0 ==> run(stage, commands) == stage,
        commands.len() == 1 ==> run(stage, commands) == advance(stage, commands[0]),
        commands.len() == 2 ==> run(stage, commands) == advance(
            advance(stage, commands[0]),
            commands[1],
        ),
        commands.len() == 3 ==> run(stage, commands) == advance(
            advance(advance(stage, commands[0]), commands[1]),
            commands[2],
        ),
        commands.len() == 4 ==> run(stage, commands) == advance(
            advance(advance(advance(stage, commands[0]), commands[1]), commands[2]),
            commands[3],
        ),
    decreases commands.len(),
{
    if commands.len() > 0 {
        lemma_run_short(stage, commands.drop_last());
    }
}

proof fn lemma_run_shader(pass: RenderPassView, area: ShaderArea)
    ensures
        run(Stage::Idle, crate::render_pass::shader_commands(pass, area)) == Stage::Idle,
{
    let all = crate::render_pass::shader_commands(pass, area);
    let bind = crate::render_pass::bind_all(pass);
    let n = bind.len() as int;
    let r: int = if pass.shader_viewport.same_rect(area.edges) {
        0
    } else {
        1
    };
    let begin = all.take(2);
    let resize = all.subrange(2, 2 + r);
    let prepare = all.subrange(2 + r, 5 + r);
    let draw = all.skip(5 + r + n);
    assert(all =~= begin + resize + prepare + bind + draw);
    let open = Stage::Rendering { ready: false };
    let ready = Stage::Rendering { ready: true };
    lemma_run_short(Stage::Idle, begin);
    lemma_run_concat(Stage::Idle, begin, resize);
    lemma_run_short(open, resize);
    lemma_run_concat(Stage::Idle, begin + resize, prepare);
    lemma_run_short(open, prepare);
    lemma_run_concat(Stage::Idle, begin + resize + prepare, bind);
    lemma_run_steady(ready, bind);
    lemma_run_concat(Stage::Idle, begin + resize + prepare + bind, draw);
    lemma_run_short(ready, draw);
}

proof fn lemma_run_overlay(frame: UiFrame)
    ensures
        run(Stage::Idle, crate::render_pass::overlay_commands(frame)) == Stage::Idle,
{
    let all = crate::render_pass::overlay_commands(frame);
    let s = frame.textures_set as int;
    let f = frame.textures_free as int;
    let set = all.take(s);
    let begin = all.subrange(s, s + 3);
    let free = all.subrange(s + 3, s + 3 + f);
    let end = all.skip(s + 3 + f);
    assert(all =~= set + begin + free + end);
    let open = Stage::Rendering { ready: false };
    lemma_run_steady(Stage::Idle, set);
    lemma_run_concat(Stage::Idle, set, begin);
    lemma_run_short(Stage::Idle, begin);
    lemma_run_concat(Stage::Idle, set + begin, free);
    lemma_run_steady(open, free);
    lemma_run_concat(Stage::Idle, set + begin + free, end);
    lemma_run_short(open, end);
}

/// The steps of a frame come in an order in which they can be carried out, and leave no encoder
/// and no pass open.
pub proof fn law_frame_in_order(pass: RenderPassView, frame: UiFrame)
    ensures
        run(Stage::Idle, crate::render_pass::ui_commands(pass, frame)) == Stage::Idle,
        run(
            Stage::Idle,
            crate::render_pass::ui_commands(pass, frame).push(Command::Present),
        ) == Stage::Idle,
{
    let all = crate::render_pass::ui_commands(pass, frame);
    lemma_run_overlay(frame);
    if crate::render_pass::has_room(frame) {
        lemma_run_shader(pass, frame.area);
        lemma_run_concat(
            Stage::Idle,
            crate::render_pass::shader_commands(pass, frame.area),
            crate::render_pass::overlay_commands(frame),
        );
    }
    assert(all.push(Command::Present).drop_last() =~= all);
}

/// The steps of a dispatch come in an order in which they can be carried out, and leave no encoder
/// and no pass open.
pub proof fn law_dispatch_in_order(
    pass: RenderPassView,
    dimensions: Extent3,
    threads: Extent3,
    push_constants: &[u8],
)
    ensures
        run(
            Stage::Idle,
            crate::render_pass::compute_commands(pass, dimensions, threads, push_constants),
        ) == Stage::Idle,
{
    let all = crate::render_pass::compute_commands(pass, dimensions, threads, push_constants);
    let bind = crate::render_pass::bind_all(pass);
    let n = bind.len() as int;
    let head = all.take(4);
    let tail = all.skip(4 + n);
    assert(all =~= head + bind + tail);
    let ready = Stage::Computing { ready: true };
    lemma_run_short(Stage::Idle, head);
    lemma_run_concat(Stage::Idle, head, bind);
    lemma_run_steady(ready, bind);
    lemma_run_concat(Stage::Idle, head + bind, tail);
    lemma_run_short(ready, tail);
}

/// What a dispatch is asked for with.
pub struct Dispatch<'a> {
    pub dimensions: Extent3,
    pub threads: Extent3,
    pub push_constants: &'a [u8],
}

/// The steps of `dispatches`, one dispatch after the other.
pub open spec fn dispatch_all<'a>(pass: RenderPassView, dispatches: Seq<Dispatch<'a>>) -> Seq<
    Command<'a>,
>
    decreases dispatches.len(),
{
    if dispatches.len() == 0 {
        Seq::empty()
    } else {
        let last = dispatches.last();
        dispatch_all(pass, dispatches.drop_last()) + crate::render_pass::compute_commands(
            pass,
            last.dimensions,
            last.threads,
            last.push_constants,
        )
    }
}

/// The steps of `frame`, then those of `dispatches`.
pub open spec fn frame_and_dispatches<'a>(
    pass: RenderPassView,
    frame: UiFrame,
    dispatches: Seq<Dispatch<'a>>,
) -> Seq<Command<'a>> {
    crate::render_pass::ui_commands(pass, frame).push(Command::Present) + dispatch_all(
        crate::render_pass::after_frame(pass, frame),
        dispatches,
    )
}

/// Whether `command` draws.
pub open spec fn is_rendering(command: Command) -> bool {
    command is Draw || command is RenderUi
}

/// Whether the step at position `i` is submitted by the one at position `j`: the next submission.
pub open spec fn is_submitted_by(commands: Seq<Command>, i: int, j: int) -> bool {
    &&& i < j < commands.len()
    &&& commands[j] == Command::Submit
    &&& forall|m: int| i < m < j ==> #[trigger] commands[m] != Command::Submit
}

/// A step before a submission at `s` is submitted, there or earlier.
proof fn lemma_submitted(commands: Seq<Command>, i: int, s: int) -> (j: int)
    requires
        0 <= i < s < commands.len(),
        commands[s] == Command::Submit,
    ensures
        is_submitted_by(commands, i, j),
        j <= s,
    decreases s,
{
    if exists|m: int| i < m < s && #[trigger] commands[m] == Command::Submit {
        let m = choose|m: int| i < m < s && #[trigger] commands[m] == Command::Submit;
        lemma_submitted(commands, i, m)
    } else {
        s
    }
}

/// Dispatches come in order, draw nothing, and end with a submission.
proof fn lemma_dispatch_all(pass: RenderPassView, dispatches: Seq<Dispatch>)
    ensures
        run(Stage::Idle, dispatch_all(pass, dispatches)) == Stage::Idle,
        ({
            let steps = dispatch_all(pass, dispatches);
            &&& steps.len() > 0 ==> steps.last() == Command::Submit
            &&& forall|i: int| 0 <= i < steps.len() ==> !is_rendering(#[trigger] steps[i])
        }),
    decreases dispatches.len(),
{
    if dispatches.len() > 0 {
        let last = dispatches.last();
        let earlier = dispatch_all(pass, dispatches.drop_last());
        let own = crate::render_pass::compute_commands(
            pass,
            last.dimensions,
            last.threads,
            last.push_constants,
        );
        let steps = dispatch_all(pass, dispatches);
        lemma_dispatch_all(pass, dispatches.drop_last());
        law_dispatch_in_order(pass, last.dimensions, last.threads, last.push_constants);
        lemma_run_concat(Stage::Idle, earlier, own);
        assert forall|i: int| 0 <= i < steps.len() implies !is_rendering(#[trigger] steps[i]) by {
            assert(steps[i] == if i < earlier.len() {
                earlier[i]
            } else {
                own[i - earlier.len()]
            });
        }
    }
}

/// The compute shader runs after rendering. The dispatches that are made when a frame has been
/// drawn follow it in an order in which all steps can be carried out. All that the frame draws, and
/// whatever else it submits, has been submitted before the first of them is recorded; each dispatch
/// is submitted after that.
pub proof fn law_dispatches_after_frame(
    pass: RenderPassView,
    frame: UiFrame,
    dispatches: Seq<Dispatch>,
)
    ensures
        run(Stage::Idle, frame_and_dispatches(pass, frame, dispatches)) == Stage::Idle,
        ({
            let all = frame_and_dispatches(pass, frame, dispatches);
            let drawn = crate::render_pass::ui_commands(pass, frame).len();
            &&& forall|i: int|
                0 <= i < all.len() && is_rendering(#[trigger] all[i]) ==> exists|j: int|
                    is_submitted_by(all, i, j)
            &&& forall|k: int|
                0 <= k < all.len() && #[trigger] all[k] is DispatchWorkgroups ==> exists|l: int|
                    is_submitted_by(all, k, l)
            &&& forall|i: int, j: int, k: int, l: int|
                0 <= i && is_rendering(all[i]) && #[trigger] is_submitted_by(all, i, j) && 0 <= k
                    && all[k] is DispatchWorkgroups && #[trigger] is_submitted_by(all, k, l) ==> j
                    < k < l
            &&& forall|j: int, k: int, l: int|
                0 <= j < drawn && #[trigger] all[j] == Command::Submit && 0 <= k
                    && all[k] is DispatchWorkgroups && #[trigger] is_submitted_by(all, k, l) ==> j
                    < k < l
        }),
{
    let steps = crate::render_pass::ui_commands(pass, frame);
    let shown = steps.push(Command::Present);
    let later = dispatch_all(crate::render_pass::after_frame(pass, frame), dispatches);
    let all = frame_and_dispatches(pass, frame, dispatches);
    law_frame_in_order(pass, frame);
    crate::render_pass::lemma_frame_steps(pass, frame);
    lemma_dispatch_all(crate::render_pass::after_frame(pass, frame), dispatches);
    lemma_run_concat(Stage::Idle, shown, later);
    assert forall|i: int| 0 <= i < all.len() && is_rendering(#[trigger] all[i]) implies exists|
        j: int,
    | is_submitted_by(all, i, j) by {
        lemma_submitted(all, i, steps.len() - 1);
    }
    assert forall|k: int|
        0 <= k < all.len() && #[trigger] all[k] is DispatchWorkgroups implies exists|l: int|
        is_submitted_by(all, k, l) by {
        lemma_submitted(all, k, all.len() - 1);
    }
}

/// The workgroups of a dispatch cover all of the dimensions, and none of them is superfluous, for
/// extents of up to `2^24`.
pub proof fn law_dispatch_covers(
    pass: RenderPassView,
    dimensions: Extent3,
    threads: Extent3,
    push_constants: &[u8],
    i: int,
)
    requires
        dimensions.x <= 0x100_0000 && 0 < threads.x <= 0x100_0000,
        dimensions.y <= 0x100_0000 && 0 < threads.y <= 0x100_0000,
        dimensions.z <= 0x100_0000 && 0 < threads.z <= 0x100_0000,
        i == 4 + pass.bind_group_data.len(),
    ensures
        crate::render_pass::compute_commands(
            pass,
            dimensions,
            threads,
            push_constants,
        )[i] matches Command::DispatchWorkgroups(count) && {
            &&& count.x * threads.x >= dimensions.x
            &&& count.y * threads.y >= dimensions.y
            &&& count.z * threads.z >= dimensions.z
            &&& dimensions.x > 0 ==> (count.x - 1) * threads.x < dimensions.x
            &&& dimensions.y > 0 ==> (count.y - 1) * threads.y < dimensions.y
            &&& dimensions.z > 0 ==> (count.z - 1) * threads.z < dimensions.z
        },
{
    crate::dispatch::law_workgroups_exact(dimensions.x, threads.x);
    crate::dispatch::law_workgroups_exact(dimensions.y, threads.y);
    crate::dispatch::law_workgroups_exact(dimensions.z, threads.z);
}

/// The controller hears of the size of the shader's area just where the area is not the one that
/// was filled last.
pub proof fn law_resize_where_moved(pass: RenderPassView, area: ShaderArea)
    ensures
        forall|size| #[trigger]
            crate::render_pass::shader_commands(pass, area).contains(Command::Resize(size)) <==> (
            !pass.shader_viewport.same_rect(area.edges) && size == area.pixels),
{
    let all = crate::render_pass::shader_commands(pass, area);
    let moved = !pass.shader_viewport.same_rect(area.edges);
    assert forall|size| all.contains(Command::Resize(size)) <==> (moved && size == area.pixels) by {
        if moved {
            assert(all[2] == Command::Resize(area.pixels));
        }
        let n = pass.bind_group_data.len() as int;
        assert forall|i: int| 0 <= i < all.len() && all[i] is Resize implies moved && i == 2 by {
            let k: int = if moved {
                6
            } else {
                5
            };
            if k <= i < k + n {
                assert(all[i] is SetBindGroup);
            }
        }
    }
}

/// The first frame tells the controller its size, whatever the area.
pub proof fn law_first_frame_resizes(
    pass: RenderPassView,
    features: Features,
    format: wgpu::TextureFormat,
    shader: Seq<u8>,
    groups: Seq<Vec<BufferDescriptor>>,
    area: ShaderArea,
)
    requires
        crate::render_pass::is_new_pass(pass, features, format, shader, groups),
    ensures
        crate::render_pass::shader_commands(pass, area).contains(Command::Resize(area.pixels)),
{
    law_resize_where_moved(pass, area);
}

/// A frame whose area is the one of the frame before does not resize. Neither does any later one
/// while the area stays.
pub proof fn law_same_area_does_not_resize(pass: RenderPassView, area: ShaderArea, next: ShaderArea)
    requires
        area.edges.same_rect(next.edges),
    ensures
        crate::render_pass::after_shader(pass, area.edges).shader_viewport.same_rect(next.edges),
        forall|size| !
            #[trigger] crate::render_pass::shader_commands(
                crate::render_pass::after_shader(pass, area.edges),
                next,
            ).contains(Command::Resize(size)),
        crate::render_pass::after_shader(
            crate::render_pass::after_shader(pass, area.edges),
            next.edges,
        ) == crate::render_pass::after_shader(pass, area.edges),
{
    law_resize_where_moved(crate::render_pass::after_shader(pass, area.edges), next);
}

/// An area with an edge of NaN resizes in every frame.
pub proof fn law_nan_area_resizes(pass: RenderPassView, area: ShaderArea)
    requires
        !area.edges.no_nan(),
    ensures
        crate::render_pass::shader_commands(pass, area).contains(Command::Resize(area.pixels)),
        crate::render_pass::after_shader(pass, area.edges).shader_viewport == area.edges,
{
    law_resize_where_moved(pass, area);
}

/// After a frame the offset that the render pass reports is the corner of the area, and it is the
/// offset that the viewport and the controller got.
pub proof fn law_offset_is_corner(pass: RenderPassView, area: ShaderArea)
    requires
        area.edges.no_nan(),
    ensures
        ({
            let offset = crate::render_pass::corner(
                crate::render_pass::after_shader(pass, area.edges).shader_viewport,
            );
            let all = crate::render_pass::shader_commands(pass, area);
            &&& offset.x.same_number(area.edges.left)
            &&& offset.y.same_number(area.edges.top)
            &&& forall|i: int|
                0 <= i < all.len() ==> (#[trigger] all[i] matches Command::SetViewport(viewport)
                    ==> viewport.offset == offset)
            &&& forall|i: int|
                0 <= i < all.len() ==> (#[trigger] all[i] matches Command::PrepareRender {
                    offset: told,
                    ..
                } ==> told == offset)
        }),
{
    let all = crate::render_pass::shader_commands(pass, area);
    let n = pass.bind_group_data.len() as int;
    let k: int = if pass.shader_viewport.same_rect(area.edges) {
        5
    } else {
        6
    };
    assert forall|i: int| k <= i < k + n implies all[i] is SetBindGroup by {}
}

/// Where the user interface leaves no room, nothing is drawn but the user interface, and the
/// render pass stays as it is.
pub proof fn law_no_room_no_shader(pass: RenderPassView, frame: UiFrame)
    requires
        !crate::render_pass::has_room(frame),
    ensures
        crate::render_pass::ui_commands(pass, frame) == crate::render_pass::overlay_commands(frame),
        forall|i: int|
            0 <= i < crate::render_pass::ui_commands(pass, frame).len() ==> !(
            #[trigger] crate::render_pass::ui_commands(pass, frame)[i] is Draw),
        crate::render_pass::after_frame(pass, frame) == pass,
{
}

/// The user interface is drawn over the shader's picture: the shader's steps come first and leave
/// their picture on the surface, and the pass of the user interface keeps what the surface shows
/// and leaves its own there.
pub proof fn law_ui_over_shader(pass: RenderPassView, frame: UiFrame)
    requires
        crate::render_pass::has_room(frame),
    ensures
        ({
            let shader = crate::render_pass::shader_commands(pass, frame.area);
            let overlay = crate::render_pass::overlay_commands(frame);
            &&& crate::render_pass::ui_commands(pass, frame) == shader + overlay
            &&& forall|i: int|
                0 <= i < shader.len() ==> (#[trigger] shader[i] matches Command::BeginRenderPass(
                    begun,
                ) ==> begun.store == StoreOp::Store)
            &&& forall|i: int|
                0 <= i < overlay.len() ==> (#[trigger] overlay[i] matches Command::BeginRenderPass(
                    begun,
                ) ==> begun.load == LoadOp::Load && begun.store == StoreOp::Store)
        }),
{
    let shader = crate::render_pass::shader_commands(pass, frame.area);
    let n = pass.bind_group_data.len() as int;
    let k: int = if pass.shader_viewport.same_rect(frame.area.edges) {
        5
    } else {
        6
    };
    assert forall|i: int| k <= i < k + n implies shader[i] is SetBindGroup by {}
}

/// A frame keeps the render pass well-formed, and changes nothing of it but the area.
pub proof fn law_frame_changes_area_only(pass: RenderPassView, frame: UiFrame)
    requires
        pass.wf(),
    ensures
        crate::render_pass::after_frame(pass, frame).wf(),
        crate::render_pass::after_frame(pass, frame) == (RenderPassView {
            shader_viewport: crate::render_pass::after_frame(pass, frame).shader_viewport,
            ..pass
        }),
{
}

/// To load the module that a new render pass has already, for the same surface, changes nothing.
pub proof fn law_reload_same_module(
    pass: RenderPassView,
    features: Features,
    format: wgpu::TextureFormat,
    shader: Seq<u8>,
    groups: Seq<Vec<BufferDescriptor>>,
)
    requires
        crate::render_pass::is_new_pass(pass, features, format, shader, groups),
    ensures
        crate::render_pass::after_reload(pass, format, shader) == pass,
{
}

/// To load a module disturbs no frame: the render pass stays well-formed, the steps of the next
/// frame are the same, and so is what the frame leaves behind but for the pipelines. Of two modules
/// the one loaded last counts.
pub proof fn law_reload_between_frames(
    pass: RenderPassView,
    format: wgpu::TextureFormat,
    shader: Seq<u8>,
    earlier_format: wgpu::TextureFormat,
    earlier: Seq<u8>,
    frame: UiFrame,
)
    requires
        pass.wf(),
    ensures
        crate::render_pass::after_reload(pass, format, shader).wf(),
        crate::render_pass::ui_commands(
            crate::render_pass::after_reload(pass, format, shader),
            frame,
        ) == crate::render_pass::ui_commands(pass, frame),
        crate::render_pass::after_frame(
            crate::render_pass::after_reload(pass, format, shader),
            frame,
        ) == crate::render_pass::after_reload(
            crate::render_pass::after_frame(pass, frame),
            format,
            shader,
        ),
        crate::render_pass::after_reload(
            crate::render_pass::after_reload(pass, earlier_format, earlier),
            format,
            shader,
        ) == crate::render_pass::after_reload(pass, format, shader),
{
    let reloaded = crate::render_pass::after_reload(pass, format, shader);
    assert(crate::render_pass::bind_all(reloaded) =~= crate::render_pass::bind_all(pass));
    assert(crate::render_pass::ui_commands(reloaded, frame) =~= crate::render_pass::ui_commands(
        pass,
        frame,
    ));
}

/// Every bind group has the layout of its own number, and binds to each binding of that layout,
/// and to no other, a buffer of its own.
pub proof fn law_groups_match_layouts(
    features: Features,
    format: wgpu::TextureFormat,
    groups: Seq<Vec<BufferDescriptor>>,
    i: int,
)
    requires
        groups.len() < usize::MAX,
        forall|g: int| 0 <= g < groups.len() ==> (#[trigger] groups[g])@.len() <= usize::MAX,
        0 <= i < crate::render_pass::group_count(features, groups),
    ensures
        ({
            let setup = crate::render_pass::setup_of(features, format, groups);
            let layout = setup.bind_group_layouts[i];
            let group = setup.bind_groups[i];
            &&& setup.bind_group_layouts.len() == setup.bind_groups.len()
            &&& setup.bind_groups.len() == crate::render_pass::group_count(features, groups)
            &&& group.layout == i
            &&& group.entries.len() == layout.entries.len()
            &&& group.entries.len() == group.buffers.len()
            &&& forall|j: int|
                0 <= j < group.entries.len() ==> {
                    &&& (#[trigger] group.entries[j]).binding == layout.entries[j].binding
                    &&& group.entries[j].buffer == j
                }
        }),
{
}

/// No two bindings of a layout are the same, up to `2^32` buffers in a group.
pub proof fn law_bindings_distinct(i: int, group: Seq<BufferDescriptor>)
    requires
        group.len() <= 0x1_0000_0000,
    ensures
        crate::bind_group::group_layout(i, group).entries.len() == group.len(),
        forall|j: int, k: int|
            0 <= j < k < group.len() ==> (#[trigger] crate::bind_group::group_layout(
                i,
                group,
            ).entries[j]).binding != (#[trigger] crate::bind_group::group_layout(
                i,
                group,
            ).entries[k]).binding,
{
}

/// Whether `slot` is that of a described buffer which the controller writes to.
pub open spec fn is_writable(groups: Seq<Vec<BufferDescriptor>>, slot: BufferSlot) -> bool {
    &&& slot.group < groups.len()
    &&& slot.buffer < groups[slot.group as int]@.len()
    &&& groups[slot.group as int]@[slot.buffer as int].cpu_writable
}

/// Whether `a` comes before `b`: in an earlier group, or earlier in the same one.
pub open spec fn before(a: BufferSlot, b: BufferSlot) -> bool {
    a.group < b.group || (a.group == b.group && a.buffer < b.buffer)
}

proof fn lemma_group_slots(i: int, group: Seq<BufferDescriptor>, len: nat)
    requires
        len <= group.len() <= usize::MAX,
        0 <= i <= usize::MAX,
    ensures
        ({
            let slots = crate::bind_group::group_slots(i, group, len);
            &&& forall|k: int|
                0 <= k < slots.len() ==> (#[trigger] slots[k]).group == i && slots[k].buffer < len
                    && group[slots[k].buffer as int].cpu_writable
            &&& forall|k: int, l: int| 0 <= k < l < slots.len() ==> slots[k].buffer < slots[l].buffer
            &&& forall|j: int|
                0 <= j < len && (#[trigger] group[j]).cpu_writable ==> slots.contains(
                    BufferSlot { group: i as usize, buffer: j as usize },
                )
        }),
    decreases len,
{
    if len > 0 {
        lemma_group_slots(i, group, (len - 1) as nat);
        let earlier = crate::bind_group::group_slots(i, group, (len - 1) as nat);
        let slots = crate::bind_group::group_slots(i, group, len);
        assert forall|j: int| 0 <= j < len && (#[trigger] group[j]).cpu_writable implies slots.contains(
            BufferSlot { group: i as usize, buffer: j as usize },
        ) by {
            let slot = BufferSlot { group: i as usize, buffer: j as usize };
            if j < len - 1 {
                let k = choose|k: int| 0 <= k < earlier.len() && earlier[k] == slot;
                assert(slots[k] == slot);
            } else {
                assert(slots.last() == slot);
            }
        }
    }
}

/// The controller gets exactly the buffers that it asked to write to, each once, in the order in
/// which it described them.
pub proof fn law_controller_gets_writable(groups: Seq<Vec<BufferDescriptor>>, len: nat)
    requires
        len <= groups.len() <= usize::MAX,
        forall|g: int| 0 <= g < groups.len() ==> (#[trigger] groups[g])@.len() <= usize::MAX,
    ensures
        ({
            let slots = crate::bind_group::writable_slots(groups, len);
            &&& forall|slot: BufferSlot| #[trigger]
                slots.contains(slot) <==> is_writable(groups, slot) && slot.group < len
            &&& forall|k: int, l: int| 0 <= k < l < slots.len() ==> before(slots[k], slots[l])
        }),
    decreases len,
{
    let slots = crate::bind_group::writable_slots(groups, len);
    if len > 0 {
        let i = len - 1;
        let group = groups[i]@;
        let earlier = crate::bind_group::writable_slots(groups, i as nat);
        let own = crate::bind_group::group_slots(i, group, group.len());
        law_controller_gets_writable(groups, i as nat);
        lemma_group_slots(i, group, group.len());
        assert forall|slot: BufferSlot| #[trigger]
            slots.contains(slot) <==> is_writable(groups, slot) && slot.group < len by {
            if slots.contains(slot) {
                let k = choose|k: int| 0 <= k < slots.len() && slots[k] == slot;
                if k < earlier.len() {
                    assert(earlier.contains(earlier[k]));
                } else {
                    assert(own[k - earlier.len()] == slot);
                }
            }
            if is_writable(groups, slot) && slot.group < len {
                if slot.group < i {
                    let k = choose|k: int| 0 <= k < earlier.len() && earlier[k] == slot;
                    assert(earlier.contains(slot));
                    assert(slots[k] == slot);
                } else {
                    assert(group[slot.buffer as int].cpu_writable);
                    let k = choose|k: int| 0 <= k < own.len() && own[k] == slot;
                    assert(slots[earlier.len() + k] == slot);
                }
            }
        }
        assert forall|k: int, l: int| 0 <= k < l < slots.len() implies before(slots[k], slots[l]) by {
            if k < earlier.len() {
                assert(earlier.contains(earlier[k]));
            }
            if l >= earlier.len() {
                assert(own[l - earlier.len()] == slots[l]);
                if k >= earlier.len() {
                    assert(own[k - earlier.len()] == slots[k]);
                }
            }
        }
    }
}

/// The slot that `slot` becomes where `n` groups are described before its own.
pub open spec fn moved_by(slot: BufferSlot, n: nat) -> BufferSlot {
    BufferSlot { group: (slot.group + n) as usize, buffer: slot.buffer }
}

proof fn lemma_group_slots_moved(i: int, n: nat, group: Seq<BufferDescriptor>, len: nat)
    requires
        0 <= i,
        i + n <= usize::MAX,
    ensures
        crate::bind_group::group_slots(i + n, group, len) == crate::bind_group::group_slots(
            i,
            group,
            len,
        ).map_values(|slot: BufferSlot| moved_by(slot, n)),
    decreases len,
{
    let moved = |slot: BufferSlot| moved_by(slot, n);
    if len > 0 {
        lemma_group_slots_moved(i, n, group, (len - 1) as nat);
    }
    assert(crate::bind_group::group_slots(i + n, group, len)
        =~= crate::bind_group::group_slots(i, group, len).map_values(moved));
}

/// Groups described after others hand out their buffers after those of the others, and the same
/// ones as by themselves.
pub proof fn law_writable_buffers_join(
    first: Seq<Vec<BufferDescriptor>>,
    second: Seq<Vec<BufferDescriptor>>,
    len: nat,
)
    requires
        first.len() + second.len() <= usize::MAX,
        len <= second.len(),
    ensures
        crate::bind_group::writable_slots(first + second, first.len() + len)
            == crate::bind_group::writable_slots(first, first.len())
            + crate::bind_group::writable_slots(second, len).map_values(
            |slot: BufferSlot| moved_by(slot, first.len()),
        ),
    decreases len,
{
    let n = first.len();
    let moved = |slot: BufferSlot| moved_by(slot, n);
    let of_first = crate::bind_group::writable_slots(first, n);
    if len == 0 {
        lemma_writable_slots_prefix(first, second, n);
        assert(crate::bind_group::writable_slots(second, 0).map_values(moved) =~= Seq::empty());
        assert(of_first + Seq::empty() =~= of_first);
    } else {
        let last = (len - 1) as nat;
        law_writable_buffers_join(first, second, last);
        assert((first + second)[(n + last) as int] == second[last as int]);
        let group = second[last as int]@;
        lemma_group_slots_moved(last as int, n, group, group.len());
        let earlier = crate::bind_group::writable_slots(second, last);
        let own = crate::bind_group::group_slots(last as int, group, group.len());
        assert((earlier + own).map_values(moved) =~= earlier.map_values(moved) + own.map_values(
            moved,
        ));
        assert(of_first + (earlier.map_values(moved) + own.map_values(moved)) =~= (of_first
            + earlier.map_values(moved)) + own.map_values(moved));
    }
}

proof fn lemma_writable_slots_prefix(
    first: Seq<Vec<BufferDescriptor>>,
    second: Seq<Vec<BufferDescriptor>>,
    len: nat,
)
    requires
        len <= first.len(),
    ensures
        crate::bind_group::writable_slots(first + second, len)
            == crate::bind_group::writable_slots(first, len),
    decreases len,
{
    if len > 0 {
        lemma_writable_slots_prefix(first, second, (len - 1) as nat);
    }
}

/// Every described buffer starts with its data, and can be the target of copies just where the
/// controller writes to it.
pub proof fn law_usage_allows_writes(
    features: Features,
    format: wgpu::TextureFormat,
    groups: Seq<Vec<BufferDescriptor>>,
    i: int,
    j: int,
)
    requires
        0 <= i < groups.len(),
        0 <= j < groups[i]@.len(),
    ensures
        ({
            let setup = crate::render_pass::setup_of(features, format, groups);
            let buffer = setup.bind_groups[i].buffers[j];
            &&& buffer.contents == BufferContents::Data(groups[i]@[j].data)
            &&& buffer.usage & STORAGE == STORAGE
            &&& buffer.usage & COPY_DST == COPY_DST <==> groups[i]@[j].cpu_writable
        }),
{
    assert((0x80u32 | 0x08u32) & 0x80u32 == 0x80u32) by (bit_vector);
    assert((0x80u32 | 0x08u32) & 0x08u32 == 0x08u32) by (bit_vector);
    assert(0x80u32 & 0x80u32 == 0x80u32) by (bit_vector);
    assert(0x80u32 & 0x08u32 == 0u32) by (bit_vector);
}

/// The stage that sees the constants of a pipeline.
pub open spec fn constants_stage(kind: PipelineKind) -> u32 {
    match kind {
        PipelineKind::Render => FRAGMENT,
        PipelineKind::Compute => COMPUTE,
    }
}

/// Each pipeline has a place of its own for its constants. Without emulation that is a range of
/// push constants, which the pipeline's layout grants to its stage; with it, a buffer of the same
/// size, which can be written to and which the pipeline's stage, and only that, reads.
pub proof fn law_constants_have_a_place(
    pass: RenderPassView,
    features: Features,
    format: wgpu::TextureFormat,
    shader: Seq<u8>,
    groups: Seq<Vec<BufferDescriptor>>,
    kind: PipelineKind,
)
    requires
        crate::render_pass::is_new_pass(pass, features, format, shader, groups),
        groups.len() < usize::MAX,
        kind is Compute ==> features.compute,
    ensures
        match crate::render_pass::constants_target(pass, kind) {
            ConstantsTarget::PushConstants { stages, first_byte } => {
                let layout = match kind {
                    PipelineKind::Render => pass.pipeline_layouts.render,
                    PipelineKind::Compute => pass.pipeline_layouts.compute->0,
                };
                &&& !features.emulate_constants
                &&& first_byte == 0
                &&& stages matches Some(bits) ==> bits == constants_stage(kind)
                &&& layout.push_constant_ranges == seq![
                    PushConstantRange {
                        stages: constants_stage(kind),
                        start: 0,
                        end: CONSTANTS_SIZE,
                    },
                ]
            },
            ConstantsTarget::Buffer { slot, offset } => {
                let setup = crate::render_pass::setup_of(features, format, groups);
                let buffer = setup.bind_groups[slot.group as int].buffers[slot.buffer as int];
                let entry = setup.bind_group_layouts[slot.group as int].entries[slot.buffer as int];
                &&& features.emulate_constants
                &&& offset == 0
                &&& slot.group == groups.len()
                &&& slot.buffer < pass.bind_group_data[slot.group as int].buffers
                &&& buffer.contents == BufferContents::Zeroed(CONSTANTS_SIZE as usize)
                &&& buffer.usage == STORAGE | COPY_DST
                &&& entry.binding == slot.buffer
                &&& entry.visibility == constants_stage(kind)
                &&& entry.read_only
            },
        },
{
    let setup = crate::render_pass::setup_of(features, format, groups);
    if features.emulate_constants {
        let last = groups.len() as int;
        assert(setup.bind_groups[last] == crate::bind_group::constants_setup(
            features,
            crate::render_pass::group_count(features, groups),
        ));
        assert(pass.bind_group_data[last] == crate::render_pass::kept(setup.bind_groups[last]));
    }
}

/// A pass binds every bind group of its pipeline's layout, each to the position that the layout
/// gives it, up to `2^32` groups.
pub proof fn law_all_groups_bound(pass: RenderPassView)
    requires
        pass.wf(),
        pass.bind_group_data.len() <= 0x1_0000_0000,
        pass.bind_group_data.len() <= usize::MAX,
    ensures
        ({
            let bound = crate::render_pass::bind_all(pass);
            &&& bound.len() == pass.pipeline_layouts.render.bind_group_layouts.len()
            &&& pass.pipeline_layouts.compute matches Some(layout) ==> bound.len()
                == layout.bind_group_layouts.len()
            &&& forall|i: int|
                0 <= i < bound.len() ==> (#[trigger] bound[i] matches Command::SetBindGroup {
                    index,
                    group,
                } && index == i && group == pass.pipeline_layouts.render.bind_group_layouts[i])
        }),
{
}

} // verus!
