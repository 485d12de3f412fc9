//! What a frame and a dispatch are made of, kind of step by kind of step.
//!
//! Each law here lists, for one operation, all steps of every kind; together with the order of the
//! kinds that leaves no step open.

use crate::command::{
    Command, ConstantsTarget, LoadOp, Offset, RenderPassDescriptor, ShaderArea, StoreOp,
    SurfaceError, UiFrame, Viewport,
};
use crate::dispatch::Extent3;
use crate::pipeline::PipelineKind;
use crate::render_pass::RenderPassView;
use crate::single::{Edges, Single};
use vstd::prelude::*;

verus! {

/// The kinds of steps.
pub enum StepKind {
    CreateEncoder,
    BeginRenderPass,
    BeginComputePass,
    Resize,
    SetViewport,
    SetPipeline,
    PrepareRender,
    SetConstants,
    SetBindGroup,
    Draw,
    DispatchWorkgroups,
    UpdateTexture,
    UpdateBuffers,
    FreeTexture,
    RenderUi,
    EndPass,
    Submit,
    ReportError,
    ConfigureSurface,
    Present,
}

/// The kind of a step.
pub open spec fn kind_of(command: Command) -> StepKind {
    match command {
        Command::CreateEncoder { .. } => StepKind::CreateEncoder,
        Command::BeginRenderPass(_) => StepKind::BeginRenderPass,
        Command::BeginComputePass { .. } => StepKind::BeginComputePass,
        Command::Resize(_) => StepKind::Resize,
        Command::SetViewport(_) => StepKind::SetViewport,
        Command::SetPipeline(_) => StepKind::SetPipeline,
        Command::PrepareRender { .. } => StepKind::PrepareRender,
        Command::SetConstants { .. } => StepKind::SetConstants,
        Command::SetBindGroup { .. } => StepKind::SetBindGroup,
        Command::Draw { .. } => StepKind::Draw,
        Command::DispatchWorkgroups(_) => StepKind::DispatchWorkgroups,
        Command::UpdateTexture(_) => StepKind::UpdateTexture,
        Command::UpdateBuffers(_) => StepKind::UpdateBuffers,
        Command::FreeTexture(_) => StepKind::FreeTexture,
        Command::RenderUi(_) => StepKind::RenderUi,
        Command::EndPass => StepKind::EndPass,
        Command::Submit => StepKind::Submit,
        Command::ReportError(_) => StepKind::ReportError,
        Command::ConfigureSurface => StepKind::ConfigureSurface,
        Command::Present => StepKind::Present,
    }
}

/// Which kinds come before which between the opening of an encoder and its submission. Textures
/// are uploaded before.
pub open spec fn turn(kind: StepKind) -> int {
    match kind {
        StepKind::ReportError => 0,
        StepKind::ConfigureSurface => 1,
        StepKind::UpdateTexture => 2,
        StepKind::CreateEncoder => 3,
        StepKind::UpdateBuffers => 4,
        StepKind::BeginRenderPass => 5,
        StepKind::BeginComputePass => 5,
        StepKind::Resize => 6,
        StepKind::FreeTexture => 6,
        StepKind::SetViewport => 7,
        StepKind::SetPipeline => 8,
        StepKind::PrepareRender => 9,
        StepKind::SetConstants => 9,
        StepKind::SetBindGroup => 10,
        StepKind::Draw => 11,
        StepKind::DispatchWorkgroups => 11,
        StepKind::RenderUi => 11,
        StepKind::EndPass => 12,
        StepKind::Submit => 13,
        StepKind::Present => 14,
    }
}

/// Whether the steps come in the turns of their kinds.
pub open spec fn in_turn(commands: Seq<Command>) -> bool {
    forall|i: int, j: int|
        0 <= i < j < commands.len() ==> turn(kind_of(#[trigger] commands[i])) <= turn(
            kind_of(#[trigger] commands[j]),
        )
}

/// The steps of one kind, in their order.
pub open spec fn of_kind<'a>(commands: Seq<Command<'a>>, kind: StepKind) -> Seq<Command<'a>>
    decreases commands.len(),
{
    if commands.len() == 0 {
        Seq::empty()
    } else {
        let before = of_kind(commands.drop_last(), kind);
        if kind_of(commands.last()) == kind {
            before.push(commands.last())
        } else {
            before
        }
    }
}

/// Where the steps of a kind stand together, they are what stands there.
proof fn lemma_of_kind(commands: Seq<Command>, kind: StepKind, a: int, b: int)
    requires
        0 <= a <= b <= commands.len(),
        forall|i: int|
            0 <= i < commands.len() ==> ((a <= i < b) <==> kind_of(#[trigger] commands[i]) == kind),
    ensures
        of_kind(commands, kind) == commands.subrange(a, b),
    decreases commands.len(),
{
    if commands.len() > 0 {
        let l = commands.len() - 1;
        let rest = commands.drop_last();
        assert(kind_of(commands[l]) == kind <==> a <= l < b);
        assert forall|i: int| 0 <= i < rest.len() implies ((a <= i < b) <==> kind_of(
            #[trigger] rest[i],
        ) == kind) by {
            assert(rest[i] == commands[i]);
        }
        if a <= l && l < b {
            assert forall|i: int| 0 <= i < rest.len() implies ((a <= i < l) <==> kind_of(
                #[trigger] rest[i],
            ) == kind) by {}
            lemma_of_kind(rest, kind, a, l);
            assert(commands.subrange(a, b) =~= rest.subrange(a, l).push(commands[l]));
        } else if b <= l {
            lemma_of_kind(rest, kind, a, b);
            assert(commands.subrange(a, b) =~= rest.subrange(a, b));
        } else {
            lemma_of_kind(rest, kind, l, l);
            assert(commands.subrange(a, b) =~= Seq::empty());
            assert(rest.subrange(l, l) =~= Seq::empty());
        }
    } else {
        assert(commands.subrange(a, b) =~= Seq::empty());
    }
}

proof fn lemma_of_kind_concat(first: Seq<Command>, second: Seq<Command>, kind: StepKind)
    ensures
        of_kind(first + second, kind) == of_kind(first, kind) + of_kind(second, kind),
    decreases second.len(),
{
    if second.len() == 0 {
        assert(first + second =~= first);
        assert(of_kind(first, kind) + of_kind(second, kind) =~= of_kind(first, kind));
    } else {
        assert((first + second).drop_last() =~= first + second.drop_last());
        lemma_of_kind_concat(first, second.drop_last(), kind);
        assert(of_kind(first + second, kind) =~= of_kind(first, kind) + of_kind(second, kind));
    }
}

/// The kinds of the steps of a dispatch over `n` bind groups, by position.
spec fn dispatch_kind(n: int, i: int) -> StepKind {
    if i == 0 {
        StepKind::CreateEncoder
    } else if i == 1 {
        StepKind::BeginComputePass
    } else if i == 2 {
        StepKind::SetPipeline
    } else if i == 3 {
        StepKind::SetConstants
    } else if i < 4 + n {
        StepKind::SetBindGroup
    } else if i == 4 + n {
        StepKind::DispatchWorkgroups
    } else if i == 5 + n {
        StepKind::EndPass
    } else {
        StepKind::Submit
    }
}

/// Every dispatch, whatever its dimensions, is one compute pass of one encoder, which is submitted
/// once. It sets the compute pipeline; passes the given constants, once and to the compute
/// pipeline's own place; binds every bind group to its number; and runs, once, the workgroups that
/// each axis takes.
pub proof fn law_dispatch_is_one_pass(
    pass: RenderPassView,
    dimensions: Extent3,
    threads: Extent3,
    push_constants: &[u8],
)
    requires
        pass.bind_group_data.len() <= usize::MAX,
        pass.features.emulate_constants ==> pass.bind_group_data.len() > 0,
    ensures
        ({
            let all = crate::render_pass::compute_commands(
                pass,
                dimensions,
                threads,
                push_constants,
            );
            let n = pass.bind_group_data.len();
            &&& in_turn(all)
            &&& all.len() == n + 7
            &&& of_kind(all, StepKind::CreateEncoder) == seq![
                Command::CreateEncoder { label: None },
            ]
            &&& of_kind(all, StepKind::BeginComputePass) == seq![
                Command::BeginComputePass { label: None, timestamps: false },
            ]
            &&& of_kind(all, StepKind::SetPipeline) == seq![
                Command::SetPipeline(PipelineKind::Compute),
            ]
            &&& of_kind(all, StepKind::SetConstants).len() == 1
            &&& of_kind(all, StepKind::SetConstants)[0] matches Command::SetConstants {
                target,
                data,
            } && {
                &&& data == push_constants
                &&& target matches ConstantsTarget::Buffer { slot, offset }
                    ==> pass.features.emulate_constants && slot.group == n - 1 && slot.buffer == 1
                    && offset == 0
                &&& target matches ConstantsTarget::PushConstants { stages, first_byte }
                    ==> !pass.features.emulate_constants && stages is None && first_byte == 0
            }
            &&& of_kind(all, StepKind::SetBindGroup).len() == n
            &&& forall|i: int|
                0 <= i < n ==> (#[trigger] of_kind(
                    all,
                    StepKind::SetBindGroup,
                )[i] matches Command::SetBindGroup { index, group } && index == i as u32 && group
                    == i)
            &&& of_kind(all, StepKind::DispatchWorkgroups).len() == 1
            &&& of_kind(
                all,
                StepKind::DispatchWorkgroups,
            )[0] matches Command::DispatchWorkgroups(count) && {
                &&& count.x == crate::dispatch::workgroups(dimensions.x, threads.x)
                &&& count.y == crate::dispatch::workgroups(dimensions.y, threads.y)
                &&& count.z == crate::dispatch::workgroups(dimensions.z, threads.z)
            }
            &&& of_kind(all, StepKind::EndPass) == seq![Command::EndPass]
            &&& of_kind(all, StepKind::Submit) == seq![Command::Submit]
        }),
{
    let all = crate::render_pass::compute_commands(pass, dimensions, threads, push_constants);
    let n = pass.bind_group_data.len() as int;
    assert forall|i: int| 0 <= i < all.len() implies kind_of(#[trigger] all[i]) == dispatch_kind(
        n,
        i,
    ) by {}
    lemma_of_kind(all, StepKind::CreateEncoder, 0, 1);
    lemma_of_kind(all, StepKind::BeginComputePass, 1, 2);
    lemma_of_kind(all, StepKind::SetPipeline, 2, 3);
    lemma_of_kind(all, StepKind::SetConstants, 3, 4);
    lemma_of_kind(all, StepKind::SetBindGroup, 4, 4 + n);
    lemma_of_kind(all, StepKind::DispatchWorkgroups, 4 + n, 5 + n);
    lemma_of_kind(all, StepKind::EndPass, 5 + n, 6 + n);
    lemma_of_kind(all, StepKind::Submit, 6 + n, 7 + n);
}

/// The kinds of the steps of a shader's picture, by position: `r` resizes, `n` bind groups.
spec fn shader_kind(r: int, n: int, i: int) -> StepKind {
    if i == 0 {
        StepKind::CreateEncoder
    } else if i == 1 {
        StepKind::BeginRenderPass
    } else if i < 2 + r {
        StepKind::Resize
    } else if i == 2 + r {
        StepKind::SetViewport
    } else if i == 3 + r {
        StepKind::SetPipeline
    } else if i == 4 + r {
        StepKind::PrepareRender
    } else if i < 5 + r + n {
        StepKind::SetBindGroup
    } else if i == 5 + r + n {
        StepKind::Draw
    } else if i == 6 + r + n {
        StepKind::EndPass
    } else {
        StepKind::Submit
    }
}

/// Every picture of the shader, whether its area has moved or not, is one render pass of one
/// encoder, which is submitted once. The pass clears the surface and stores. It sets the viewport
/// to the area's own corner and size; sets the render pipeline; asks the controller for the
/// constants of that corner, and passes them to the render pipeline's own place; binds every bind
/// group to its number; and draws one triangle, once. The controller hears of the area's size just
/// where the area has moved.
pub proof fn law_shader_is_one_pass(pass: RenderPassView, area: ShaderArea)
    requires
        pass.bind_group_data.len() <= usize::MAX,
        pass.features.emulate_constants ==> pass.bind_group_data.len() > 0,
    ensures
        ({
            let all = crate::render_pass::shader_commands(pass, area);
            let n = pass.bind_group_data.len();
            let moved = !(pass.shader_viewport.left.same_number(area.edges.left)
                && pass.shader_viewport.top.same_number(area.edges.top)
                && pass.shader_viewport.right.same_number(area.edges.right)
                && pass.shader_viewport.bottom.same_number(area.edges.bottom));
            let filled = if moved {
                area.edges
            } else {
                pass.shader_viewport
            };
            &&& in_turn(all)
            &&& all.len() == if moved {
                n + 9
            } else {
                n + 8
            }
            &&& of_kind(all, StepKind::CreateEncoder) == seq![
                Command::CreateEncoder { label: Some("Shader Encoder") },
            ]
            &&& of_kind(all, StepKind::BeginRenderPass) == seq![
                Command::BeginRenderPass(
                    RenderPassDescriptor {
                        label: Some("Shader Render Pass"),
                        load: LoadOp::ClearGreen,
                        store: StoreOp::Store,
                        resolves: false,
                        depth_stencil: false,
                        occlusion_queries: false,
                        timestamps: false,
                    },
                ),
            ]
            &&& of_kind(all, StepKind::Resize) == if moved {
                seq![Command::Resize(area.pixels)]
            } else {
                Seq::empty()
            }
            &&& of_kind(all, StepKind::SetViewport) == seq![
                Command::SetViewport(
                    Viewport {
                        offset: Offset { x: filled.left, y: filled.top },
                        size: area.size,
                        min_depth: Single { bits: 0 },
                        max_depth: Single { bits: 0x3f80_0000 },
                    },
                ),
            ]
            &&& of_kind(all, StepKind::SetPipeline) == seq![
                Command::SetPipeline(PipelineKind::Render),
            ]
            &&& of_kind(all, StepKind::PrepareRender).len() == 1
            &&& of_kind(all, StepKind::PrepareRender)[0] matches Command::PrepareRender {
                offset,
                target,
            } && {
                &&& offset.x == filled.left
                &&& offset.y == filled.top
                &&& target matches ConstantsTarget::Buffer { slot, offset }
                    ==> pass.features.emulate_constants && slot.group == n - 1 && slot.buffer == 0
                    && offset == 0
                &&& target matches ConstantsTarget::PushConstants { stages, first_byte }
                    ==> !pass.features.emulate_constants && stages == Some(
                    crate::flags::FRAGMENT,
                ) && first_byte == 0
            }
            &&& of_kind(all, StepKind::SetBindGroup).len() == n
            &&& forall|i: int|
                0 <= i < n ==> (#[trigger] of_kind(
                    all,
                    StepKind::SetBindGroup,
                )[i] matches Command::SetBindGroup { index, group } && index == i as u32 && group
                    == i)
            &&& of_kind(all, StepKind::Draw) == seq![
                Command::Draw {
                    first_vertex: 0,
                    end_vertex: 3,
                    first_instance: 0,
                    end_instance: 1,
                },
            ]
            &&& of_kind(all, StepKind::EndPass) == seq![Command::EndPass]
            &&& of_kind(all, StepKind::Submit) == seq![Command::Submit]
        }),
{
    let all = crate::render_pass::shader_commands(pass, area);
    let n = pass.bind_group_data.len() as int;
    let r: int = if pass.shader_viewport.same_rect(area.edges) {
        0
    } else {
        1
    };
    assert forall|i: int| 0 <= i < all.len() implies kind_of(#[trigger] all[i]) == shader_kind(
        r,
        n,
        i,
    ) by {}
    lemma_of_kind(all, StepKind::CreateEncoder, 0, 1);
    lemma_of_kind(all, StepKind::BeginRenderPass, 1, 2);
    lemma_of_kind(all, StepKind::Resize, 2, 2 + r);
    lemma_of_kind(all, StepKind::SetViewport, 2 + r, 3 + r);
    lemma_of_kind(all, StepKind::SetPipeline, 3 + r, 4 + r);
    lemma_of_kind(all, StepKind::PrepareRender, 4 + r, 5 + r);
    lemma_of_kind(all, StepKind::SetBindGroup, 5 + r, 5 + r + n);
    lemma_of_kind(all, StepKind::Draw, 5 + r + n, 6 + r + n);
    lemma_of_kind(all, StepKind::EndPass, 6 + r + n, 7 + r + n);
    lemma_of_kind(all, StepKind::Submit, 7 + r + n, 8 + r + n);
}

/// The kinds of the steps of the user interface, by position: `s` changed textures, `f` freed ones.
spec fn overlay_kind(s: int, f: int, i: int) -> StepKind {
    if i < s {
        StepKind::UpdateTexture
    } else if i == s {
        StepKind::CreateEncoder
    } else if i == s + 1 {
        StepKind::UpdateBuffers
    } else if i == s + 2 {
        StepKind::BeginRenderPass
    } else if i < s + 3 + f {
        StepKind::FreeTexture
    } else if i == s + 3 + f {
        StepKind::RenderUi
    } else if i == s + 4 + f {
        StepKind::EndPass
    } else {
        StepKind::Submit
    }
}

/// Every user interface, whatever textures change, is one render pass of one encoder, which is
/// submitted once. Each changed texture is uploaded first, then the vertices for the screen. The
/// pass keeps what the surface shows and stores. It frees each texture that is no longer needed,
/// and draws the user interface, once, for that screen.
pub proof fn law_overlay_is_one_pass(frame: UiFrame)
    ensures
        ({
            let all = crate::render_pass::overlay_commands(frame);
            &&& in_turn(all)
            &&& all.len() == frame.textures_set + frame.textures_free + 6
            &&& of_kind(all, StepKind::UpdateTexture).len() == frame.textures_set
            &&& forall|i: int|
                0 <= i < frame.textures_set ==> (#[trigger] of_kind(
                    all,
                    StepKind::UpdateTexture,
                )[i] matches Command::UpdateTexture(texture) && texture == i)
            &&& of_kind(all, StepKind::CreateEncoder) == seq![
                Command::CreateEncoder { label: Some("UI Encoder") },
            ]
            &&& of_kind(all, StepKind::UpdateBuffers) == seq![Command::UpdateBuffers(frame.screen)]
            &&& of_kind(all, StepKind::BeginRenderPass) == seq![
                Command::BeginRenderPass(
                    RenderPassDescriptor {
                        label: Some("UI Render Pass"),
                        load: LoadOp::Load,
                        store: StoreOp::Store,
                        resolves: false,
                        depth_stencil: false,
                        occlusion_queries: false,
                        timestamps: false,
                    },
                ),
            ]
            &&& of_kind(all, StepKind::FreeTexture).len() == frame.textures_free
            &&& forall|i: int|
                0 <= i < frame.textures_free ==> (#[trigger] of_kind(
                    all,
                    StepKind::FreeTexture,
                )[i] matches Command::FreeTexture(texture) && texture == i)
            &&& of_kind(all, StepKind::RenderUi) == seq![Command::RenderUi(frame.screen)]
            &&& of_kind(all, StepKind::EndPass) == seq![Command::EndPass]
            &&& of_kind(all, StepKind::Submit) == seq![Command::Submit]
        }),
{
    let all = crate::render_pass::overlay_commands(frame);
    let s = frame.textures_set as int;
    let f = frame.textures_free as int;
    assert forall|i: int| 0 <= i < all.len() implies kind_of(#[trigger] all[i]) == overlay_kind(
        s,
        f,
        i,
    ) by {}
    lemma_of_kind(all, StepKind::UpdateTexture, 0, s);
    lemma_of_kind(all, StepKind::CreateEncoder, s, s + 1);
    lemma_of_kind(all, StepKind::UpdateBuffers, s + 1, s + 2);
    lemma_of_kind(all, StepKind::BeginRenderPass, s + 2, s + 3);
    lemma_of_kind(all, StepKind::FreeTexture, s + 3, s + 3 + f);
    lemma_of_kind(all, StepKind::RenderUi, s + 3 + f, s + 4 + f);
    lemma_of_kind(all, StepKind::EndPass, s + 4 + f, s + 5 + f);
    lemma_of_kind(all, StepKind::Submit, s + 5 + f, s + 6 + f);
}

/// The kinds of the steps of a shader's picture.
proof fn lemma_shader_kinds(pass: RenderPassView, area: ShaderArea)
    ensures
        ({
            let all = crate::render_pass::shader_commands(pass, area);
            forall|i: int|
                0 <= i < all.len() ==> {
                    ||| kind_of(#[trigger] all[i]) is CreateEncoder
                    ||| kind_of(all[i]) is BeginRenderPass
                    ||| kind_of(all[i]) is Resize
                    ||| kind_of(all[i]) is SetViewport
                    ||| kind_of(all[i]) is SetPipeline
                    ||| kind_of(all[i]) is PrepareRender
                    ||| kind_of(all[i]) is SetBindGroup
                    ||| kind_of(all[i]) is Draw
                    ||| kind_of(all[i]) is EndPass
                    ||| kind_of(all[i]) is Submit
                }
        }),
{
}

/// The kinds of the steps of a user interface.
proof fn lemma_overlay_kinds(frame: UiFrame)
    ensures
        ({
            let all = crate::render_pass::overlay_commands(frame);
            forall|i: int|
                0 <= i < all.len() ==> {
                    ||| kind_of(#[trigger] all[i]) is UpdateTexture
                    ||| kind_of(all[i]) is CreateEncoder
                    ||| kind_of(all[i]) is UpdateBuffers
                    ||| kind_of(all[i]) is BeginRenderPass
                    ||| kind_of(all[i]) is FreeTexture
                    ||| kind_of(all[i]) is RenderUi
                    ||| kind_of(all[i]) is EndPass
                    ||| kind_of(all[i]) is Submit
                }
        }),
{
}

/// Steps none of which is of a kind hold none of that kind.
proof fn lemma_none_of_kind(commands: Seq<Command>, kind: StepKind)
    requires
        forall|i: int| 0 <= i < commands.len() ==> kind_of(#[trigger] commands[i]) != kind,
    ensures
        of_kind(commands, kind).len() == 0,
{
    lemma_of_kind(commands, kind, 0, 0);
}

/// The steps of a frame are those that draw the user interface. Just where the area that the user
/// interface leaves has a width and a height above 0, they come after those that fill the area with
/// the shader's picture; else nothing is drawn of the shader.
pub proof fn law_frame_fills_room(pass: RenderPassView, frame: UiFrame)
    ensures
        ({
            let all = crate::render_pass::ui_commands(pass, frame);
            let room = frame.available.x.bits != 0 && frame.available.x.bits <= 0x7f80_0000
                && frame.available.y.bits != 0 && frame.available.y.bits <= 0x7f80_0000;
            let overlay = crate::render_pass::overlay_commands(frame);
            let shader = crate::render_pass::shader_commands(pass, frame.area);
            &&& room ==> all == shader + overlay
            &&& !room ==> all == overlay
        }),
{
}

/// The steps of one kind in a frame: those of the shader's picture, where there is room for it, and
/// those of the user interface.
proof fn lemma_frame_kind(pass: RenderPassView, frame: UiFrame, kind: StepKind)
    ensures
        of_kind(crate::render_pass::ui_commands(pass, frame), kind)
            == if crate::render_pass::has_room(frame) {
            of_kind(crate::render_pass::shader_commands(pass, frame.area), kind) + of_kind(
                crate::render_pass::overlay_commands(frame),
                kind,
            )
        } else {
            of_kind(crate::render_pass::overlay_commands(frame), kind)
        },
{
    if crate::render_pass::has_room(frame) {
        lemma_of_kind_concat(
            crate::render_pass::shader_commands(pass, frame.area),
            crate::render_pass::overlay_commands(frame),
            kind,
        );
    }
}

/// Every frame draws the user interface, once, for the screen of the frame, and uploads its
/// vertices for that screen; each changed texture is uploaded, and each one that is no longer
/// needed freed. Just where there is room, the frame draws one triangle of the shader as well, with
/// constants of its own. Each of the two pictures is submitted once.
pub proof fn law_frame_draws(pass: RenderPassView, frame: UiFrame)
    requires
        pass.bind_group_data.len() <= usize::MAX,
        pass.features.emulate_constants ==> pass.bind_group_data.len() > 0,
    ensures
        ({
            let all = crate::render_pass::ui_commands(pass, frame);
            let room = frame.available.x.bits != 0 && frame.available.x.bits <= 0x7f80_0000
                && frame.available.y.bits != 0 && frame.available.y.bits <= 0x7f80_0000;
            let pictures: int = if room {
                2
            } else {
                1
            };
            &&& of_kind(all, StepKind::RenderUi) == seq![Command::RenderUi(frame.screen)]
            &&& of_kind(all, StepKind::UpdateBuffers) == seq![Command::UpdateBuffers(frame.screen)]
            &&& of_kind(all, StepKind::UpdateTexture).len() == frame.textures_set
            &&& of_kind(all, StepKind::FreeTexture).len() == frame.textures_free
            &&& of_kind(all, StepKind::Draw) == if room {
                seq![
                    Command::Draw {
                        first_vertex: 0,
                        end_vertex: 3,
                        first_instance: 0,
                        end_instance: 1,
                    },
                ]
            } else {
                Seq::empty()
            }
            &&& of_kind(all, StepKind::PrepareRender).len() == pictures - 1
            &&& of_kind(all, StepKind::CreateEncoder).len() == pictures
            &&& of_kind(all, StepKind::BeginRenderPass).len() == pictures
            &&& of_kind(all, StepKind::EndPass).len() == pictures
            &&& of_kind(all, StepKind::Submit).len() == pictures
        }),
{
    let shader = crate::render_pass::shader_commands(pass, frame.area);
    let overlay = crate::render_pass::overlay_commands(frame);
    law_overlay_is_one_pass(frame);
    law_shader_is_one_pass(pass, frame.area);
    lemma_shader_kinds(pass, frame.area);
    lemma_overlay_kinds(frame);
    lemma_none_of_kind(shader, StepKind::RenderUi);
    lemma_none_of_kind(shader, StepKind::UpdateBuffers);
    lemma_none_of_kind(shader, StepKind::UpdateTexture);
    lemma_none_of_kind(shader, StepKind::FreeTexture);
    lemma_none_of_kind(overlay, StepKind::Draw);
    lemma_none_of_kind(overlay, StepKind::PrepareRender);
    lemma_frame_kind(pass, frame, StepKind::RenderUi);
    lemma_frame_kind(pass, frame, StepKind::UpdateBuffers);
    lemma_frame_kind(pass, frame, StepKind::UpdateTexture);
    lemma_frame_kind(pass, frame, StepKind::FreeTexture);
    lemma_frame_kind(pass, frame, StepKind::Draw);
    lemma_frame_kind(pass, frame, StepKind::PrepareRender);
    lemma_frame_kind(pass, frame, StepKind::CreateEncoder);
    lemma_frame_kind(pass, frame, StepKind::BeginRenderPass);
    lemma_frame_kind(pass, frame, StepKind::EndPass);
    lemma_frame_kind(pass, frame, StepKind::Submit);
}

/// A frame remembers the area that the shader filled, where there was room for it: the area itself,
/// or the one before where the two are the same. It changes nothing else of the render pass.
pub proof fn law_frame_remembers_area(pass: RenderPassView, frame: UiFrame)
    ensures
        ({
            let after = crate::render_pass::after_frame(pass, frame);
            let room = frame.available.x.bits != 0 && frame.available.x.bits <= 0x7f80_0000
                && frame.available.y.bits != 0 && frame.available.y.bits <= 0x7f80_0000;
            let moved = !(pass.shader_viewport.left.same_number(frame.area.edges.left)
                && pass.shader_viewport.top.same_number(frame.area.edges.top)
                && pass.shader_viewport.right.same_number(frame.area.edges.right)
                && pass.shader_viewport.bottom.same_number(frame.area.edges.bottom));
            &&& after.shader_viewport == if room && moved {
                frame.area.edges
            } else {
                pass.shader_viewport
            }
            &&& after.features == pass.features
            &&& after.pipelines == pass.pipelines
            &&& after.pipeline_layouts == pass.pipeline_layouts
            &&& after.bind_group_data == pass.bind_group_data
        }),
{
}

/// The same of the shader's picture alone.
pub proof fn law_shader_remembers_area(pass: RenderPassView, edges: Edges)
    ensures
        ({
            let after = crate::render_pass::after_shader(pass, edges);
            let moved = !(pass.shader_viewport.left.same_number(edges.left)
                && pass.shader_viewport.top.same_number(edges.top)
                && pass.shader_viewport.right.same_number(edges.right)
                && pass.shader_viewport.bottom.same_number(edges.bottom));
            &&& after.shader_viewport == if moved {
                edges
            } else {
                pass.shader_viewport
            }
            &&& after.features == pass.features
            &&& after.pipelines == pass.pipelines
            &&& after.pipeline_layouts == pass.pipeline_layouts
            &&& after.bind_group_data == pass.bind_group_data
        }),
{
}

/// The offset of an area is that of its left and top edges.
pub proof fn law_offset_of_area(edges: Edges)
    ensures
        crate::render_pass::corner(edges).x == edges.left,
        crate::render_pass::corner(edges).y == edges.top,
{
}

/// A frame that got its texture is drawn, and then shown, once and last. An error is reported, once
/// and before all else, and nothing is drawn or shown for it; a lost surface is configured anew, and
/// no other is. Just the errors other than a lost surface are returned, each as it is. Without a
/// texture the render pass stays as it is.
pub proof fn law_render_shows_or_reports(
    pass: RenderPassView,
    acquired: Result<UiFrame, SurfaceError>,
)
    ensures
        ({
            let all = crate::render_pass::render_commands(pass, acquired);
            let result = crate::render_pass::render_result(acquired);
            let after = crate::render_pass::after_render(pass, acquired);
            &&& acquired matches Ok(frame) ==> {
                &&& all.last() is Present
                &&& all.drop_last() == crate::render_pass::ui_commands(pass, frame)
                &&& of_kind(all, StepKind::Present).len() == 1
                &&& after == crate::render_pass::after_frame(pass, frame)
            }
            &&& acquired is Ok ==> of_kind(all, StepKind::ReportError).len() == 0 && of_kind(
                all,
                StepKind::ConfigureSurface,
            ).len() == 0
            &&& acquired matches Err(error) ==> {
                &&& all[0] == Command::ReportError(error)
                &&& error is Lost ==> all.len() == 2 && all[1] is ConfigureSurface
                &&& error !is Lost ==> all.len() == 1
                &&& after == pass
            }
            &&& forall|error: SurfaceError|
                result == Err::<(), SurfaceError>(error) <==> (acquired == Err::<
                    UiFrame,
                    SurfaceError,
                >(error) && error !is Lost)
        }),
{
    let all = crate::render_pass::render_commands(pass, acquired);
    if let Ok(frame) = acquired {
        let shader = crate::render_pass::shader_commands(pass, frame.area);
        let overlay = crate::render_pass::overlay_commands(frame);
        let drawn = crate::render_pass::ui_commands(pass, frame);
        lemma_shader_kinds(pass, frame.area);
        lemma_overlay_kinds(frame);
        assert(all.drop_last() =~= drawn);
        assert forall|i: int| 0 <= i < drawn.len() implies kind_of(#[trigger] drawn[i]) !is Present
            && kind_of(drawn[i]) !is ReportError && kind_of(drawn[i]) !is ConfigureSurface by {
            if crate::render_pass::has_room(frame) {
                assert(drawn[i] == if i < shader.len() {
                    shader[i]
                } else {
                    overlay[i - shader.len()]
                });
            }
        }
        lemma_none_of_kind(drawn, StepKind::Present);
        lemma_none_of_kind(drawn, StepKind::ReportError);
        lemma_none_of_kind(drawn, StepKind::ConfigureSurface);
    }
}

} // verus!
