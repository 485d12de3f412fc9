//! The steps that set a render pass up, in the order in which they are carried out.

use crate::bind_group::{BufferDescriptor, BufferSlot};
use crate::features::Features;
use crate::pipeline::PipelineKind;
use vstd::prelude::*;

verus! {

/// One step. Each is one call to the graphics device, the user interface or the controller.
#[derive(Clone, Copy, Debug, PartialEq, Eq)]
pub enum SetupStep {
    /// Create the bind group layout at this position.
    CreateBindGroupLayout(usize),
    CreatePipelineLayout(PipelineKind),
    CreateShaderModule,
    CreatePipeline(PipelineKind),
    /// Create the buffer of this slot.
    CreateBuffer(BufferSlot),
    /// Create the bind group at this position.
    CreateBindGroup(usize),
    /// Hand the writable buffers to the controller.
    ReceiveBuffers,
    /// Create the renderer of the user interface.
    CreateUiRenderer,
}

/// The bind group layouts: that of the emulated constants first, then the described ones in their
/// order.
pub open spec fn layout_steps(features: Features, described: nat) -> Seq<SetupStep> {
    let constants = if features.emulate_constants {
        seq![SetupStep::CreateBindGroupLayout(described as usize)]
    } else {
        Seq::empty()
    };
    constants + Seq::new(described, |i: int| SetupStep::CreateBindGroupLayout(i as usize))
}

/// The layouts of the pipelines.
pub open spec fn pipeline_layout_steps(compute: bool) -> Seq<SetupStep> {
    let render = seq![SetupStep::CreatePipelineLayout(PipelineKind::Render)];
    if compute {
        render.push(SetupStep::CreatePipelineLayout(PipelineKind::Compute))
    } else {
        render
    }
}

/// The shader module, then its pipelines.
pub open spec fn pipeline_steps(compute: bool) -> Seq<SetupStep> {
    let render = seq![
        SetupStep::CreateShaderModule,
        SetupStep::CreatePipeline(PipelineKind::Render),
    ];
    if compute {
        render.push(SetupStep::CreatePipeline(PipelineKind::Compute))
    } else {
        render
    }
}

/// The buffers of the bind group with number `i`, then the bind group.
pub open spec fn group_steps(i: int, buffers: nat) -> Seq<SetupStep> {
    Seq::new(
        buffers,
        |j: int| SetupStep::CreateBuffer(BufferSlot { group: i as usize, buffer: j as usize }),
    ).push(SetupStep::CreateBindGroup(i as usize))
}

/// The first `len` described bind groups, one after the other.
pub open spec fn described_steps(groups: Seq<Vec<BufferDescriptor>>, len: nat) -> Seq<SetupStep>
    decreases len,
{
    if len == 0 {
        Seq::empty()
    } else {
        described_steps(groups, (len - 1) as nat) + group_steps(len - 1, groups[len - 1]@.len())
    }
}

/// The bind groups: that of the emulated constants first, then the described ones.
pub open spec fn bind_group_steps(features: Features, groups: Seq<Vec<BufferDescriptor>>) -> Seq<
    SetupStep,
> {
    let constants = if features.emulate_constants {
        group_steps(groups.len() as int, crate::features::pipeline_count(features))
    } else {
        Seq::empty()
    };
    constants + described_steps(groups, groups.len())
}

/// All steps. The controller gets its buffers once all bind groups are there, and before the
/// renderer of the user interface is.
pub open spec fn setup_steps(features: Features, groups: Seq<Vec<BufferDescriptor>>) -> Seq<
    SetupStep,
> {
    layout_steps(features, groups.len()) + pipeline_layout_steps(features.compute) + pipeline_steps(
        features.compute,
    ) + bind_group_steps(features, groups) + seq![
        SetupStep::ReceiveBuffers,
        SetupStep::CreateUiRenderer,
    ]
}

fn push_layout_steps(steps: &mut Vec<SetupStep>, features: Features, described: usize)
    ensures
        final(steps)@ == old(steps)@ + layout_steps(features, described as nat),
{
    if features.emulate_constants {
        steps.push(SetupStep::CreateBindGroupLayout(described));
    }
    let ghost before = steps@;
    let mut i: usize = 0;
    while i < described
        invariant
            i <= described,
            steps@ == before + Seq::new(
                i as nat,
                |j: int| SetupStep::CreateBindGroupLayout(j as usize),
            ),
        decreases described - i,
    {
        steps.push(SetupStep::CreateBindGroupLayout(i));
        i += 1;
    }
}

pub(crate) fn push_pipeline_steps(steps: &mut Vec<SetupStep>, compute: bool)
    ensures
        final(steps)@ == old(steps)@ + pipeline_steps(compute),
{
    steps.push(SetupStep::CreateShaderModule);
    steps.push(SetupStep::CreatePipeline(PipelineKind::Render));
    if compute {
        steps.push(SetupStep::CreatePipeline(PipelineKind::Compute));
    }
}

fn push_group_steps(steps: &mut Vec<SetupStep>, group: usize, buffers: usize)
    ensures
        final(steps)@ == old(steps)@ + group_steps(group as int, buffers as nat),
{
    let mut i: usize = 0;
    while i < buffers
        invariant
            i <= buffers,
            steps@ == old(steps)@ + Seq::new(
                i as nat,
                |j: int| SetupStep::CreateBuffer(BufferSlot { group, buffer: j as usize }),
            ),
        decreases buffers - i,
    {
        steps.push(SetupStep::CreateBuffer(BufferSlot { group, buffer: i }));
        i += 1;
    }
    steps.push(SetupStep::CreateBindGroup(group));
}

/// Lists the steps that set up a render pass over the buffers of `buffer_data`.
pub fn list_setup_steps(features: Features, buffer_data: &[Vec<BufferDescriptor>]) -> (steps: Vec<
    SetupStep,
>)
    ensures
        steps@ == setup_steps(features, buffer_data@),
{
    let mut steps: Vec<SetupStep> = Vec::new();
    push_layout_steps(&mut steps, features, buffer_data.len());
    steps.push(SetupStep::CreatePipelineLayout(PipelineKind::Render));
    if features.compute {
        steps.push(SetupStep::CreatePipelineLayout(PipelineKind::Compute));
    }
    push_pipeline_steps(&mut steps, features.compute);
    let ghost created = steps@;
    if features.emulate_constants {
        let buffers: usize = if features.compute {
            2
        } else {
            1
        };
        push_group_steps(&mut steps, buffer_data.len(), buffers);
    }
    let ghost before = steps@;
    let mut i: usize = 0;
    while i < buffer_data.len()
        invariant
            i <= buffer_data.len(),
            steps@ == before + described_steps(buffer_data@, i as nat),
        decreases buffer_data.len() - i,
    {
        push_group_steps(&mut steps, i, buffer_data[i].len());
        i += 1;
    }
    assert(steps@ == created + bind_group_steps(features, buffer_data@));
    steps.push(SetupStep::ReceiveBuffers);
    steps.push(SetupStep::CreateUiRenderer);
    steps
}

/// Whether `step` stands before position `i`.
pub open spec fn done_before(steps: Seq<SetupStep>, i: int, step: SetupStep) -> bool {
    steps.take(i).contains(step)
}

/// How many buffers the bind group with number `g` has.
pub open spec fn buffer_count(features: Features, groups: Seq<Vec<BufferDescriptor>>, g: int) -> nat {
    if g < groups.len() {
        groups[g]@.len()
    } else {
        crate::features::pipeline_count(features)
    }
}

/// Whether all that the step at position `i` needs has been created before.
pub open spec fn is_prepared(
    features: Features,
    groups: Seq<Vec<BufferDescriptor>>,
    steps: Seq<SetupStep>,
    i: int,
) -> bool {
    match steps[i] {
        SetupStep::CreatePipelineLayout(_) => forall|g: int|
            0 <= g < crate::render_pass::group_count(features, groups) ==> #[trigger] done_before(
                steps,
                i,
                SetupStep::CreateBindGroupLayout(g as usize),
            ),
        SetupStep::CreatePipeline(kind) => {
            &&& done_before(steps, i, SetupStep::CreatePipelineLayout(kind))
            &&& done_before(steps, i, SetupStep::CreateShaderModule)
        },
        SetupStep::CreateBindGroup(g) => {
            &&& done_before(steps, i, SetupStep::CreateBindGroupLayout(g))
            &&& forall|b: int|
                0 <= b < buffer_count(features, groups, g as int) ==> #[trigger] done_before(
                    steps,
                    i,
                    SetupStep::CreateBuffer(BufferSlot { group: g, buffer: b as usize }),
                )
        },
        SetupStep::ReceiveBuffers => forall|g: int|
            0 <= g < crate::render_pass::group_count(features, groups) ==> #[trigger] done_before(
                steps,
                i,
                SetupStep::CreateBindGroup(g as usize),
            ),
        _ => true,
    }
}

/// A segment of `steps` that holds `step` before position `i` shows that it is done by then.
proof fn lemma_done_before(steps: Seq<SetupStep>, i: int, k: int)
    requires
        0 <= k < i <= steps.len(),
    ensures
        done_before(steps, i, steps[k]),
{
    assert(steps.take(i)[k] == steps[k]);
}

/// In the described bind groups each group follows its buffers, and each is there.
proof fn lemma_described_steps(groups: Seq<Vec<BufferDescriptor>>, len: nat)
    requires
        len <= groups.len() < usize::MAX,
    ensures
        ({
            let steps = described_steps(groups, len);
            &&& forall|i: int|
                0 <= i < steps.len() ==> (#[trigger] steps[i] is CreateBuffer
                    || steps[i] is CreateBindGroup)
            &&& forall|i: int|
                0 <= i < steps.len() ==> (#[trigger] steps[i] matches SetupStep::CreateBindGroup(g)
                    ==> {
                    &&& g < len
                    &&& groups[g as int]@.len() <= i
                    &&& forall|b: int|
                        0 <= b < groups[g as int]@.len() ==> #[trigger] steps[i
                            - groups[g as int]@.len() + b] == SetupStep::CreateBuffer(
                            BufferSlot { group: g, buffer: b as usize },
                        )
                })
            &&& forall|g: int|
                0 <= g < len ==> #[trigger] steps.contains(SetupStep::CreateBindGroup(g as usize))
        }),
    decreases len,
{
    if len > 0 {
        lemma_described_steps(groups, (len - 1) as nat);
        let earlier = described_steps(groups, (len - 1) as nat);
        let own = group_steps(len - 1, groups[len - 1]@.len());
        let steps = described_steps(groups, len);
        assert forall|i: int| 0 <= i < steps.len() implies (#[trigger] steps[i] matches
            SetupStep::CreateBindGroup(g) ==> {
            &&& g < len
            &&& groups[g as int]@.len() <= i
            &&& forall|b: int|
                0 <= b < groups[g as int]@.len() ==> #[trigger] steps[i - groups[g as int]@.len()
                    + b] == SetupStep::CreateBuffer(BufferSlot { group: g, buffer: b as usize })
        }) by {
            if i < earlier.len() {
                assert(steps[i] == earlier[i]);
                if let SetupStep::CreateBindGroup(g) = steps[i] {
                    let n = groups[g as int]@.len();
                    assert forall|b: int| 0 <= b < n implies #[trigger] steps[i - n + b]
                        == SetupStep::CreateBuffer(BufferSlot { group: g, buffer: b as usize }) by {
                        assert(steps[i - n + b] == earlier[i - n + b]);
                    }
                }
            } else {
                assert(steps[i] == own[i - earlier.len()]);
                if steps[i] is CreateBindGroup {
                    let n = groups[len - 1]@.len();
                    assert(i - earlier.len() == n);
                    assert forall|b: int| 0 <= b < n implies #[trigger] steps[i - n + b]
                        == SetupStep::CreateBuffer(
                        BufferSlot { group: (len - 1) as usize, buffer: b as usize },
                    ) by {
                        assert(steps[i - n + b] == own[b]);
                    }
                }
            }
        }
        assert forall|g: int| 0 <= g < len implies #[trigger] steps.contains(
            SetupStep::CreateBindGroup(g as usize),
        ) by {
            let step = SetupStep::CreateBindGroup(g as usize);
            if g < len - 1 {
                assert(earlier.contains(step));
                let k = choose|k: int| 0 <= k < earlier.len() && earlier[k] == step;
                assert(steps[k] == step);
            } else {
                assert(own.last() == step);
                assert(steps.last() == step);
            }
        }
    }
}

/// Where the parts of the set-up begin: the pipeline layouts, the module and pipelines, the bind
/// groups, the described bind groups, and the end.
spec fn parts(features: Features, groups: Seq<Vec<BufferDescriptor>>) -> (
    int,
    int,
    int,
    int,
    int,
) {
    let p = layout_steps(features, groups.len()).len() as int;
    let m = p + pipeline_layout_steps(features.compute).len();
    let b = m + pipeline_steps(features.compute).len();
    let r = b + bind_group_steps(features, groups).len();
    (p, m, b, r - described_steps(groups, groups.len()).len(), r)
}

/// The steps, part by part.
proof fn lemma_parts(features: Features, groups: Seq<Vec<BufferDescriptor>>, i: int)
    requires
        0 <= i < setup_steps(features, groups).len(),
    ensures
        ({
            let step = setup_steps(features, groups)[i];
            let (p, m, b, d, r) = parts(features, groups);
            &&& 0 <= p <= m <= b <= d <= r
            &&& setup_steps(features, groups).len() == r + 2
            &&& 0 <= i < p ==> step == layout_steps(features, groups.len())[i] && step
                is CreateBindGroupLayout
            &&& p <= i < m ==> step == pipeline_layout_steps(features.compute)[i - p] && step
                is CreatePipelineLayout
            &&& m <= i < b ==> step == pipeline_steps(features.compute)[i - m] && (step
                is CreateShaderModule || step is CreatePipeline)
            &&& b <= i < d ==> features.emulate_constants && step == group_steps(
                groups.len() as int,
                crate::features::pipeline_count(features),
            )[i - b] && (step is CreateBuffer || step is CreateBindGroup)
            &&& d <= i < r ==> step == described_steps(groups, groups.len())[i - d]
            &&& i == r ==> step is ReceiveBuffers
            &&& i == r + 1 ==> step is CreateUiRenderer
        }),
{
}

proof fn lemma_layout_done(
    features: Features,
    groups: Seq<Vec<BufferDescriptor>>,
    g: int,
    i: int,
)
    requires
        groups.len() < usize::MAX,
        0 <= g < crate::render_pass::group_count(features, groups),
        parts(features, groups).0 <= i <= setup_steps(features, groups).len(),
    ensures
        done_before(
            setup_steps(features, groups),
            i,
            SetupStep::CreateBindGroupLayout(g as usize),
        ),
{
    let layouts = layout_steps(features, groups.len());
    let k: int = if g == groups.len() {
        0
    } else if features.emulate_constants {
        g + 1
    } else {
        g
    };
    assert(layouts[k] == SetupStep::CreateBindGroupLayout(g as usize));
    lemma_parts(features, groups, k);
    lemma_done_before(setup_steps(features, groups), i, k);
}

proof fn lemma_pipeline_prepared(
    features: Features,
    groups: Seq<Vec<BufferDescriptor>>,
    i: int,
    kind: PipelineKind,
)
    requires
        0 <= i < setup_steps(features, groups).len(),
        setup_steps(features, groups)[i] == SetupStep::CreatePipeline(kind),
        parts(features, groups).1 <= i < parts(features, groups).2,
    ensures
        is_prepared(features, groups, setup_steps(features, groups), i),
{
    let steps = setup_steps(features, groups);
    let (p, m, b, d, r) = parts(features, groups);
    let k: int = match kind {
        PipelineKind::Render => 0,
        PipelineKind::Compute => 1,
    };
    lemma_parts(features, groups, i);
    lemma_parts(features, groups, m);
    lemma_parts(features, groups, p + k);
    assert(steps[p + k] == SetupStep::CreatePipelineLayout(kind));
    lemma_done_before(steps, i, m);
    lemma_done_before(steps, i, p + k);
}

proof fn lemma_bind_group_prepared(
    features: Features,
    groups: Seq<Vec<BufferDescriptor>>,
    i: int,
    g: usize,
)
    requires
        groups.len() < usize::MAX,
        0 <= i < setup_steps(features, groups).len(),
        setup_steps(features, groups)[i] == SetupStep::CreateBindGroup(g),
        parts(features, groups).2 <= i < parts(features, groups).4,
    ensures
        is_prepared(features, groups, setup_steps(features, groups), i),
{
    let steps = setup_steps(features, groups);
    let described = described_steps(groups, groups.len());
    let (p, m, b, d, r) = parts(features, groups);
    let len = buffer_count(features, groups, g as int);
    lemma_parts(features, groups, i);
    lemma_described_steps(groups, groups.len());
    if i >= d {
        assert(described[i - d] == SetupStep::CreateBindGroup(g));
    } else {
        assert(g == groups.len() && i - b == len);
    }
    lemma_layout_done(features, groups, g as int, i);
    assert forall|k: int| 0 <= k < len implies #[trigger] done_before(
        steps,
        i,
        SetupStep::CreateBuffer(BufferSlot { group: g, buffer: k as usize }),
    ) by {
        if i >= d {
            assert(described[i - d - groups[g as int]@.len() + k] == SetupStep::CreateBuffer(
                BufferSlot { group: g, buffer: k as usize },
            ));
        }
        lemma_parts(features, groups, i - len + k);
        lemma_done_before(steps, i, i - len + k);
    }
}

proof fn lemma_receive_prepared(features: Features, groups: Seq<Vec<BufferDescriptor>>)
    requires
        groups.len() < usize::MAX,
    ensures
        is_prepared(
            features,
            groups,
            setup_steps(features, groups),
            parts(features, groups).4,
        ),
{
    let steps = setup_steps(features, groups);
    let described = described_steps(groups, groups.len());
    let (p, m, b, d, r) = parts(features, groups);
    lemma_parts(features, groups, r);
    lemma_described_steps(groups, groups.len());
    assert forall|g: int|
        0 <= g < crate::render_pass::group_count(features, groups) implies #[trigger] done_before(
        steps,
        r,
        SetupStep::CreateBindGroup(g as usize),
    ) by {
        let step = SetupStep::CreateBindGroup(g as usize);
        if g < groups.len() {
            assert(described.contains(step));
            let k = choose|k: int| 0 <= k < described.len() && described[k] == step;
            lemma_parts(features, groups, d + k);
            lemma_done_before(steps, r, d + k);
        } else {
            lemma_parts(features, groups, d - 1);
            lemma_done_before(steps, r, d - 1);
        }
    }
}

/// Nothing is used before it is created: the set-up can be carried out in its order.
pub proof fn law_setup_in_order(features: Features, groups: Seq<Vec<BufferDescriptor>>, i: int)
    requires
        groups.len() < usize::MAX,
        0 <= i < setup_steps(features, groups).len(),
    ensures
        is_prepared(features, groups, setup_steps(features, groups), i),
{
    let steps = setup_steps(features, groups);
    let (p, m, b, d, r) = parts(features, groups);
    lemma_parts(features, groups, i);
    lemma_described_steps(groups, groups.len());
    match steps[i] {
        SetupStep::CreatePipelineLayout(_) => {
            assert forall|g: int|
                0 <= g < crate::render_pass::group_count(
                    features,
                    groups,
                ) implies #[trigger] done_before(
                steps,
                i,
                SetupStep::CreateBindGroupLayout(g as usize),
            ) by {
                lemma_layout_done(features, groups, g, i);
            }
        },
        SetupStep::CreatePipeline(kind) => {
            lemma_pipeline_prepared(features, groups, i, kind);
        },
        SetupStep::CreateBindGroup(g) => {
            lemma_bind_group_prepared(features, groups, i, g);
        },
        SetupStep::ReceiveBuffers => {
            lemma_receive_prepared(features, groups);
        },
        _ => {},
    }
}

/// The controller gets its buffers exactly once, in the last step but one; the last step creates
/// the renderer of the user interface, which no other does.
pub proof fn law_controller_served_once(features: Features, groups: Seq<Vec<BufferDescriptor>>)
    requires
        groups.len() < usize::MAX,
    ensures
        ({
            let steps = setup_steps(features, groups);
            &&& steps.len() >= 2
            &&& forall|i: int|
                0 <= i < steps.len() ==> {
                    &&& (#[trigger] steps[i] is ReceiveBuffers) == (i == steps.len() - 2)
                    &&& (steps[i] is CreateUiRenderer) == (i == steps.len() - 1)
                }
        }),
{
    let steps = setup_steps(features, groups);
    lemma_parts(features, groups, 0);
    lemma_described_steps(groups, groups.len());
    assert forall|i: int| 0 <= i < steps.len() implies {
        &&& (#[trigger] steps[i] is ReceiveBuffers) == (i == steps.len() - 2)
        &&& (steps[i] is CreateUiRenderer) == (i == steps.len() - 1)
    } by {
        lemma_parts(features, groups, i);
    }
}

/// Whether the set-up has to take `step`: there is a layout and a bind group for every described
/// group, with every described buffer, and for the emulated constants, with a buffer per pipeline;
/// a pipeline, with its layout, of each kind that there is; one shader module; and one hand-over and
/// one renderer of the user interface.
pub open spec fn is_due(
    features: Features,
    groups: Seq<Vec<BufferDescriptor>>,
    step: SetupStep,
) -> bool {
    match step {
        SetupStep::CreateBindGroupLayout(g) => g < groups.len() || (features.emulate_constants && g
            == groups.len()),
        SetupStep::CreatePipelineLayout(kind) => kind is Render || features.compute,
        SetupStep::CreateShaderModule => true,
        SetupStep::CreatePipeline(kind) => kind is Render || features.compute,
        SetupStep::CreateBuffer(slot) => {
            ||| slot.group < groups.len() && slot.buffer < groups[slot.group as int]@.len()
            ||| features.emulate_constants && slot.group == groups.len() && (slot.buffer == 0 || (
            slot.buffer == 1 && features.compute))
        },
        SetupStep::CreateBindGroup(g) => g < groups.len() || (features.emulate_constants && g
            == groups.len()),
        SetupStep::ReceiveBuffers => true,
        SetupStep::CreateUiRenderer => true,
    }
}

/// The part of the set-up that a step belongs to.
pub open spec fn part_of(step: SetupStep) -> int {
    match step {
        SetupStep::CreateBindGroupLayout(_) => 0,
        SetupStep::CreatePipelineLayout(_) => 1,
        SetupStep::CreateShaderModule => 2,
        SetupStep::CreatePipeline(_) => 3,
        SetupStep::CreateBuffer(_) => 4,
        SetupStep::CreateBindGroup(_) => 4,
        SetupStep::ReceiveBuffers => 5,
        SetupStep::CreateUiRenderer => 6,
    }
}

/// The turn of a step within its part: the group of the emulated constants, whose number is
/// `described`, comes first, then the described ones by their numbers; of the pipelines, the render
/// pipeline comes first.
pub open spec fn turn_of(described: nat, step: SetupStep) -> int {
    match step {
        SetupStep::CreateBindGroupLayout(g) => if g == described {
            -1
        } else {
            g as int
        },
        SetupStep::CreateBuffer(slot) => if slot.group == described {
            -1
        } else {
            slot.group as int
        },
        SetupStep::CreateBindGroup(g) => if g == described {
            -1
        } else {
            g as int
        },
        SetupStep::CreatePipelineLayout(PipelineKind::Compute) => 1,
        SetupStep::CreatePipeline(PipelineKind::Compute) => 1,
        _ => 0,
    }
}

/// Whether `a` comes before `b`: in an earlier part, or earlier in the same one; of one group, the
/// buffers come in their order, and the bind group after them.
pub open spec fn comes_before(described: nat, a: SetupStep, b: SetupStep) -> bool {
    ||| part_of(a) < part_of(b)
    ||| part_of(a) == part_of(b) && turn_of(described, a) < turn_of(described, b)
    ||| part_of(a) == part_of(b) && turn_of(described, a) == turn_of(described, b) && match (a, b) {
        (SetupStep::CreateBuffer(first), SetupStep::CreateBuffer(second)) => first.buffer
            < second.buffer,
        (SetupStep::CreateBuffer(_), SetupStep::CreateBindGroup(_)) => true,
        _ => false,
    }
}

/// The described groups are in order, and complete.
proof fn lemma_described_complete(groups: Seq<Vec<BufferDescriptor>>, len: nat)
    requires
        len <= groups.len() < usize::MAX,
        forall|g: int| 0 <= g < groups.len() ==> (#[trigger] groups[g])@.len() <= usize::MAX,
    ensures
        ({
            let steps = described_steps(groups, len);
            &&& forall|i: int|
                0 <= i < steps.len() ==> match #[trigger] steps[i] {
                    SetupStep::CreateBuffer(slot) => slot.group < len && slot.buffer
                        < groups[slot.group as int]@.len(),
                    SetupStep::CreateBindGroup(g) => g < len,
                    _ => false,
                }
            &&& forall|i: int, j: int|
                0 <= i < j < steps.len() ==> comes_before(
                    groups.len(),
                    #[trigger] steps[i],
                    #[trigger] steps[j],
                )
            &&& forall|g: int, b: int|
                0 <= g < len && 0 <= b < groups[g]@.len() ==> #[trigger] steps.contains(
                    SetupStep::CreateBuffer(BufferSlot { group: g as usize, buffer: b as usize }),
                )
        }),
    decreases len,
{
    if len > 0 {
        let last = (len - 1) as nat;
        lemma_described_complete(groups, last);
        let earlier = described_steps(groups, last);
        let own = group_steps(last as int, groups[last as int]@.len());
        let steps = described_steps(groups, len);
        assert(forall|i: int| 0 <= i < earlier.len() ==> #[trigger] steps[i] == earlier[i]);
        assert(forall|i: int|
            earlier.len() <= i < steps.len() ==> #[trigger] steps[i] == own[i - earlier.len()]);
        assert forall|g: int, b: int|
            0 <= g < len && 0 <= b < groups[g]@.len() implies #[trigger] steps.contains(
            SetupStep::CreateBuffer(BufferSlot { group: g as usize, buffer: b as usize }),
        ) by {
            let step = SetupStep::CreateBuffer(
                BufferSlot { group: g as usize, buffer: b as usize },
            );
            if g < last {
                assert(earlier.contains(step));
                let k = choose|k: int| 0 <= k < earlier.len() && earlier[k] == step;
                assert(steps[k] == step);
            } else {
                assert(own[b] == step);
                assert(steps[earlier.len() + b] == step);
            }
        }
    }
}

/// The set-up takes exactly the steps that are due, each once, in their order.
pub proof fn law_setup_is_complete(features: Features, groups: Seq<Vec<BufferDescriptor>>)
    requires
        groups.len() < usize::MAX,
        forall|g: int| 0 <= g < groups.len() ==> (#[trigger] groups[g])@.len() <= usize::MAX,
    ensures
        ({
            let steps = setup_steps(features, groups);
            &&& forall|step: SetupStep| #[trigger]
                steps.contains(step) <==> is_due(features, groups, step)
            &&& forall|i: int, j: int|
                0 <= i < j < steps.len() ==> comes_before(
                    groups.len(),
                    #[trigger] steps[i],
                    #[trigger] steps[j],
                )
        }),
{
    let steps = setup_steps(features, groups);
    assert forall|step: SetupStep| #[trigger] steps.contains(step) <==> is_due(
        features,
        groups,
        step,
    ) by {
        if steps.contains(step) {
            lemma_taken_is_due(features, groups, choose|i: int|
                0 <= i < steps.len() && steps[i] == step);
        }
        if is_due(features, groups, step) {
            lemma_due_is_taken(features, groups, step);
        }
    }
    assert forall|i: int, j: int| 0 <= i < j < steps.len() implies comes_before(
        groups.len(),
        #[trigger] steps[i],
        #[trigger] steps[j],
    ) by {
        lemma_taken_in_order(features, groups, i, j);
    }
}

/// A step that is taken is due.
proof fn lemma_taken_is_due(features: Features, groups: Seq<Vec<BufferDescriptor>>, i: int)
    requires
        groups.len() < usize::MAX,
        forall|g: int| 0 <= g < groups.len() ==> (#[trigger] groups[g])@.len() <= usize::MAX,
        0 <= i < setup_steps(features, groups).len(),
    ensures
        is_due(features, groups, setup_steps(features, groups)[i]),
{
    let (p, m, b, d, r) = parts(features, groups);
    lemma_parts(features, groups, i);
    if d <= i < r {
        lemma_described_complete(groups, groups.len());
    }
}

/// Of two steps the one that comes before is taken before.
proof fn lemma_taken_in_order(
    features: Features,
    groups: Seq<Vec<BufferDescriptor>>,
    i: int,
    j: int,
)
    requires
        groups.len() < usize::MAX,
        forall|g: int| 0 <= g < groups.len() ==> (#[trigger] groups[g])@.len() <= usize::MAX,
        0 <= i < j < setup_steps(features, groups).len(),
    ensures
        comes_before(
            groups.len(),
            setup_steps(features, groups)[i],
            setup_steps(features, groups)[j],
        ),
{
    let described = described_steps(groups, groups.len());
    let (p, m, b, d, r) = parts(features, groups);
    lemma_parts(features, groups, i);
    lemma_parts(features, groups, j);
    lemma_described_complete(groups, groups.len());
    if d <= i < r {
        assert(described[i - d] == setup_steps(features, groups)[i]);
    }
    if d <= j < r {
        assert(described[j - d] == setup_steps(features, groups)[j]);
    }
}

/// A step that is due is taken.
proof fn lemma_due_is_taken(
    features: Features,
    groups: Seq<Vec<BufferDescriptor>>,
    step: SetupStep,
)
    requires
        groups.len() < usize::MAX,
        forall|g: int| 0 <= g < groups.len() ==> (#[trigger] groups[g])@.len() <= usize::MAX,
        is_due(features, groups, step),
    ensures
        setup_steps(features, groups).contains(step),
{
    let steps = setup_steps(features, groups);
    let described = described_steps(groups, groups.len());
    let (p, m, b, d, r) = parts(features, groups);
    lemma_parts(features, groups, 0);
    lemma_described_steps(groups, groups.len());
    lemma_described_complete(groups, groups.len());
    let k: int = match step {
        SetupStep::CreateBindGroupLayout(g) => if g == groups.len() {
            0
        } else if features.emulate_constants {
            g + 1
        } else {
            g as int
        },
        SetupStep::CreatePipelineLayout(PipelineKind::Render) => p,
        SetupStep::CreatePipelineLayout(PipelineKind::Compute) => p + 1,
        SetupStep::CreateShaderModule => m,
        SetupStep::CreatePipeline(PipelineKind::Render) => m + 1,
        SetupStep::CreatePipeline(PipelineKind::Compute) => m + 2,
        SetupStep::CreateBuffer(slot) => if slot.group == groups.len() {
            b + slot.buffer
        } else {
            assert(described.contains(step)) by {
                assert(0 <= slot.buffer < groups[slot.group as int]@.len());
                let g = slot.group as int;
                let n = slot.buffer as int;
                assert(described.contains(
                    SetupStep::CreateBuffer(BufferSlot { group: g as usize, buffer: n as usize }),
                ));
            }
            d + choose|k: int| 0 <= k < described.len() && described[k] == step
        },
        SetupStep::CreateBindGroup(g) => if g == groups.len() {
            d - 1
        } else {
            assert(described.contains(step)) by {
                let n = g as int;
                assert(described.contains(SetupStep::CreateBindGroup(n as usize)));
            }
            d + choose|k: int| 0 <= k < described.len() && described[k] == step
        },
        SetupStep::ReceiveBuffers => r,
        SetupStep::CreateUiRenderer => r + 1,
    };
    lemma_parts(features, groups, k);
    assert(steps[k] == step);
}

} // verus!
