//! The buffers that shaders see, and the bind groups through which they see them.

use crate::features::{Features, CONSTANTS_SIZE};
use crate::flags::{
    compute_stage, copy_dst_usage, fragment_stage, storage_usage, COMPUTE, COPY_DST, FRAGMENT, STORAGE,
};
use crate::label::numbered_label;
use vstd::prelude::*;

verus! {

/// A buffer that a controller asks for.
#[derive(Clone, Copy, Debug)]
pub struct BufferDescriptor<'a> {
    /// The initial contents.
    pub data: &'a [u8],
    /// Whether shaders may only read it.
    pub read_only: bool,
    /// The bits of the `wgpu::ShaderStages` that see it.
    pub shader_stages: u32,
    /// Whether the controller gets the buffer, to write to it later.
    pub cpu_writable: bool,
}

/// The binding of a storage buffer in the layout of a bind group.
#[derive(Clone, Copy, Debug, PartialEq, Eq)]
pub struct BindGroupLayoutEntry {
    pub binding: u32,
    /// The bits of the `wgpu::ShaderStages` that see the binding.
    pub visibility: u32,
    pub read_only: bool,
    pub has_dynamic_offset: bool,
    pub min_binding_size: Option<u64>,
    pub count: Option<u32>,
}

/// The layout of a bind group.
#[derive(Debug)]
pub struct BindGroupLayoutDescriptor {
    pub label: String,
    pub entries: Vec<BindGroupLayoutEntry>,
}

/// What a [`BindGroupLayoutDescriptor`] says.
pub struct BindGroupLayoutView {
    pub label: Seq<char>,
    pub entries: Seq<BindGroupLayoutEntry>,
}

impl View for BindGroupLayoutDescriptor {
    type V = BindGroupLayoutView;

    open spec fn view(&self) -> BindGroupLayoutView {
        BindGroupLayoutView { label: self.label@, entries: self.entries@ }
    }
}

/// The initial contents of a buffer.
#[derive(Clone, Copy, Debug)]
pub enum BufferContents<'a> {
    Data(&'a [u8]),
    /// This many bytes of value 0.
    Zeroed(usize),
}

/// A buffer to be created.
#[derive(Clone, Copy, Debug)]
pub struct BufferInitDescriptor<'a> {
    pub label: Option<&'static str>,
    pub contents: BufferContents<'a>,
    /// The bits of the `wgpu::BufferUsages`.
    pub usage: u32,
}

/// The whole of a buffer, bound to a binding.
#[derive(Clone, Copy, Debug, PartialEq, Eq)]
pub struct BindGroupEntry {
    pub binding: u32,
    /// The position of the buffer among those of the group.
    pub buffer: usize,
}

/// A bind group to be created, with its buffers.
#[derive(Debug)]
pub struct BindGroupDescriptor<'a> {
    pub label: String,
    /// The position of the layout among those of the render pass.
    pub layout: usize,
    /// The buffers to be created for the group.
    pub buffers: Vec<BufferInitDescriptor<'a>>,
    pub entries: Vec<BindGroupEntry>,
    /// Whether the render pass keeps the buffers, to write to them later.
    pub keep_buffers: bool,
}

/// What a [`BindGroupDescriptor`] says.
pub struct BindGroupView<'a> {
    pub label: Seq<char>,
    pub layout: usize,
    pub buffers: Seq<BufferInitDescriptor<'a>>,
    pub entries: Seq<BindGroupEntry>,
    pub keep_buffers: bool,
}

impl<'a> View for BindGroupDescriptor<'a> {
    type V = BindGroupView<'a>;

    open spec fn view(&self) -> BindGroupView<'a> {
        BindGroupView {
            label: self.label@,
            layout: self.layout,
            buffers: self.buffers@,
            entries: self.entries@,
            keep_buffers: self.keep_buffers,
        }
    }
}

/// Where a buffer stands: its bind group, and its position in it.
#[derive(Clone, Copy, Debug, PartialEq, Eq, Structural)]
pub struct BufferSlot {
    pub group: usize,
    pub buffer: usize,
}

/// A storage buffer of any size at a fixed offset, seen by `visibility`.
pub open spec fn storage_entry(binding: u32, visibility: u32, read_only: bool) -> BindGroupLayoutEntry {
    BindGroupLayoutEntry {
        binding,
        visibility,
        read_only,
        has_dynamic_offset: false,
        min_binding_size: None,
        count: None,
    }
}

/// The layout of the group with number `i`: the buffers take the bindings in their order.
pub open spec fn group_layout(i: int, group: Seq<BufferDescriptor>) -> BindGroupLayoutView {
    BindGroupLayoutView {
        label: crate::label::numbered("bind_group_layout "@, i as nat),
        entries: Seq::new(
            group.len(),
            |j: int| storage_entry(j as u32, group[j].shader_stages, group[j].read_only),
        ),
    }
}

/// The layout of the group that stands for push constants: one read-only buffer per pipeline.
pub open spec fn constants_layout(features: Features) -> BindGroupLayoutView {
    let fragment = seq![storage_entry(0, FRAGMENT, true)];
    BindGroupLayoutView {
        label: "emulated push constants layout"@,
        entries: if features.compute {
            fragment.push(storage_entry(1, COMPUTE, true))
        } else {
            fragment
        },
    }
}

/// The layouts of all bind groups: those of the described groups, then that of the constants
/// where they are emulated.
pub open spec fn all_layouts(features: Features, groups: Seq<Vec<BufferDescriptor>>) -> Seq<
    BindGroupLayoutView,
> {
    let described = Seq::new(groups.len(), |i: int| group_layout(i, groups[i]@));
    if features.emulate_constants {
        described.push(constants_layout(features))
    } else {
        described
    }
}

/// The usage of the buffer of `descriptor`: storage, and the target of copies where the
/// controller writes to it.
pub open spec fn usage_of(descriptor: BufferDescriptor) -> u32 {
    if descriptor.cpu_writable {
        STORAGE | COPY_DST
    } else {
        STORAGE
    }
}

/// The whole buffers of a group, bound in their order.
pub open spec fn bound_in_order(len: nat) -> Seq<BindGroupEntry> {
    Seq::new(len, |j: int| BindGroupEntry { binding: j as u32, buffer: j as usize })
}

/// The bind group with number `i`.
pub open spec fn group_setup<'a>(i: int, group: Seq<BufferDescriptor<'a>>) -> BindGroupView<'a> {
    BindGroupView {
        label: crate::label::numbered("bind_group "@, i as nat),
        layout: i as usize,
        buffers: Seq::new(
            group.len(),
            |j: int|
                BufferInitDescriptor {
                    label: Some("Bind Group Buffer"),
                    contents: BufferContents::Data(group[j].data),
                    usage: usage_of(group[j]),
                },
        ),
        entries: bound_in_order(group.len()),
        keep_buffers: false,
    }
}

/// A buffer that stands for the push constants of one pipeline.
pub open spec fn constants_buffer<'a>() -> BufferInitDescriptor<'a> {
    BufferInitDescriptor {
        label: None,
        contents: BufferContents::Zeroed(CONSTANTS_SIZE as usize),
        usage: STORAGE | COPY_DST,
    }
}

/// The bind group that stands for push constants; its layout is the last one.
pub open spec fn constants_setup<'a>(features: Features, layouts: nat) -> BindGroupView<'a> {
    BindGroupView {
        label: "emulated push constants bind group"@,
        layout: (layouts - 1) as usize,
        buffers: Seq::new(crate::features::pipeline_count(features), |j: int| constants_buffer()),
        entries: bound_in_order(crate::features::pipeline_count(features)),
        keep_buffers: true,
    }
}

/// All bind groups: the described groups that have a layout, then that of the constants where
/// they are emulated.
pub open spec fn all_setups<'a>(
    features: Features,
    groups: Seq<Vec<BufferDescriptor<'a>>>,
    layouts: nat,
) -> Seq<BindGroupView<'a>> {
    let described = Seq::new(
        paired(groups, layouts),
        |i: int| group_setup(i, groups[i]@),
    );
    if features.emulate_constants {
        described.push(constants_setup(features, layouts))
    } else {
        described
    }
}

/// How many of the described groups have a layout.
pub open spec fn paired(groups: Seq<Vec<BufferDescriptor>>, layouts: nat) -> nat {
    if groups.len() <= layouts {
        groups.len()
    } else {
        layouts
    }
}

/// The slots of the first `len` buffers of the group with number `i`, without those that the
/// controller does not write to.
pub open spec fn group_slots(i: int, group: Seq<BufferDescriptor>, len: nat) -> Seq<BufferSlot>
    decreases len,
{
    if len == 0 {
        Seq::empty()
    } else {
        let before = group_slots(i, group, (len - 1) as nat);
        if group[len - 1].cpu_writable {
            before.push(BufferSlot { group: i as usize, buffer: (len - 1) as usize })
        } else {
            before
        }
    }
}

/// The slots of the buffers that the controller writes to, of the first `len` groups, group
/// after group.
pub open spec fn writable_slots(groups: Seq<Vec<BufferDescriptor>>, len: nat) -> Seq<BufferSlot>
    decreases len,
{
    if len == 0 {
        Seq::empty()
    } else {
        writable_slots(groups, (len - 1) as nat) + group_slots(
            len - 1,
            groups[len - 1]@,
            groups[len - 1]@.len(),
        )
    }
}

fn new_storage_entry(binding: u32, visibility: u32, read_only: bool) -> (entry: BindGroupLayoutEntry)
    ensures
        entry == storage_entry(binding, visibility, read_only),
{
    BindGroupLayoutEntry {
        binding,
        visibility,
        read_only,
        has_dynamic_offset: false,
        min_binding_size: None,
        count: None,
    }
}

fn create_bind_group_layout(layout_index: usize, descriptors: &Vec<BufferDescriptor>) -> (layout:
    BindGroupLayoutDescriptor)
    ensures
        layout@ == group_layout(layout_index as int, descriptors@),
{
    let mut entries: Vec<BindGroupLayoutEntry> = Vec::new();
    let mut i: usize = 0;
    while i < descriptors.len()
        invariant
            i <= descriptors.len(),
            entries@ == group_layout(layout_index as int, descriptors@).entries.take(i as int),
        decreases descriptors.len() - i,
    {
        let descriptor = &descriptors[i];
        entries.push(
            new_storage_entry(i as u32, descriptor.shader_stages, descriptor.read_only),
        );
        i += 1;
    }
    let layout = BindGroupLayoutDescriptor {
        label: numbered_label("bind_group_layout ", layout_index),
        entries,
    };
    assert(layout@.entries == group_layout(layout_index as int, descriptors@).entries);
    layout
}

fn create_constants_layout(features: Features) -> (layout: BindGroupLayoutDescriptor)
    ensures
        layout@ == constants_layout(features),
{
    let mut entries: Vec<BindGroupLayoutEntry> = Vec::new();
    entries.push(new_storage_entry(0, fragment_stage(), true));
    if features.compute {
        entries.push(new_storage_entry(1, compute_stage(), true));
    }
    let layout = BindGroupLayoutDescriptor {
        label: "emulated push constants layout".to_owned(),
        entries,
    };
    assert(layout@.entries =~= constants_layout(features).entries);
    layout
}

/// Lays out the bind groups of the described buffers, and the one of the constants where they
/// are emulated.
pub fn create_bind_group_layouts(
    features: Features,
    buffer_descriptors2: &[Vec<BufferDescriptor>],
) -> (layouts: Vec<BindGroupLayoutDescriptor>)
    ensures
        layouts@.map_values(|layout: BindGroupLayoutDescriptor| layout@) == all_layouts(
            features,
            buffer_descriptors2@,
        ),
        forall|i: int, j: int|
            0 <= i < buffer_descriptors2@.len() && 0 <= j < buffer_descriptors2@[i]@.len() ==> {
                let entry = #[trigger] layouts@[i].entries@[j];
                &&& entry.binding == j as u32
                &&& entry.visibility == buffer_descriptors2@[i]@[j].shader_stages
                &&& entry.read_only == buffer_descriptors2@[i]@[j].read_only
            },
{
    let mut layouts: Vec<BindGroupLayoutDescriptor> = Vec::new();
    let mut layout_index: usize = 0;
    while layout_index < buffer_descriptors2.len()
        invariant
            layout_index <= buffer_descriptors2.len(),
            layouts.len() == layout_index,
            forall|i: int|
                0 <= i < layout_index ==> (#[trigger] layouts[i])@ == group_layout(
                    i,
                    buffer_descriptors2[i]@,
                ),
        decreases buffer_descriptors2.len() - layout_index,
    {
        layouts.push(create_bind_group_layout(layout_index, &buffer_descriptors2[layout_index]));
        layout_index += 1;
    }
    if features.emulate_constants {
        layouts.push(create_constants_layout(features));
    }
    layouts
}

fn create_bind_group<'a>(
    layout_index: usize,
    descriptors: &Vec<BufferDescriptor<'a>>,
    writable_buffers: &mut Vec<BufferSlot>,
) -> (bind_group: BindGroupDescriptor<'a>)
    ensures
        bind_group@ == group_setup(layout_index as int, descriptors@),
        final(writable_buffers)@ == old(writable_buffers)@ + group_slots(
            layout_index as int,
            descriptors@,
            descriptors@.len(),
        ),
{
    let ghost setup = group_setup(layout_index as int, descriptors@);
    let mut buffers: Vec<BufferInitDescriptor<'a>> = Vec::new();
    let mut entries: Vec<BindGroupEntry> = Vec::new();
    let mut i: usize = 0;
    while i < descriptors.len()
        invariant
            i <= descriptors.len(),
            setup == group_setup(layout_index as int, descriptors@),
            buffers@ == setup.buffers.take(i as int),
            entries@ == setup.entries.take(i as int),
            writable_buffers@ == old(writable_buffers)@ + group_slots(
                layout_index as int,
                descriptors@,
                i as nat,
            ),
        decreases descriptors.len() - i,
    {
        let descriptor = &descriptors[i];
        let mut usage: u32 = storage_usage();
        if descriptor.cpu_writable {
            usage = usage | copy_dst_usage();
        }
        buffers.push(
            BufferInitDescriptor {
                label: Some("Bind Group Buffer"),
                contents: BufferContents::Data(descriptor.data),
                usage,
            },
        );
        entries.push(BindGroupEntry { binding: i as u32, buffer: i });
        if descriptor.cpu_writable {
            writable_buffers.push(BufferSlot { group: layout_index, buffer: i });
        }
        i += 1;
    }
    let bind_group = BindGroupDescriptor {
        label: numbered_label("bind_group ", layout_index),
        layout: layout_index,
        buffers,
        entries,
        keep_buffers: false,
    };
    assert(bind_group@.buffers == setup.buffers);
    assert(bind_group@.entries == setup.entries);
    bind_group
}

fn create_constants_bind_group<'a>(features: Features, layout: usize) -> (bind_group:
    BindGroupDescriptor<'a>)
    requires
        layout < usize::MAX,
    ensures
        bind_group@ == constants_setup::<'a>(features, (layout + 1) as nat),
{
    let usage: u32 = storage_usage() | copy_dst_usage();
    let constants_buffer = BufferInitDescriptor {
        label: None,
        contents: BufferContents::Zeroed(CONSTANTS_SIZE as usize),
        usage,
    };
    let mut buffers: Vec<BufferInitDescriptor<'a>> = Vec::new();
    let mut entries: Vec<BindGroupEntry> = Vec::new();
    buffers.push(constants_buffer);
    entries.push(BindGroupEntry { binding: 0, buffer: 0 });
    if features.compute {
        buffers.push(constants_buffer);
        entries.push(BindGroupEntry { binding: 1, buffer: 1 });
    }
    let bind_group = BindGroupDescriptor {
        label: "emulated push constants bind group".to_owned(),
        layout,
        buffers,
        entries,
        keep_buffers: true,
    };
    assert(bind_group@.buffers =~= constants_setup::<'a>(features, (layout + 1) as nat).buffers);
    assert(bind_group@.entries =~= constants_setup::<'a>(features, (layout + 1) as nat).entries);
    bind_group
}

/// Describes the bind groups and their buffers, and lists the buffers that the controller gets.
pub fn create_bind_groups<'a>(
    features: Features,
    buffer_descriptors2: &[Vec<BufferDescriptor<'a>>],
    bind_group_layouts: &[BindGroupLayoutDescriptor],
) -> (created: (Vec<BindGroupDescriptor<'a>>, Vec<BufferSlot>))
    requires
        features.emulate_constants ==> bind_group_layouts.len() > 0,
    ensures
        created.0@.map_values(|group: BindGroupDescriptor<'a>| group@) == all_setups(
            features,
            buffer_descriptors2@,
            bind_group_layouts@.len(),
        ),
        created.1@ == writable_slots(
            buffer_descriptors2@,
            paired(buffer_descriptors2@, bind_group_layouts@.len()),
        ),
        forall|i: int, j: int|
            0 <= i < buffer_descriptors2@.len() && i < bind_group_layouts@.len() && 0 <= j
                < buffer_descriptors2@[i]@.len() ==> {
                let buffer = #[trigger] created.0@[i].buffers@[j];
                &&& buffer.contents == BufferContents::Data(buffer_descriptors2@[i]@[j].data)
                &&& buffer.usage == if buffer_descriptors2@[i]@[j].cpu_writable {
                    STORAGE | COPY_DST
                } else {
                    STORAGE
                }
            },
{
    let mut writable_buffers: Vec<BufferSlot> = Vec::new();
    let mut bind_groups: Vec<BindGroupDescriptor<'a>> = Vec::new();
    let mut layout_index: usize = 0;
    while layout_index < buffer_descriptors2.len() && layout_index < bind_group_layouts.len()
        invariant
            layout_index <= buffer_descriptors2.len(),
            layout_index <= bind_group_layouts.len(),
            bind_groups.len() == layout_index,
            forall|i: int|
                0 <= i < layout_index ==> (#[trigger] bind_groups[i])@ == group_setup(
                    i,
                    buffer_descriptors2[i]@,
                ),
            writable_buffers@ == writable_slots(buffer_descriptors2@, layout_index as nat),
        decreases buffer_descriptors2.len() - layout_index,
    {
        let bind_group = create_bind_group(
            layout_index,
            &buffer_descriptors2[layout_index],
            &mut writable_buffers,
        );
        bind_groups.push(bind_group);
        layout_index += 1;
    }
    if features.emulate_constants {
        bind_groups.push(create_constants_bind_group(features, bind_group_layouts.len() - 1));
    }
    (bind_groups, writable_buffers)
}

} // verus!
