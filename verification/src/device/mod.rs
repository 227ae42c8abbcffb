//! Vulkan logical device: resource tables, validation and command planning.
//!
//! The tables hold Vulkan handles as numbers. Operations on the device check their arguments,
//! update the tables and say which Vulkan calls are to be made; the caller makes the calls
//! and hands their results back.
use vstd::prelude::*;

use crate::command::Cleanup;
use crate::device::base_layouts::BaseLayouts;
use crate::error::{GpuError, GpuErrorView, UsageError, UsageErrorView};
use crate::hal::{
    BufferUsage, DeviceLimits, Features, HalCapabilities, MemoryUsage, BUFFER_STORAGE,
};
use crate::slot_map::{Handle, SlotMap, Slots};
use crate::vk::Extent2D;

pub mod base_layouts;
pub mod bindless;
pub mod buffers;
pub mod constants;
pub mod context;
pub mod dispatch;
pub mod formats;
pub mod lifetime;
pub mod pipelines;
pub mod selection;
pub mod submission;
pub mod targets;
pub mod teardown;
pub mod textures;

verus! {

/// Bytes of push constants that a compute shader may use. Vulkan guarantees at least as many on
/// every device.
pub const COMPUTE_PUSH_CONSTANT_BYTES: usize = 128;

/// Marks buffer handles.
#[derive(Debug)]
pub struct BufferTag;

/// Marks texture handles.
#[derive(Debug)]
pub struct TextureTag;

/// Marks sampler handles.
#[derive(Debug)]
pub struct SamplerTag;

/// Marks shader handles.
#[derive(Debug)]
pub struct ShaderTag;

/// Marks pipeline handles.
#[derive(Debug)]
pub struct PipelineTag;

/// Marks render target handles.
#[derive(Debug)]
pub struct TargetTag;

pub type BufferHandle = Handle<BufferTag>;

pub type TextureHandle = Handle<TextureTag>;

pub type SamplerHandle = Handle<SamplerTag>;

pub type ShaderHandle = Handle<ShaderTag>;

pub type PipelineHandle = Handle<PipelineTag>;

pub type TargetHandle = Handle<TargetTag>;

/// Buffer in the device's table. `mapped` is the address at which its memory is mapped, or zero;
/// memory that is for the GPU only is not mapped.
#[derive(Clone, Copy, PartialEq, Eq, Structural, Debug)]
pub struct VulkanBuffer {
    pub buffer: u64,
    pub memory: u64,
    pub size: u64,
    pub usage: BufferUsage,
    pub location: MemoryUsage,
    pub mapped: u64,
}

/// Texture in the device's table. `usage` is a Vulkan flag word.
#[derive(Clone, Copy, PartialEq, Eq, Structural, Debug)]
pub struct VulkanTexture {
    pub image: u64,
    pub view: u64,
    pub memory: u64,
    pub format: i32,
    pub extent: Extent2D,
    pub depth: u32,
    pub mip_levels: u32,
    pub array_layers: u32,
    pub usage: u32,
}

/// Compute or graphics pipeline. Both kinds share one table.
#[derive(Clone, Copy, PartialEq, Eq, Structural, Debug)]
pub enum VulkanPipeline {
    Compute { layout: u64, pipeline: u64 },
    Graphics { layout: u64, pipeline: u64 },
}

impl VulkanPipeline {
    /// The pipeline and its layout, whatever the kind.
    pub open spec fn parts(self) -> (u64, u64) {
        match self {
            VulkanPipeline::Compute { layout, pipeline } => (pipeline, layout),
            VulkanPipeline::Graphics { layout, pipeline } => (pipeline, layout),
        }
    }

    pub fn handles(&self) -> (r: (u64, u64))
        ensures
            r == self.parts(),
    {
        match *self {
            VulkanPipeline::Compute { layout, pipeline } => (pipeline, layout),
            VulkanPipeline::Graphics { layout, pipeline } => (pipeline, layout),
        }
    }
}

/// Image registered as a render pass attachment: a swapchain image or an offscreen texture.
/// `layout` tracks the layout the image is in.
#[derive(Clone, Copy, PartialEq, Eq, Structural, Debug)]
pub struct VulkanRenderTarget {
    pub image: u64,
    pub view: u64,
    pub format: i32,
    pub extent: Extent2D,
    pub layout: i32,
}

/// Resource whose handle is dead and whose Vulkan objects may still be in use by the GPU, with
/// its slot.
#[derive(Clone, Copy, PartialEq, Eq, Structural, Debug)]
pub enum DeferredVulkanResource {
    Buffer(u32, VulkanBuffer),
    Texture(u32, VulkanTexture),
    Sampler(u32, u64),
    Pipeline(u32, VulkanPipeline),
}

/// Table that a deferred resource came from.
pub enum Table {
    Buffers,
    Textures,
    Samplers,
    Pipelines,
}

impl DeferredVulkanResource {
    pub open spec fn table(self) -> Table {
        match self {
            DeferredVulkanResource::Buffer(_, _) => Table::Buffers,
            DeferredVulkanResource::Texture(_, _) => Table::Textures,
            DeferredVulkanResource::Sampler(_, _) => Table::Samplers,
            DeferredVulkanResource::Pipeline(_, _) => Table::Pipelines,
        }
    }

    pub open spec fn slot(self) -> int {
        match self {
            DeferredVulkanResource::Buffer(i, _) => i as int,
            DeferredVulkanResource::Texture(i, _) => i as int,
            DeferredVulkanResource::Sampler(i, _) => i as int,
            DeferredVulkanResource::Pipeline(i, _) => i as int,
        }
    }

    /// Destruction of the resource.
    pub open spec fn cleanup(self) -> Seq<Cleanup> {
        match self {
            DeferredVulkanResource::Buffer(_, b) => buffer_cleanup(b),
            DeferredVulkanResource::Texture(_, t) => texture_cleanup(t),
            DeferredVulkanResource::Sampler(_, s) => seq![Cleanup::DestroySampler(s)],
            DeferredVulkanResource::Pipeline(_, p) => pipeline_cleanup(p),
        }
    }
}

/// Destruction of a buffer: its memory is unmapped first, if it is mapped.
pub open spec fn buffer_cleanup(b: VulkanBuffer) -> Seq<Cleanup> {
    if b.mapped != 0 {
        seq![
            Cleanup::UnmapMemory(b.memory),
            Cleanup::DestroyBuffer(b.buffer),
            Cleanup::FreeMemory(b.memory),
        ]
    } else {
        seq![Cleanup::DestroyBuffer(b.buffer), Cleanup::FreeMemory(b.memory)]
    }
}

pub open spec fn texture_cleanup(t: VulkanTexture) -> Seq<Cleanup> {
    seq![
        Cleanup::DestroyImageView(t.view),
        Cleanup::DestroyImage(t.image),
        Cleanup::FreeMemory(t.memory),
    ]
}

pub open spec fn pipeline_cleanup(p: VulkanPipeline) -> Seq<Cleanup> {
    seq![Cleanup::DestroyPipeline(p.parts().0), Cleanup::DestroyPipelineLayout(p.parts().1)]
}

pub(crate) fn destroy_buffer_steps(b: &VulkanBuffer) -> (steps: Vec<Cleanup>)
    ensures
        steps@ == buffer_cleanup(*b),
{
    let mut steps: Vec<Cleanup> = Vec::new();
    if b.mapped != 0 {
        steps.push(Cleanup::UnmapMemory(b.memory));
    }
    steps.push(Cleanup::DestroyBuffer(b.buffer));
    steps.push(Cleanup::FreeMemory(b.memory));
    assert(steps@ =~= buffer_cleanup(*b));
    steps
}

/// Vulkan handles of a device, its queue, and what they were made from.
#[derive(Clone, Copy, PartialEq, Eq, Structural, Debug)]
pub struct DeviceHandles {
    pub instance: u64,
    pub physical: u64,
    pub device: u64,
    pub queue: u64,
    pub queue_family: u32,
}

/// Fixed properties of a device.
#[derive(Clone, Copy, Debug)]
pub struct DeviceInfo {
    pub handles: DeviceHandles,
    pub limits: DeviceLimits,
    pub features: Features,
    pub graphics: bool,
    pub dual_src_blend: bool,
    pub fill_mode_non_solid: bool,
    pub sampler_anisotropy: bool,
    pub pipeline_cache: u64,
}

/// Descriptor pool, layout and set of the bindless tables, and their sizes.
#[derive(Clone, Copy, PartialEq, Eq, Structural, Debug)]
pub struct Bindless {
    pub layout: u64,
    pub pool: u64,
    pub set: u64,
    pub buffer_capacity: u32,
    pub texture_capacity: u32,
}

/// Vulkan logical device.
pub struct VulkanDevice {
    info: DeviceInfo,
    /// Property flags of each memory type.
    memory_types: Vec<u32>,
    buffers: SlotMap<BufferTag, VulkanBuffer>,
    textures: SlotMap<TextureTag, VulkanTexture>,
    samplers: SlotMap<SamplerTag, u64>,
    shaders: SlotMap<ShaderTag, u64>,
    pipelines: SlotMap<PipelineTag, VulkanPipeline>,
    render_targets: SlotMap<TargetTag, VulkanRenderTarget>,
    /// Layouts of the base levels of textures.
    base_layouts: BaseLayouts,
    bindless: Bindless,
    /// Whether each slot of the texture table has a descriptor of the texture in that slot.
    bound_textures: Vec<bool>,
    /// Asynchronous submissions that have not completed.
    in_flight: u64,
    /// Resources destroyed while submissions were in flight.
    deferred: Vec<DeferredVulkanResource>,
    /// Fences that can be reused.
    free_fences: Vec<u64>,
    /// Command buffers that can be reused.
    free_cmds: Vec<u64>,
}

/// Contents of a [`VulkanDevice`].
#[verifier::ext_equal]
pub struct DeviceView {
    pub info: DeviceInfo,
    pub memory_types: Seq<u32>,
    pub buffers: Slots<VulkanBuffer>,
    pub textures: Slots<VulkanTexture>,
    pub samplers: Slots<u64>,
    pub shaders: Slots<u64>,
    pub pipelines: Slots<VulkanPipeline>,
    pub render_targets: Slots<VulkanRenderTarget>,
    pub base_layouts: Map<u64, Seq<i32>>,
    pub bindless: Bindless,
    pub bound_textures: Seq<bool>,
    pub in_flight: u64,
    pub deferred: Seq<DeferredVulkanResource>,
    pub free_fences: Seq<u64>,
    pub free_cmds: Seq<u64>,
}

impl View for VulkanDevice {
    type V = DeviceView;

    closed spec fn view(&self) -> DeviceView {
        DeviceView {
            info: self.info,
            memory_types: self.memory_types@,
            buffers: self.buffers@,
            textures: self.textures@,
            samplers: self.samplers@,
            shaders: self.shaders@,
            pipelines: self.pipelines@,
            render_targets: self.render_targets@,
            base_layouts: self.base_layouts@,
            bindless: self.bindless,
            bound_textures: self.bound_textures@,
            in_flight: self.in_flight,
            deferred: self.deferred@,
            free_fences: self.free_fences@,
            free_cmds: self.free_cmds@,
        }
    }
}

impl DeviceView {
    /// Slot `i` of a table is retired.
    pub open spec fn retired(self, table: Table, i: int) -> bool {
        match table {
            Table::Buffers => 0 <= i < self.buffers.entries.len()
                && self.buffers.entries[i].state is Retired,
            Table::Textures => 0 <= i < self.textures.entries.len()
                && self.textures.entries[i].state is Retired,
            Table::Samplers => 0 <= i < self.samplers.entries.len()
                && self.samplers.entries[i].state is Retired,
            Table::Pipelines => 0 <= i < self.pipelines.entries.len()
                && self.pipelines.entries[i].state is Retired,
        }
    }

    /// Slot `i` of a table will never be used again.
    pub open spec fn spent(self, table: Table, i: int) -> bool {
        match table {
            Table::Buffers => 0 <= i < self.buffers.entries.len()
                && self.buffers.entries[i].state is Spent,
            Table::Textures => 0 <= i < self.textures.entries.len()
                && self.textures.entries[i].state is Spent,
            Table::Samplers => 0 <= i < self.samplers.entries.len()
                && self.samplers.entries[i].state is Spent,
            Table::Pipelines => 0 <= i < self.pipelines.entries.len()
                && self.pipelines.entries[i].state is Spent,
        }
    }

    /// A deferred resource came from slot `i` of a table.
    pub open spec fn awaits(self, table: Table, i: int) -> bool {
        exists|k: int|
            0 <= k < self.deferred.len() && (#[trigger] self.deferred[k]).table() == table
                && self.deferred[k].slot() == i
    }

    /// The deferred resources are those of the retired slots, each once.
    pub open spec fn deferred_ok(self) -> bool {
        &&& self.in_flight == 0 ==> self.deferred.len() == 0
        &&& forall|k: int|
            0 <= k < self.deferred.len() ==> {
                let d = #[trigger] self.deferred[k];
                self.retired(d.table(), d.slot()) || self.spent(d.table(), d.slot())
            }
        &&& forall|j: int, k: int|
            0 <= j < k < self.deferred.len() ==> (#[trigger] self.deferred[j]).table() != (
            #[trigger] self.deferred[k]).table() || self.deferred[j].slot()
                != self.deferred[k].slot()
        &&& forall|table: Table, i: int| #[trigger]
            self.retired(table, i) ==> self.awaits(table, i)
    }

    /// A storage buffer in slot `i` has a place in the bindless table, and one that is for the GPU
    /// only is not mapped.
    pub open spec fn buffer_ok(self, i: int) -> bool {
        &&& self.buffers.at(i).usage.has(BUFFER_STORAGE) ==> i < self.bindless.buffer_capacity
        &&& self.buffers.at(i).location is GpuOnly ==> self.buffers.at(i).mapped == 0
    }

    pub open spec fn buffers_ok(self) -> bool {
        forall|i: int| #[trigger] self.buffers.occupied(i) ==> self.buffer_ok(i)
    }

    /// There is one flag for each slot of the texture table.
    pub open spec fn bound_ok(self) -> bool {
        self.bound_textures.len() == self.bindless.texture_capacity
    }

    /// Every table has room for `n` more resources.
    pub open spec fn has_room_for(self, n: u64) -> bool {
        &&& self.buffers.room() >= n
        &&& self.textures.room() >= n
        &&& self.samplers.room() >= n
        &&& self.shaders.room() >= n
        &&& self.pipelines.room() >= n
        &&& self.render_targets.room() >= n
    }

    pub open spec fn wf(self) -> bool {
        &&& self.memory_types.len() <= 32
        &&& self.buffers.wf()
        &&& self.textures.wf()
        &&& self.samplers.wf()
        &&& self.shaders.wf()
        &&& self.pipelines.wf()
        &&& self.render_targets.wf()
        &&& self.deferred_ok()
        &&& self.buffers_ok()
        &&& self.bound_ok()
    }
}

/// Error for a dead handle: it names the generation that its slot has now.
pub open spec fn stale_view<M, T>(slots: Slots<T>, h: Handle<M>) -> GpuErrorView {
    GpuErrorView::InvalidUsage(
        UsageErrorView::StaleHandle {
            index: h.slot(),
            expected_gen: h.gen(),
            actual_gen: if h.slot() < slots.entries.len() {
                slots.entries[h.slot() as int].generation
            } else {
                u32::MAX
            },
        },
    )
}

pub(crate) fn stale<M, T: Copy>(map: &SlotMap<M, T>, h: Handle<M>) -> (e: GpuError)
    ensures
        e@ == stale_view(map@, h),
{
    let actual_gen: u32 = match map.generation_at(h.index()) {
        Some(g) => g,
        None => u32::MAX,
    };
    GpuError::InvalidUsage(
        UsageError::StaleHandle { index: h.index(), expected_gen: h.generation(), actual_gen },
    )
}

impl VulkanDevice {
    /// Device without resources.
    pub fn new(info: DeviceInfo, memory_types: Vec<u32>, bindless: Bindless) -> (dev: Self)
        requires
            memory_types.len() <= 32,
        ensures
            dev@.wf(),
            dev@.info == info,
            dev@.memory_types == memory_types@,
            dev@.bindless == bindless,
            dev@.buffers.entries.len() == 0,
            dev@.textures.entries.len() == 0,
            dev@.samplers.entries.len() == 0,
            dev@.shaders.entries.len() == 0,
            dev@.pipelines.entries.len() == 0,
            dev@.render_targets.entries.len() == 0,
            dev@.base_layouts == Map::<u64, Seq<i32>>::empty(),
            dev@.bound_textures == Seq::new(bindless.texture_capacity as nat, |i: int| false),
            dev@.in_flight == 0,
            dev@.deferred.len() == 0,
            dev@.free_fences.len() == 0,
            dev@.free_cmds.len() == 0,
    {
        let mut bound_textures: Vec<bool> = Vec::new();
        let mut i: u32 = 0;
        while i < bindless.texture_capacity
            invariant
                i <= bindless.texture_capacity,
                bound_textures@ == Seq::new(i as nat, |i: int| false),
            decreases bindless.texture_capacity - i,
        {
            bound_textures.push(false);
            i += 1;
            assert(bound_textures@ =~= Seq::new(i as nat, |i: int| false));
        }
        let dev = VulkanDevice {
            info,
            memory_types,
            buffers: SlotMap::new(),
            textures: SlotMap::new(),
            samplers: SlotMap::new(),
            shaders: SlotMap::new(),
            pipelines: SlotMap::new(),
            render_targets: SlotMap::new(),
            base_layouts: BaseLayouts::new(),
            bindless,
            bound_textures,
            in_flight: 0,
            deferred: Vec::new(),
            free_fences: Vec::new(),
            free_cmds: Vec::new(),
        };
        dev
    }

    /// Whether every table has room for `n` more resources.
    pub fn has_room_for(&self, n: u64) -> (r: bool)
        requires
            self@.wf(),
        ensures
            r == self@.has_room_for(n),
    {
        self.buffers.has_room_for(n) && self.textures.has_room_for(n)
            && self.samplers.has_room_for(n) && self.shaders.has_room_for(n)
            && self.pipelines.has_room_for(n) && self.render_targets.has_room_for(n)
    }

    /// What the device can do.
    pub fn capabilities(&self) -> (caps: HalCapabilities)
        ensures
            caps == (HalCapabilities {
                graphics: self@.info.graphics,
                compute: true,
                features: self@.info.features,
            }),
    {
        HalCapabilities {
            graphics: self.info.graphics,
            compute: true,
            features: self.info.features,
        }
    }

    pub fn limits(&self) -> (limits: DeviceLimits)
        ensures
            limits == self@.info.limits,
    {
        self.info.limits
    }

    pub fn supports_anisotropic_filtering(&self) -> (r: bool)
        ensures
            r == self@.info.sampler_anisotropy,
    {
        self.info.sampler_anisotropy
    }

    pub fn supports_dual_source_blending(&self) -> (r: bool)
        ensures
            r == self@.info.dual_src_blend,
    {
        self.info.dual_src_blend
    }

    pub fn supports_non_solid_fill(&self) -> (r: bool)
        ensures
            r == self@.info.fill_mode_non_solid,
    {
        self.info.fill_mode_non_solid
    }
}

} // verus!
