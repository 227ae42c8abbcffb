//! Surface that draws a batch of solid-color rectangles per frame.
//!
//! A rectangle is one instance of a quad of two triangles. The command buffer of a frame is
//! recorded anew each time. The instance buffers start small and grow by doubling.
//!
//! Presenting a frame goes through stages, with one Vulkan call between any two: `present` names
//! the fence to wait for, then come `present_waited`, `present_acquired` and `present_reset`;
//! the instances are stored and `record` says what to record; `present_submit` says how to
//! submit, `present_submitted` how to present, and `present_done` ends the frame.
use vstd::prelude::*;

use crate::calls;
use crate::calls::{call_result, VkCall};
use crate::canvas;
use crate::command;
use crate::command::{ClearValue, Cleanup, Command, CommandOf, CommandView};
use crate::device::buffers;
use crate::device::buffers::{
    find_memory_type, store, unwind_one, unwind_two, BufferCreateInfo, Unwind, UnwindView,
};
use crate::device::constants;
use crate::device::constants::{push_word, ByteOrder};
use crate::device::formats::BlendAttachment;
use crate::device::pipelines::{BoundAttribute, PushRange, VertexBinding};
use crate::error;
use crate::error::{backend_error, GpuError, GpuErrorView};
use crate::quads;
use crate::quads::{map_quad_surface_err, push_framebuffers, QuadPipelinePlan, ONE_BITS};
use crate::swapchain;
use crate::swapchain::{
    AcquireInfo, AcquireStep, BeginFrame, FramePresent, FrameSubmit, PresentStep,
    SurfaceCapabilities, SurfaceFormat, Swapchain, SwapchainPlan, SwapchainView,
};
use crate::vk;

verus! {

/// Capacity of a new instance buffer, in rectangles.
pub const INITIAL_RECTS: usize = 256;

/// Bytes of one instance.
pub const INSTANCE_SIZE: usize = 32;

/// One solid-color rectangle: `rect` is left, top, width and height in physical pixels, `color`
/// is red, green, blue and alpha from zero to one, not premultiplied. All are given by the bits
/// of IEEE 754 singles.
#[derive(Clone, Copy, Debug)]
pub struct RectInstance {
    pub rect: [u32; 4],
    pub color: [u32; 4],
}

/// Words of one instance.
pub open spec fn rect_words(r: RectInstance) -> Seq<u32> {
    r.rect@ + r.color@
}

/// Words of the first `k` instances.
pub open spec fn instance_words(rects: Seq<RectInstance>, k: int) -> Seq<u32>
    decreases k,
{
    if k <= 0 {
        Seq::empty()
    } else {
        instance_words(rects, k - 1) + rect_words(rects[k - 1])
    }
}

/// Instances as they lie in a vertex buffer.
pub open spec fn instance_bytes(order: ByteOrder, rects: Seq<RectInstance>) -> Seq<u8> {
    constants::words_bytes(order, instance_words(rects, rects.len() as int))
}

proof fn lemma_instance_words(rects: Seq<RectInstance>, k: int, i: int)
    requires
        0 <= k <= rects.len(),
    ensures
        instance_words(rects, k).len() == 8 * k,
        0 <= i < k ==> instance_words(rects, k).subrange(8 * i, 8 * i + 8) == rect_words(rects[i]),
    decreases k,
{
    if k > 0 {
        lemma_instance_words(rects, k - 1, i);
        let before = instance_words(rects, k - 1);
        let all = instance_words(rects, k);
        if 0 <= i < k - 1 {
            assert(all.subrange(8 * i, 8 * i + 8) =~= before.subrange(8 * i, 8 * i + 8));
        } else if i == k - 1 {
            assert(all.subrange(8 * i, 8 * i + 8) =~= rect_words(rects[i]));
        }
    }
}

/// The instances lie one after another, as the vertex attributes of the pipeline expect them:
/// word `j` of rectangle `i` is at byte `32 * i + 4 * j`.
pub proof fn instances_match_attributes(order: ByteOrder, rects: Seq<RectInstance>, i: int, j: int)
    requires
        0 <= i < rects.len(),
        0 <= j < 8,
    ensures
        instance_bytes(order, rects).len() == INSTANCE_SIZE * rects.len(),
        constants::bytes_word(
            order,
            instance_bytes(order, rects).subrange(32 * i + 4 * j, 32 * i + 4 * j + 4),
        ) == rect_words(rects[i])[j],
{
    let n = rects.len() as int;
    let words = instance_words(rects, n);
    lemma_instance_words(rects, n, i);
    constants::words_bytes_len(order, words);
    constants::words_round_trip(order, words, 8 * i + j);
    assert(words.subrange(8 * i, 8 * i + 8)[j] == words[8 * i + j]);
}

fn push_array(bytes: &mut Vec<u8>, order: ByteOrder, words: &[u32; 4], Ghost(before): Ghost<Seq<u32>>)
    requires
        old(bytes)@ == constants::words_bytes(order, before),
    ensures
        final(bytes)@ == constants::words_bytes(order, before + words@),
{
    let mut k: usize = 0;
    assert(before + words@.take(0) =~= before);
    while k < 4
        invariant
            k <= 4,
            words@.len() == 4,
            bytes@ == constants::words_bytes(order, before + words@.take(k as int)),
        decreases 4 - k,
    {
        let w: u32 = words[k];
        push_word(bytes, order, w);
        proof {
            constants::lemma_words_push(order, before + words@.take(k as int), w);
            assert((before + words@.take(k as int)).push(w) =~= before + words@.take(k + 1));
        }
        k += 1;
    }
    assert(words@.take(4) =~= words@);
}

/// Stores instances at the start of the mapped memory of an instance buffer.
pub fn upload(memory: &mut [u8], rects: &[RectInstance], order: ByteOrder)
    requires
        INSTANCE_SIZE * rects@.len() <= old(memory)@.len(),
    ensures
        final(memory)@ == buffers::stored(old(memory)@, 0, instance_bytes(order, rects@)),
{
    let size: usize = memory.len();
    let n: usize = rects.len();
    let mut bytes: Vec<u8> = Vec::new();
    let mut i: usize = 0;
    while i < n
        invariant
            n == rects@.len(),
            i <= n,
            bytes@ == constants::words_bytes(order, instance_words(rects@, i as int)),
        decreases n - i,
    {
        let ghost words = instance_words(rects@, i as int);
        push_array(&mut bytes, order, &rects[i].rect, Ghost(words));
        push_array(&mut bytes, order, &rects[i].color, Ghost(words + rects[i as int].rect@));
        assert(words + rects[i as int].rect@ + rects[i as int].color@ =~= words + rect_words(
            rects@[i as int],
        ));
        i += 1;
    }
    proof {
        lemma_instance_words(rects@, n as int, 0);
        constants::words_bytes_len(order, instance_words(rects@, n as int));
    }
    store(memory, 0, bytes.as_slice());
}

// ── Instance buffers ───────────────────────────────────────────────────────────

/// Mapped vertex buffer for the instances of one frame in flight. `mapped` is the address of its
/// memory, and `capacity` is in rectangles.
#[derive(Clone, Copy, PartialEq, Eq, Structural, Debug)]
pub struct InstanceBuffer {
    pub buffer: u64,
    pub memory: u64,
    pub mapped: u64,
    pub capacity: usize,
}

/// A capacity of at least one, doubled until there is room for `needed`.
pub open spec fn doubled(capacity: int, needed: int) -> int
    decreases 2 * needed - capacity,
{
    if capacity < 1 || capacity >= needed {
        capacity
    } else {
        doubled(2 * capacity, needed)
    }
}

/// At least one.
pub open spec fn nonzero(n: usize) -> usize {
    if n == 0 {
        1
    } else {
        n
    }
}

/// A buffer that grows has room for what is needed, and less than twice as much.
pub proof fn growth_is_bounded(capacity: int, needed: int)
    requires
        capacity >= 1,
    ensures
        doubled(capacity, needed) >= needed,
        doubled(capacity, needed) >= capacity,
        capacity < needed ==> doubled(capacity, needed) < 2 * needed,
    decreases 2 * needed - capacity,
{
    if capacity < needed {
        growth_is_bounded(2 * capacity, needed);
    }
}

impl InstanceBuffer {
    /// Capacity to grow to for `needed` rectangles, or `None` if there is room for them.
    pub fn ensure_capacity(&self, needed: usize) -> (r: Option<usize>)
        requires
            needed <= usize::MAX / 64,
        ensures
            match r {
                None => needed <= self.capacity,
                Some(c) => needed > self.capacity && c == doubled(
                    nonzero(self.capacity) as int,
                    needed as int,
                ) && INSTANCE_SIZE * c <= usize::MAX,
            },
    {
        if needed <= self.capacity {
            return None;
        }
        let mut c: usize = if self.capacity == 0 {
            1
        } else {
            self.capacity
        };
        while c < needed
            invariant
                1 <= c <= 2 * needed,
                needed <= usize::MAX / 64,
                doubled(c as int, needed as int) == doubled(
                    nonzero(self.capacity) as int,
                    needed as int,
                ),
            decreases 2 * needed - c,
        {
            c = c * 2;
        }
        Some(c)
    }

    /// Takes over a larger buffer, and destroys the one before.
    pub fn replace(&mut self, buffer: u64, memory: u64, mapped: u64, capacity: usize) -> (steps: Vec<
        Cleanup,
    >)
        ensures
            *final(self) == (InstanceBuffer { buffer, memory, mapped, capacity }),
            steps@ == instance_cleanup(*old(self)),
    {
        let steps = self.destroy();
        self.buffer = buffer;
        self.memory = memory;
        self.mapped = mapped;
        self.capacity = capacity;
        steps
    }

    /// Destruction of the buffer.
    pub fn destroy(&self) -> (steps: Vec<Cleanup>)
        ensures
            steps@ == instance_cleanup(*self),
    {
        let mut steps: Vec<Cleanup> = Vec::new();
        steps.push(Cleanup::UnmapMemory(self.memory));
        steps.push(Cleanup::DestroyBuffer(self.buffer));
        steps.push(Cleanup::FreeMemory(self.memory));
        assert(steps@ =~= instance_cleanup(*self));
        steps
    }
}

/// Destruction of an instance buffer.
pub open spec fn instance_cleanup(b: InstanceBuffer) -> Seq<Cleanup> {
    seq![
        Cleanup::UnmapMemory(b.memory),
        Cleanup::DestroyBuffer(b.buffer),
        Cleanup::FreeMemory(b.memory),
    ]
}

/// What an instance buffer is created with.
pub fn alloc_mapped_vertex_buffer(capacity: usize) -> (info: BufferCreateInfo)
    requires
        INSTANCE_SIZE * capacity <= usize::MAX,
    ensures
        info == (BufferCreateInfo {
            size: (nonzero(capacity) * INSTANCE_SIZE) as u64,
            usage: vk::BUFFER_USAGE_VERTEX_BUFFER,
        }),
{
    let n: usize = if capacity == 0 {
        1
    } else {
        capacity
    };
    BufferCreateInfo { size: (n * INSTANCE_SIZE) as u64, usage: vk::BUFFER_USAGE_VERTEX_BUFFER }
}

/// Memory type for an instance buffer.
pub fn instance_memory_type(memory_types: &Vec<u32>, buffer: u64, type_bits: u32) -> (r: Result<
    u32,
    Unwind,
>)
    requires
        memory_types.len() <= 32,
    ensures
        ({
            let found = buffers::memory_type(
                memory_types@,
                type_bits,
                vk::MEMORY_PROPERTY_HOST_VISIBLE | vk::MEMORY_PROPERTY_HOST_COHERENT,
            );
            match r {
                Ok(i) => found == Some(i as int),
                Err(u) => found is None && u@ == (UnwindView {
                    cleanup: seq![Cleanup::DestroyBuffer(buffer)],
                    error: GpuErrorView::Backend("no host-visible memory for instances"@),
                }),
            }
        }),
{
    match find_memory_type(
        memory_types,
        type_bits,
        vk::MEMORY_PROPERTY_HOST_VISIBLE | vk::MEMORY_PROPERTY_HOST_COHERENT,
    ) {
        Some(i) => Ok(i),
        None => Err(
            unwind_one(
                Cleanup::DestroyBuffer(buffer),
                GpuError::Backend("no host-visible memory for instances".to_owned()),
            ),
        ),
    }
}

/// Outcome of allocating the memory of an instance buffer.
pub fn instance_allocated(buffer: u64, result: Result<u64, i32>) -> (r: Result<u64, Unwind>)
    ensures
        match (result, r) {
            (Ok(m), Ok(memory)) => memory == m,
            (Err(code), Err(u)) => u@ == (UnwindView {
                cleanup: seq![Cleanup::DestroyBuffer(buffer)],
                error: error::backend_failure("allocate instance memory"@, code),
            }),
            _ => false,
        },
{
    match result {
        Ok(memory) => Ok(memory),
        Err(code) => Err(
            unwind_one(
                Cleanup::DestroyBuffer(buffer),
                backend_error("allocate instance memory", code),
            ),
        ),
    }
}

/// Outcome of binding the memory of an instance buffer.
pub fn instance_bound(buffer: u64, memory: u64, result: Result<(), i32>) -> (r: Result<(), Unwind>)
    ensures
        match (result, r) {
            (Ok(_), Ok(_)) => true,
            (Err(code), Err(u)) => u@ == (UnwindView {
                cleanup: seq![Cleanup::DestroyBuffer(buffer), Cleanup::FreeMemory(memory)],
                error: error::backend_failure("bind instance memory"@, code),
            }),
            _ => false,
        },
{
    match result {
        Ok(_) => Ok(()),
        Err(code) => Err(
            unwind_two(
                Cleanup::DestroyBuffer(buffer),
                Cleanup::FreeMemory(memory),
                backend_error("bind instance memory", code),
            ),
        ),
    }
}

/// Outcome of mapping the memory of an instance buffer.
pub fn instance_mapped(buffer: u64, memory: u64, result: Result<u64, i32>) -> (r: Result<
    u64,
    Unwind,
>)
    ensures
        match (result, r) {
            (Ok(a), Ok(address)) => address == a,
            (Err(code), Err(u)) => u@ == (UnwindView {
                cleanup: seq![Cleanup::DestroyBuffer(buffer), Cleanup::FreeMemory(memory)],
                error: error::backend_failure("map instance memory"@, code),
            }),
            _ => false,
        },
{
    match result {
        Ok(address) => Ok(address),
        Err(code) => Err(
            unwind_two(
                Cleanup::DestroyBuffer(buffer),
                Cleanup::FreeMemory(memory),
                backend_error("map instance memory", code),
            ),
        ),
    }
}

// ── Pipeline ───────────────────────────────────────────────────────────────────

/// Blending of colors that are not premultiplied.
pub open spec fn straight_alpha() -> BlendAttachment {
    BlendAttachment {
        blend_enable: true,
        src_color_blend_factor: vk::BLEND_FACTOR_SRC_ALPHA,
        dst_color_blend_factor: vk::BLEND_FACTOR_ONE_MINUS_SRC_ALPHA,
        color_blend_op: vk::BLEND_OP_ADD,
        src_alpha_blend_factor: vk::BLEND_FACTOR_ONE,
        dst_alpha_blend_factor: vk::BLEND_FACTOR_ONE_MINUS_SRC_ALPHA,
        alpha_blend_op: vk::BLEND_OP_ADD,
        color_write_mask: vk::COLOR_COMPONENT_RGBA,
    }
}

/// What the pipeline is created with: filled triangles, whichever way they face, one stream of
/// instances with two attributes of four singles, and the size of the viewport as push constants.
pub fn create_pipeline() -> (plan: QuadPipelinePlan)
    ensures
        plan.bindings@ == seq![
            VertexBinding {
                binding: 0,
                stride: INSTANCE_SIZE as u32,
                input_rate: vk::VERTEX_INPUT_RATE_INSTANCE,
            },
        ],
        plan.attributes@ == seq![
            BoundAttribute {
                location: 0,
                binding: 0,
                format: vk::FORMAT_R32G32B32A32_SFLOAT,
                offset: 0,
            },
            BoundAttribute {
                location: 1,
                binding: 0,
                format: vk::FORMAT_R32G32B32A32_SFLOAT,
                offset: 16,
            },
        ],
        plan.topology == vk::PRIMITIVE_TOPOLOGY_TRIANGLE_LIST,
        plan.polygon_mode == vk::POLYGON_MODE_FILL,
        plan.cull_mode == vk::CULL_MODE_NONE,
        plan.samples == vk::SAMPLE_COUNT_1,
        plan.front_face == vk::FRONT_FACE_COUNTER_CLOCKWISE,
        plan.blend == straight_alpha(),
        plan.push_constants == (PushRange { stages: vk::SHADER_STAGE_VERTEX, size: 8 }),
        plan.dynamic_viewport,
{
    let mut bindings: Vec<VertexBinding> = Vec::new();
    bindings.push(
        VertexBinding {
            binding: 0,
            stride: INSTANCE_SIZE as u32,
            input_rate: vk::VERTEX_INPUT_RATE_INSTANCE,
        },
    );
    let mut attributes: Vec<BoundAttribute> = Vec::new();
    attributes.push(
        BoundAttribute {
            location: 0,
            binding: 0,
            format: vk::FORMAT_R32G32B32A32_SFLOAT,
            offset: 0,
        },
    );
    attributes.push(
        BoundAttribute {
            location: 1,
            binding: 0,
            format: vk::FORMAT_R32G32B32A32_SFLOAT,
            offset: 16,
        },
    );
    QuadPipelinePlan {
        bindings,
        attributes,
        topology: vk::PRIMITIVE_TOPOLOGY_TRIANGLE_LIST,
        polygon_mode: vk::POLYGON_MODE_FILL,
        cull_mode: vk::CULL_MODE_NONE,
        samples: vk::SAMPLE_COUNT_1,
        front_face: vk::FRONT_FACE_COUNTER_CLOCKWISE,
        blend: BlendAttachment {
            blend_enable: true,
            src_color_blend_factor: vk::BLEND_FACTOR_SRC_ALPHA,
            dst_color_blend_factor: vk::BLEND_FACTOR_ONE_MINUS_SRC_ALPHA,
            color_blend_op: vk::BLEND_OP_ADD,
            src_alpha_blend_factor: vk::BLEND_FACTOR_ONE,
            dst_alpha_blend_factor: vk::BLEND_FACTOR_ONE_MINUS_SRC_ALPHA,
            alpha_blend_op: vk::BLEND_OP_ADD,
            color_write_mask: vk::COLOR_COMPONENT_RGBA,
        },
        push_constants: PushRange { stages: vk::SHADER_STAGE_VERTEX, size: 8 },
        dynamic_viewport: true,
    }
}

// ── Surface ────────────────────────────────────────────────────────────────────

/// A result code that a rebuilt swapchain answers, without an error for the caller: the surface
/// has another size, or was lost.
pub open spec fn needs_rebuild(code: i32) -> bool {
    code == vk::ERROR_OUT_OF_DATE_KHR || code == vk::ERROR_SURFACE_LOST_KHR
}

fn is_stale(code: i32) -> (r: bool)
    ensures
        r == needs_rebuild(code),
{
    code == vk::ERROR_OUT_OF_DATE_KHR || code == vk::ERROR_SURFACE_LOST_KHR
}

/// Surface that draws rectangles. Render pass and pipeline do not depend on the size, so that
/// they outlive a resize.
pub struct Vulkan2dSurface {
    swapchain: Swapchain,
    framebuffers: Vec<u64>,
    render_pass: u64,
    pipeline_layout: u64,
    pipeline: u64,
    instance_buffers: Vec<InstanceBuffer>,
}

/// Contents of a [`Vulkan2dSurface`].
#[verifier::ext_equal]
pub struct Surface2dView {
    pub swapchain: SwapchainView,
    pub framebuffers: Seq<u64>,
    pub render_pass: u64,
    pub pipeline_layout: u64,
    pub pipeline: u64,
    pub instance_buffers: Seq<InstanceBuffer>,
}

impl View for Vulkan2dSurface {
    type V = Surface2dView;

    closed spec fn view(&self) -> Surface2dView {
        Surface2dView {
            swapchain: self.swapchain@,
            framebuffers: self.framebuffers@,
            render_pass: self.render_pass,
            pipeline_layout: self.pipeline_layout,
            pipeline: self.pipeline,
            instance_buffers: self.instance_buffers@,
        }
    }
}

impl Surface2dView {
    pub open spec fn wf(self) -> bool {
        &&& self.swapchain.wf()
        &&& self.instance_buffers.len() == self.swapchain.frames_in_flight
    }
}

/// Clear color: the given one, or opaque black.
pub open spec fn clear_color(clear: Option<ClearValue>) -> ClearValue {
    match clear {
        Some(c) => c,
        None => ClearValue { r: 0, g: 0, b: 0, a: ONE_BITS },
    }
}

/// Commands that draw `count` instances. With none, the image is only cleared.
pub open spec fn draw_commands(
    s: Surface2dView,
    current: int,
    index: int,
    clear: Option<ClearValue>,
    count: u32,
) -> Seq<CommandView> {
    let area = s.swapchain.extent;
    let begin = seq![
        CommandView::BeginRenderPass {
            render_pass: s.render_pass,
            framebuffer: s.framebuffers[index],
            area,
            clear: clear_color(clear),
        },
        CommandView::BindPipeline {
            bind_point: vk::PIPELINE_BIND_POINT_GRAPHICS,
            pipeline: s.pipeline,
        },
        CommandView::SetViewport { area },
    ];
    let draw = if count > 0 {
        seq![
            CommandView::BindVertexBuffer {
                slot: 0,
                buffer: s.instance_buffers[current].buffer,
            },
            CommandView::PushExtent {
                layout: s.pipeline_layout,
                stages: vk::SHADER_STAGE_VERTEX,
                extent: area,
            },
            CommandView::Draw {
                vertex_count: 6,
                instance_count: count,
                first_vertex: 0,
                first_instance: 0,
            },
        ]
    } else {
        Seq::empty()
    };
    begin + draw + seq![CommandView::EndRenderPass]
}

/// Destruction of the first `k` instance buffers.
pub open spec fn instances_cleanup(list: Seq<InstanceBuffer>, k: int) -> Seq<Cleanup>
    decreases k,
{
    if k <= 0 {
        Seq::empty()
    } else {
        instances_cleanup(list, k - 1) + instance_cleanup(list[k - 1])
    }
}

/// Destruction of what depends on the swapchain: framebuffers, views, and the swapchain itself.
pub open spec fn images_cleanup(s: Surface2dView) -> Seq<Cleanup> {
    quads::framebuffers_cleanup(s.framebuffers) + swapchain::old_swapchain_cleanup(s.swapchain)
}

/// Destruction of a surface.
pub open spec fn surface_cleanup(s: Surface2dView) -> Seq<Cleanup> {
    instances_cleanup(s.instance_buffers, s.instance_buffers.len() as int) + images_cleanup(s)
        + swapchain::free_commands(
        s.swapchain.cmd_pool,
        s.swapchain.cmd_buffers,
        s.swapchain.frames_in_flight as int,
    ) + seq![
        Cleanup::DestroyPipeline(s.pipeline),
        Cleanup::DestroyPipelineLayout(s.pipeline_layout),
        Cleanup::DestroyRenderPass(s.render_pass),
        Cleanup::DestroyCommandPool(s.swapchain.cmd_pool),
    ] + swapchain::sync_cleanup(s.swapchain, s.swapchain.frames_in_flight as int) + seq![
        Cleanup::DestroySurface(s.swapchain.surface),
    ]
}

impl Vulkan2dSurface {
    /// Surface from its objects. There is one instance buffer per frame in flight.
    pub fn new(
        swapchain: Swapchain,
        framebuffers: Vec<u64>,
        render_pass: u64,
        pipeline_layout: u64,
        pipeline: u64,
        instance_buffers: Vec<InstanceBuffer>,
    ) -> (s: Self)
        requires
            swapchain@.wf(),
            instance_buffers.len() == swapchain@.frames_in_flight,
        ensures
            s@.wf(),
            s@ == (Surface2dView {
                swapchain: swapchain@,
                framebuffers: framebuffers@,
                render_pass,
                pipeline_layout,
                pipeline,
                instance_buffers: instance_buffers@,
            }),
    {
        Vulkan2dSurface {
            swapchain,
            framebuffers,
            render_pass,
            pipeline_layout,
            pipeline,
            instance_buffers,
        }
    }

    /// Extent in physical pixels.
    pub fn size(&self) -> (r: (u32, u32))
        ensures
            r == (self@.swapchain.extent.width, self@.swapchain.extent.height),
    {
        self.swapchain.extent()
    }

    /// Number of swapchain images.
    pub fn image_count(&self) -> (n: u32)
        ensures
            n == self@.swapchain.images.len() as u32,
    {
        self.swapchain.image_count() as u32
    }

    /// Instance buffer of a frame in flight.
    pub fn instance_buffer(&self, current: usize) -> (b: InstanceBuffer)
        requires
            self@.wf(),
            current < self@.swapchain.frames_in_flight,
        ensures
            b == self@.instance_buffers[current as int],
    {
        self.instance_buffers[current]
    }

    /// Takes over a larger instance buffer for a frame in flight, and destroys the one before.
    pub fn instance_grown(
        &mut self,
        current: usize,
        buffer: u64,
        memory: u64,
        mapped: u64,
        capacity: usize,
    ) -> (steps: Vec<Cleanup>)
        requires
            old(self)@.wf(),
            current < old(self)@.swapchain.frames_in_flight,
        ensures
            final(self)@.wf(),
            final(self)@ == (Surface2dView {
                instance_buffers: old(self)@.instance_buffers.update(
                    current as int,
                    (InstanceBuffer { buffer, memory, mapped, capacity }),
                ),
                ..old(self)@
            }),
            steps@ == instance_cleanup(old(self)@.instance_buffers[current as int]),
    {
        let ghost s = self@;
        let mut b = self.instance_buffers[current];
        let steps = b.replace(buffer, memory, mapped, capacity);
        self.instance_buffers.set(current, b);
        assert(self@ =~= Surface2dView {
            instance_buffers: s.instance_buffers.update(
                current as int,
                InstanceBuffer { buffer, memory, mapped, capacity },
            ),
            ..s
        });
        steps
    }

    /// Decides on a swapchain of another size. The window may be minimised.
    pub fn resize(
        &self,
        caps: &SurfaceCapabilities,
        formats: &Vec<SurfaceFormat>,
        width: u32,
        height: u32,
    ) -> (plan: SwapchainPlan)
        requires
            caps.valid(),
        ensures
            plan == swapchain::swapchain_plan(
                *caps,
                formats@,
                self@.swapchain.surface,
                self@.swapchain.format,
                self@.swapchain.present_mode,
                width,
                height,
                self@.swapchain.swapchain,
            ),
    {
        self.swapchain.resize(caps, formats, width, height)
    }

    /// What goes when the swapchain is rebuilt, once the new one exists.
    pub fn retire(&self) -> (steps: Vec<Cleanup>)
        ensures
            steps@ == images_cleanup(self@),
    {
        let mut steps: Vec<Cleanup> = Vec::new();
        push_framebuffers(&mut steps, &self.framebuffers);
        let mut more = self.swapchain.retire();
        steps.append(&mut more);
        assert(steps@ =~= images_cleanup(self@));
        steps
    }

    /// Puts a new swapchain in place of the old one. Render pass and pipeline stay.
    pub fn replace(
        &mut self,
        swapchain: u64,
        images: Vec<u64>,
        image_views: Vec<u64>,
        framebuffers: Vec<u64>,
        extent: vk::Extent2D,
    )
        requires
            old(self)@.wf(),
        ensures
            final(self)@.wf(),
            final(self)@ == (Surface2dView {
                swapchain: (SwapchainView {
                    swapchain,
                    images: images@,
                    image_views: image_views@,
                    extent,
                    ..old(self)@.swapchain
                }),
                framebuffers: framebuffers@,
                ..old(self)@
            }),
    {
        self.swapchain.replace(swapchain, images, image_views, extent);
        self.framebuffers = framebuffers;
    }

    /// Begins to present: the fence to wait for.
    pub fn present(&self) -> (fence: u64)
        requires
            self@.wf(),
        ensures
            fence == self@.swapchain.in_flight[self@.swapchain.current as int],
            fence == swapchain::awaited_fence(self@.swapchain, self@.swapchain.current),
    {
        self.swapchain.begin_frame()
    }

    /// Outcome of waiting for the fence: the image to acquire, or `None` for a minimised window,
    /// which has nothing to present.
    pub fn present_waited(&self, result: Result<(), i32>) -> (r: Result<
        Option<AcquireInfo>,
        GpuError,
    >)
        requires
            self@.wf(),
        ensures
            match (result, r) {
                (Ok(_), Ok(None)) => swapchain::is_empty_extent(self@.swapchain.extent),
                (Ok(_), Ok(Some(info))) => !swapchain::is_empty_extent(self@.swapchain.extent)
                    && info == (AcquireInfo {
                    swapchain: self@.swapchain.swapchain,
                    semaphore: self@.swapchain.image_available[self@.swapchain.current as int],
                }),
                (Err(code), Err(e)) => e@ == error::backend_failure(
                    calls::call_text(VkCall::WaitForFences),
                    code,
                ),
                _ => false,
            },
            r matches Ok(Some(info)) ==> info == swapchain::acquired_by(
                self@.swapchain,
                self@.swapchain.current,
            ),
    {
        match call_result(VkCall::WaitForFences, result) {
            Ok(_) => self.swapchain.frame_waited(Ok(())),
            Err(e) => Err(e),
        }
    }

    /// Outcome of acquiring an image. After a resize or a surface loss the swapchain is rebuilt,
    /// and the frame is skipped; its fence was not reset, so that it can be waited for again.
    pub fn present_acquired(&self, result: Result<u32, i32>) -> (r: Result<AcquireStep, GpuError>)
        requires
            self@.wf(),
        ensures
            match (result, r) {
                (Ok(i), Ok(step)) => step == (AcquireStep::Reset {
                    fence: self@.swapchain.in_flight[self@.swapchain.current as int],
                    index: i,
                }),
                (Err(code), Ok(step)) => needs_rebuild(code) && step
                    == (AcquireStep::Recreate {
                    width: self@.swapchain.extent.width,
                    height: self@.swapchain.extent.height,
                }),
                (Err(code), Err(e)) => !needs_rebuild(code) && e@
                    == GpuErrorView::Surface(quads::quad_surface_error(code)),
                _ => false,
            },
    {
        match result {
            Ok(index) => self.swapchain.frame_acquired(Ok(index)),
            Err(code) => if is_stale(code) {
                self.swapchain.frame_acquired(Err(vk::ERROR_OUT_OF_DATE_KHR))
            } else {
                Err(map_quad_surface_err(code))
            },
        }
    }

    /// Outcome of resetting the fence: the frame.
    pub fn present_reset(&self, index: u32, result: Result<(), i32>) -> (r: Result<
        BeginFrame,
        GpuError,
    >)
        ensures
            match (result, r) {
                (Ok(_), Ok(frame)) => frame == (BeginFrame::Image {
                    current: self@.swapchain.current,
                    index,
                }),
                (Err(code), Err(e)) => e@ == error::backend_failure("reset_fences"@, code),
                _ => false,
            },
    {
        self.swapchain.frame_reset(index, result)
    }

    /// Command buffer of a frame in flight.
    pub fn cmd_buffer(&self, current: usize) -> (cmd: u64)
        requires
            self@.wf(),
            current < self@.swapchain.frames_in_flight,
        ensures
            cmd == self@.swapchain.cmd_buffers[current as int],
    {
        self.swapchain.cmd_buffer(current)
    }

    /// Commands of a frame: they clear the image and draw `count` instances.
    pub fn record(&self, current: usize, index: u32, clear: Option<ClearValue>, count: u32) -> (commands:
        Vec<Command>)
        requires
            self@.wf(),
            current < self@.swapchain.frames_in_flight,
            index < self@.framebuffers.len(),
        ensures
            command::command_views(commands@) == draw_commands(
                self@,
                current as int,
                index as int,
                clear,
                count,
            ),
    {
        let (width, height) = self.swapchain.extent();
        let area = vk::Extent2D { width, height };
        let clear_value = match clear {
            Some(c) => c,
            None => ClearValue { r: 0, g: 0, b: 0, a: ONE_BITS },
        };
        let mut commands: Vec<Command> = Vec::new();
        commands.push(
            CommandOf::BeginRenderPass {
                render_pass: self.render_pass,
                framebuffer: self.framebuffers[index as usize],
                area,
                clear: clear_value,
            },
        );
        commands.push(
            CommandOf::BindPipeline {
                bind_point: vk::PIPELINE_BIND_POINT_GRAPHICS,
                pipeline: self.pipeline,
            },
        );
        commands.push(CommandOf::SetViewport { area });
        if count > 0 {
            commands.push(
                CommandOf::BindVertexBuffer {
                    slot: 0,
                    buffer: self.instance_buffers[current].buffer,
                },
            );
            commands.push(
                CommandOf::PushExtent {
                    layout: self.pipeline_layout,
                    stages: vk::SHADER_STAGE_VERTEX,
                    extent: area,
                },
            );
            commands.push(
                CommandOf::Draw {
                    vertex_count: 6,
                    instance_count: count,
                    first_vertex: 0,
                    first_instance: 0,
                },
            );
        }
        commands.push(CommandOf::EndRenderPass);
        assert(command::command_views(commands@) =~= draw_commands(
            self@,
            current as int,
            index as int,
            clear,
            count,
        ));
        commands
    }

    /// How a frame is submitted.
    pub fn present_submit(&self, current: usize) -> (r: FrameSubmit)
        requires
            self@.wf(),
            current < self@.swapchain.frames_in_flight,
        ensures
            r == (FrameSubmit {
                wait_semaphore: self@.swapchain.image_available[current as int],
                wait_stage: vk::PIPELINE_STAGE_COLOR_ATTACHMENT_OUTPUT,
                signal_semaphore: self@.swapchain.render_finished[current as int],
                fence: self@.swapchain.in_flight[current as int],
            }),
            r == swapchain::submitted_by(self@.swapchain, current),
    {
        self.swapchain.submit_info(current)
    }

    /// Outcome of submitting a frame: how it is presented.
    pub fn present_submitted(&self, current: usize, index: u32, result: Result<(), i32>) -> (r:
        Result<FramePresent, GpuError>)
        requires
            self@.wf(),
            current < self@.swapchain.frames_in_flight,
        ensures
            match (result, r) {
                (Ok(_), Ok(p)) => p == (FramePresent {
                    wait_semaphore: self@.swapchain.render_finished[current as int],
                    swapchain: self@.swapchain.swapchain,
                    index,
                }),
                (Err(code), Err(e)) => e@ == error::backend_failure(
                    calls::call_text(VkCall::QueueSubmit),
                    code,
                ),
                _ => false,
            },
            r matches Ok(p) ==> p == swapchain::presented_by(self@.swapchain, current, index),
    {
        match call_result(VkCall::QueueSubmit, result) {
            Ok(_) => self.swapchain.frame_submitted(current, index, Ok(())),
            Err(e) => Err(e),
        }
    }

    /// Outcome of presenting a frame. Once it is presented, the next frame in flight is current.
    /// After a resize or a surface loss the swapchain is rebuilt first.
    pub fn present_done(&mut self, current: usize, result: Result<(), i32>) -> (r: Result<
        PresentStep,
        GpuError,
    >)
        requires
            old(self)@.wf(),
            current < old(self)@.swapchain.frames_in_flight,
        ensures
            final(self)@.wf(),
            match (result, r) {
                (Ok(_), Ok(step)) => step == PresentStep::Done && final(self)@ == presented_2d(
                    old(self)@,
                    current,
                ),
                (Err(code), Ok(step)) => needs_rebuild(code) && step
                    == (PresentStep::Recreate {
                    width: old(self)@.swapchain.extent.width,
                    height: old(self)@.swapchain.extent.height,
                }) && final(self)@ == old(self)@,
                (Err(code), Err(e)) => !needs_rebuild(code) && e@
                    == GpuErrorView::Surface(quads::quad_surface_error(code)) && final(self)@
                    == old(self)@,
                _ => false,
            },
    {
        match result {
            Ok(_) => self.swapchain.frame_presented(current, Ok(())),
            Err(code) => if is_stale(code) {
                self.swapchain.frame_presented(current, Err(vk::ERROR_OUT_OF_DATE_KHR))
            } else {
                Err(map_quad_surface_err(code))
            },
        }
    }

    /// The swapchain was rebuilt after frame `current` was presented.
    pub fn present_rebuilt(&mut self, current: usize)
        requires
            old(self)@.wf(),
            current < old(self)@.swapchain.frames_in_flight,
        ensures
            final(self)@.wf(),
            final(self)@ == presented_2d(old(self)@, current),
    {
        self.swapchain.frame_rebuilt(current);
    }

    /// Destruction of everything that the surface holds, once the device is idle.
    pub fn destroy(self) -> (steps: Vec<Cleanup>)
        requires
            self@.wf(),
        ensures
            steps@ == surface_cleanup(self@),
    {
        let mut steps: Vec<Cleanup> = Vec::new();
        let n: usize = self.instance_buffers.len();
        let mut i: usize = 0;
        while i < n
            invariant
                n == self.instance_buffers.len(),
                i <= n,
                steps@ == instances_cleanup(self.instance_buffers@, i as int),
            decreases n - i,
        {
            let mut more = self.instance_buffers[i].destroy();
            steps.append(&mut more);
            i += 1;
        }
        let mut images = self.retire();
        steps.append(&mut images);
        self.swapchain.push_free_commands(&mut steps);
        steps.push(Cleanup::DestroyPipeline(self.pipeline));
        steps.push(Cleanup::DestroyPipelineLayout(self.pipeline_layout));
        steps.push(Cleanup::DestroyRenderPass(self.render_pass));
        steps.push(Cleanup::DestroyCommandPool(self.swapchain.cmd_pool()));
        self.swapchain.push_sync(&mut steps);
        steps.push(Cleanup::DestroySurface(self.swapchain.surface()));
        assert(steps@ =~= surface_cleanup(self@));
        steps
    }
}

/// Surface after frame `current` was presented.
pub open spec fn presented_2d(s: Surface2dView, current: usize) -> Surface2dView {
    Surface2dView { swapchain: swapchain::advanced(s.swapchain, current), ..s }
}

// ── Laws ───────────────────────────────────────────────────────────────────────

/// A frame begins one render pass on the framebuffer of its image, over all of the surface, and
/// ends it. It clears to the color that is given, or else to opaque black. Rectangles are drawn
/// in that pass, and only where there are any: two triangles for each, from the first on, out
/// of the instance buffer of the frame. The extent that the vertex shader sees has the width and
/// height of the surface, and so have the render area and the viewport, so that a position in
/// pixels lands on that pixel and a rectangle of the size of the surface covers the image
/// exactly.
pub proof fn rectangles_are_drawn_in_pixels(
    s: Surface2dView,
    current: int,
    index: int,
    clear: Option<ClearValue>,
    count: u32,
)
    ensures
        ({
            let done = canvas::painted(draw_commands(s, current, index, clear, count));
            let extent = s.swapchain.extent;
            &&& done.passes.len() == 1
            &&& done.passes[0].render_pass == s.render_pass
            &&& done.passes[0].framebuffer == s.framebuffers[index]
            &&& done.passes[0].area.width == extent.width
            &&& done.passes[0].area.height == extent.height
            &&& clear matches Some(color) ==> done.passes[0].clear == color
            &&& clear is None ==> {
                let color = done.passes[0].clear;
                color.r == 0 && color.g == 0 && color.b == 0 && color.a == 0x3f80_0000
            }
            &&& done.ended == 1
            &&& done.bound.pass is None
            &&& done.drawn.len() == if count > 0 {
                1nat
            } else {
                0nat
            }
            &&& count > 0 ==> {
                let d = done.drawn[0];
                &&& d.pass == Some(done.passes[0])
                &&& d.pipeline == Some(s.pipeline)
                &&& d.extent_layout == Some(s.pipeline_layout)
                &&& d.stream == Some(s.instance_buffers[current].buffer)
                &&& d.vertices == (0u32, 6u32)
                &&& d.instances == (0u32, count)
                &&& d.vertex_extent matches Some(seen) && seen.width == extent.width && seen.height
                    == extent.height
                &&& d.viewport == d.vertex_extent
                &&& d.viewport == Some(done.passes[0].area)
                &&& forall|x: int|
                    extent.width > 0 ==> #[trigger] canvas::lands_at(
                        x,
                        d.vertex_extent->0.width,
                        d.viewport->0.width,
                    ) == x
                &&& forall|y: int|
                    extent.height > 0 ==> #[trigger] canvas::lands_at(
                        y,
                        d.vertex_extent->0.height,
                        d.viewport->0.height,
                    ) == y
            }
        }),
{
    let commands = draw_commands(s, current, index, clear, count);
    let extent = s.swapchain.extent;
    reveal_with_fuel(canvas::painted_up_to, 8);
    assert(commands.len() == if count > 0 {
        7nat
    } else {
        4nat
    });
    assert forall|x: int| extent.width > 0 implies #[trigger] canvas::lands_at(
        x,
        extent.width,
        extent.width,
    ) == x by {
        canvas::pixels_land_on_themselves(x, extent.width);
    }
    assert forall|y: int| extent.height > 0 implies #[trigger] canvas::lands_at(
        y,
        extent.height,
        extent.height,
    ) == y by {
        canvas::pixels_land_on_themselves(y, extent.height);
    }
}

/// An instance holds left, top, width and height of its rectangle, then red, green, blue and
/// alpha of its color, four bytes each; rectangle `i` begins at byte `32 * i`, and nothing
/// follows the last.
pub proof fn instances_are_spelled(order: ByteOrder, rects: Seq<RectInstance>, i: int, j: int)
    requires
        0 <= i < rects.len(),
        0 <= j < 4,
    ensures
        instance_bytes(order, rects).len() == 32 * rects.len(),
        constants::spells(
            order,
            instance_bytes(order, rects),
            8 * i + j,
            rects[i].rect@[j] as int,
        ),
        constants::spells(
            order,
            instance_bytes(order, rects),
            8 * i + 4 + j,
            rects[i].color@[j] as int,
        ),
{
    let n = rects.len() as int;
    let words = instance_words(rects, n);
    lemma_instance_words(rects, n, i);
    constants::words_are_spelled(order, words, 8 * i + j);
    constants::words_are_spelled(order, words, 8 * i + 4 + j);
    let own = words.subrange(8 * i, 8 * i + 8);
    assert(own[j] == words[8 * i + j]);
    assert(own[4 + j] == words[8 * i + 4 + j]);
}

/// A capacity grows by doubling only, and no further than it must.
pub proof fn growth_doubles(capacity: int, needed: int)
    requires
        capacity >= 1,
    ensures
        capacity >= needed ==> doubled(capacity, needed) == capacity,
        capacity < needed ==> doubled(capacity, needed) % 2 == 0 && doubled(capacity, needed) / 2
            < needed,
        exists|k: nat|
            doubled(capacity, needed) == capacity * #[trigger] vstd::arithmetic::power2::pow2(k),
    decreases 2 * needed - capacity,
{
    vstd::arithmetic::power2::lemma2_to64();
    if capacity < needed {
        growth_doubles(2 * capacity, needed);
        let k = choose|k: nat|
            doubled(2 * capacity, needed) == (2 * capacity)
                * #[trigger] vstd::arithmetic::power2::pow2(k);
        vstd::arithmetic::power2::lemma_pow2_unfold(k + 1);
        let p = vstd::arithmetic::power2::pow2(k) as int;
        assert((2 * capacity) * p == capacity * (2 * p)) by (nonlinear_arith);
        assert(doubled(capacity, needed) == capacity * vstd::arithmetic::power2::pow2(k + 1));
    } else {
        assert(doubled(capacity, needed) == capacity * vstd::arithmetic::power2::pow2(0));
    }
}

/// A swapchain is rebuilt exactly where the surface is out of date or was lost.
pub proof fn stale_surfaces_are_rebuilt(code: i32)
    ensures
        needs_rebuild(code) <==> code == vk::ERROR_OUT_OF_DATE_KHR || code
            == vk::ERROR_SURFACE_LOST_KHR,
{
}

/// Colors are not premultiplied: they are weighted by their own opacity, over what is there
/// weighted by the rest. The opacity itself adds up in the same way, unweighted.
pub proof fn colors_are_weighted_by_opacity()
    ensures
        ({
            let b = straight_alpha();
            &&& b.blend_enable
            &&& b.src_color_blend_factor == vk::BLEND_FACTOR_SRC_ALPHA
            &&& b.dst_color_blend_factor == vk::BLEND_FACTOR_ONE_MINUS_SRC_ALPHA
            &&& b.color_blend_op == vk::BLEND_OP_ADD
            &&& b.src_alpha_blend_factor == vk::BLEND_FACTOR_ONE
            &&& b.dst_alpha_blend_factor == vk::BLEND_FACTOR_ONE_MINUS_SRC_ALPHA
            &&& b.alpha_blend_op == vk::BLEND_OP_ADD
            &&& b.color_write_mask == vk::COLOR_COMPONENT_RGBA
        }),
{
}

/// After a frame comes the next one in flight, or the first after the last. Nothing else changes.
pub proof fn next_frame_follows(s: Surface2dView, current: usize)
    requires
        s.wf(),
        current < s.swapchain.frames_in_flight,
    ensures
        ({
            let n = presented_2d(s, current);
            &&& current + 1 < s.swapchain.frames_in_flight ==> n.swapchain.current == current + 1
            &&& current + 1 == s.swapchain.frames_in_flight ==> n.swapchain.current == 0
            &&& n.swapchain == (SwapchainView { current: n.swapchain.current, ..s.swapchain })
            &&& n == (Surface2dView { swapchain: n.swapchain, ..s })
        }),
{
    swapchain::frames_follow_each_other(s.swapchain, current);
}

proof fn lemma_instances_cleanup(list: Seq<InstanceBuffer>, k: int, i: int)
    requires
        0 <= k,
    ensures
        instances_cleanup(list, k).len() == 3 * k,
        0 <= i < k ==> {
            let steps = instances_cleanup(list, k);
            &&& steps[3 * i] == Cleanup::UnmapMemory(list[i].memory)
            &&& steps[3 * i + 1] == Cleanup::DestroyBuffer(list[i].buffer)
            &&& steps[3 * i + 2] == Cleanup::FreeMemory(list[i].memory)
        },
    decreases k,
{
    if k > 0 {
        lemma_instances_cleanup(list, k - 1, i);
    }
}

/// Destroying a surface destroys all that it holds and nothing else, each thing before what it
/// depends on: the instance buffers, unmapped first, the framebuffers before the views, these
/// before the swapchain, the command buffers before their pool, and the surface last.
pub proof fn surface_goes_whole(s: Surface2dView, f: int, i: int, j: int)
    requires
        s.wf(),
        0 <= f < s.swapchain.frames_in_flight,
    ensures
        ({
            let steps = surface_cleanup(s);
            let frames = s.swapchain.frames_in_flight as int;
            let images = 3 * frames;
            let views = images + s.framebuffers.len();
            let cmds = views + s.swapchain.image_views.len() + 1;
            let sync = cmds + frames + 4;
            &&& steps.len() == sync + 3 * frames + 1
            &&& steps[3 * f] == Cleanup::UnmapMemory(s.instance_buffers[f].memory)
            &&& steps[3 * f + 1] == Cleanup::DestroyBuffer(s.instance_buffers[f].buffer)
            &&& steps[3 * f + 2] == Cleanup::FreeMemory(s.instance_buffers[f].memory)
            &&& 0 <= i < s.framebuffers.len() ==> steps[images + i] == Cleanup::DestroyFramebuffer(
                s.framebuffers[i],
            )
            &&& 0 <= j < s.swapchain.image_views.len() ==> steps[views + j]
                == Cleanup::DestroyImageView(s.swapchain.image_views[j])
            &&& steps[cmds - 1] == Cleanup::DestroySwapchain(s.swapchain.swapchain)
            &&& steps[cmds + f] == (Cleanup::FreeCommandBuffer {
                pool: s.swapchain.cmd_pool,
                cmd: s.swapchain.cmd_buffers[f],
            })
            &&& steps[sync - 4] == Cleanup::DestroyPipeline(s.pipeline)
            &&& steps[sync - 3] == Cleanup::DestroyPipelineLayout(s.pipeline_layout)
            &&& steps[sync - 2] == Cleanup::DestroyRenderPass(s.render_pass)
            &&& steps[sync - 1] == Cleanup::DestroyCommandPool(s.swapchain.cmd_pool)
            &&& steps[sync + 3 * f] == Cleanup::DestroySemaphore(s.swapchain.image_available[f])
            &&& steps[sync + 3 * f + 1] == Cleanup::DestroySemaphore(
                s.swapchain.render_finished[f],
            )
            &&& steps[sync + 3 * f + 2] == Cleanup::DestroyFence(s.swapchain.in_flight[f])
            &&& steps.last() == Cleanup::DestroySurface(s.swapchain.surface)
        }),
{
    let frames = s.swapchain.frames_in_flight as int;
    lemma_instances_cleanup(s.instance_buffers, frames, f);
    swapchain::lemma_sync_cleanup(s.swapchain, frames, f);
    let sync = swapchain::sync_cleanup(s.swapchain, frames);
    let buffers = instances_cleanup(s.instance_buffers, frames);
    let at = 3 * frames + s.framebuffers.len() + s.swapchain.image_views.len() + 1 + frames + 4;
    assert(surface_cleanup(s)[3 * f] == buffers[3 * f]);
    assert(surface_cleanup(s)[3 * f + 1] == buffers[3 * f + 1]);
    assert(surface_cleanup(s)[3 * f + 2] == buffers[3 * f + 2]);
    assert(surface_cleanup(s)[at + 3 * f] == sync[3 * f]);
    assert(surface_cleanup(s)[at + 3 * f + 1] == sync[3 * f + 1]);
    assert(surface_cleanup(s)[at + 3 * f + 2] == sync[3 * f + 2]);
}

/// A capacity counts as it is, but for none at all, which counts as one.
pub proof fn capacity_is_at_least_one(n: usize)
    ensures
        n > 0 ==> nonzero(n) == n,
        n == 0 ==> nonzero(n) == 1,
{
}

} // verus!
