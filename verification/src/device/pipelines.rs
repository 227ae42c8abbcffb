//! Shaders, compute pipelines and graphics pipelines.
use vstd::prelude::*;
use vstd::string::StringExecFns;

use crate::command::Cleanup;
use crate::device::buffers::{unwind_one, Unwind, UnwindView};
use crate::device::constants;
use crate::device::constants::ByteOrder;
use crate::device::formats;
use crate::device::formats::BlendAttachment;
use crate::device::lifetime;
use crate::device::{
    DeviceView, PipelineHandle, ShaderHandle, VulkanDevice, VulkanPipeline,
    COMPUTE_PUSH_CONSTANT_BYTES,
};
use crate::error;
use crate::error::{vk_failure, GpuError, GpuErrorView};
use crate::hal::{
    BlendMode, CompareFn, CullMode, Format, FrontFace, PolygonMode, PrimitiveTopology, StepMode,
    VertexFormat,
};
use crate::search;
use crate::text;
use crate::vk;

verus! {

/// Bytes of push constants that a graphics pipeline declares: scalars, buffer indices and
/// texture indices.
pub const GRAPHICS_PUSH_CONSTANT_BYTES: u32 = 256;

// ── Shaders ────────────────────────────────────────────────────────────────────

/// Source of a shader. Only SPIR-V is accepted.
pub enum ShaderSource {
    Spirv(Vec<u8>),
    Other,
}

/// Words of a byte string, four bytes each.
pub open spec fn spirv_words(order: ByteOrder, bytes: Seq<u8>) -> Seq<u32> {
    Seq::new(
        bytes.len() / 4,
        |i: int| constants::bytes_word(order, bytes.subrange(4 * i, 4 * i + 4)),
    )
}

/// What is wrong with a shader source.
pub open spec fn shader_fault(source: ShaderSource) -> Option<GpuErrorView> {
    match source {
        ShaderSource::Other => Some(
            GpuErrorView::ShaderCompile("vulkan backend only accepts SPIR-V shaders"@),
        ),
        ShaderSource::Spirv(bytes) => if bytes@.len() % 4 != 0 {
            Some(GpuErrorView::ShaderCompile("SPIR-V byte length must be a multiple of 4"@))
        } else {
            None
        },
    }
}

fn word_at(bytes: &Vec<u8>, at: usize, order: ByteOrder) -> (w: u32)
    requires
        at + 4 <= bytes.len(),
    ensures
        w == constants::bytes_word(order, bytes@.subrange(at as int, at + 4)),
{
    let b0: u32 = bytes[at] as u32;
    let b1: u32 = bytes[at + 1] as u32;
    let b2: u32 = bytes[at + 2] as u32;
    let b3: u32 = bytes[at + 3] as u32;
    match order {
        ByteOrder::Little => b0 + b1 * 0x100 + b2 * 0x1_0000 + b3 * 0x100_0000,
        ByteOrder::Big => b3 + b2 * 0x100 + b1 * 0x1_0000 + b0 * 0x100_0000,
    }
}

/// Checks a shader source and reads its words. The shader module is then created from them.
pub fn create_shader(source: &ShaderSource, order: ByteOrder) -> (r: Result<Vec<u32>, GpuError>)
    ensures
        match r {
            Ok(words) => shader_fault(*source) is None && (*source matches ShaderSource::Spirv(
                bytes,
            ) && words@ == spirv_words(order, bytes@)),
            Err(e) => shader_fault(*source) == Some(e@),
        },
{
    match source {
        ShaderSource::Other => Err(
            GpuError::ShaderCompile("vulkan backend only accepts SPIR-V shaders".to_owned()),
        ),
        ShaderSource::Spirv(bytes) => {
            if bytes.len() % 4 != 0 {
                return Err(
                    GpuError::ShaderCompile(
                        "SPIR-V byte length must be a multiple of 4".to_owned(),
                    ),
                );
            }
            let size: usize = bytes.len();
            let n: usize = size / 4;
            let mut words: Vec<u32> = Vec::new();
            let mut i: usize = 0;
            while i < n
                invariant
                    size == bytes@.len(),
                    n == size / 4,
                    i <= n,
                    words@.len() == i,
                    forall|j: int|
                        0 <= j < i ==> #[trigger] words@[j] == constants::bytes_word(
                            order,
                            bytes@.subrange(4 * j, 4 * j + 4),
                        ),
                decreases n - i,
            {
                words.push(word_at(bytes, 4 * i, order));
                i += 1;
            }
            assert(words@ =~= spirv_words(order, bytes@));
            Ok(words)
        },
    }
}

/// A shader whose bytes were packed from words is read back as those words.
pub proof fn shader_words_round_trip(order: ByteOrder, words: Seq<u32>)
    ensures
        spirv_words(order, constants::words_bytes(order, words)) == words,
{
    constants::words_bytes_len(order, words);
    assert forall|i: int| 0 <= i < words.len() implies #[trigger] spirv_words(
        order,
        constants::words_bytes(order, words),
    )[i] == words[i] by {
        constants::words_round_trip(order, words, i);
    }
    assert(spirv_words(order, constants::words_bytes(order, words)) =~= words);
}

/// Outcome of creating a shader module.
pub fn shader_created(result: Result<u64, i32>) -> (r: Result<u64, GpuError>)
    ensures
        match (result, r) {
            (Ok(m), Ok(module)) => module == m,
            (Err(code), Err(e)) => e@ == GpuErrorView::ShaderCompile(
                error::failed_call_text("vkCreateShaderModule"@, error::vk_result_text(code)),
            ),
            _ => false,
        },
{
    match result {
        Ok(module) => Ok(module),
        Err(code) => Err(GpuError::ShaderCompile(vk_failure("vkCreateShaderModule", code))),
    }
}

// ── Pipelines ──────────────────────────────────────────────────────────────────

/// Failed pipeline call `op`.
pub open spec fn pipeline_failure(op: Seq<char>, code: i32) -> GpuErrorView {
    GpuErrorView::PipelineCreation(error::failed_call_text(op, error::vk_result_text(code)))
}

/// Push constants that a pipeline declares, from offset zero.
#[derive(Clone, Copy, PartialEq, Eq, Structural, Debug)]
pub struct PushRange {
    pub stages: u32,
    pub size: u32,
}

/// What a compute pipeline and its layout are created with.
#[derive(Clone, Copy, PartialEq, Eq, Structural, Debug)]
pub struct ComputePipelinePlan {
    pub module: u64,
    pub set_layout: u64,
    pub push_constants: PushRange,
    pub cache: u64,
}

/// Compute pipeline from the module of a live shader. It sees the bindless tables.
pub open spec fn compute_pipeline(v: DeviceView, shader: ShaderHandle) -> ComputePipelinePlan {
    ComputePipelinePlan {
        module: v.shaders.value(shader),
        set_layout: v.bindless.layout,
        push_constants: PushRange {
            stages: vk::SHADER_STAGE_COMPUTE,
            size: COMPUTE_PUSH_CONSTANT_BYTES as u32,
        },
        cache: v.info.pipeline_cache,
    }
}

/// Outcome of creating a pipeline layout.
pub fn pipeline_layout_created(result: Result<u64, i32>) -> (r: Result<u64, GpuError>)
    ensures
        match (result, r) {
            (Ok(l), Ok(layout)) => layout == l,
            (Err(code), Err(e)) => e@ == pipeline_failure("vkCreatePipelineLayout"@, code),
            _ => false,
        },
{
    match result {
        Ok(layout) => Ok(layout),
        Err(code) => Err(GpuError::PipelineCreation(vk_failure("vkCreatePipelineLayout", code))),
    }
}

/// Position of the first zero byte.
pub open spec fn first_zero(bytes: Seq<u8>) -> Option<int> {
    search::first_below(|i: int| bytes[i] == 0, bytes.len() as int)
}

pub open spec fn entry_text(position: int) -> Seq<char> {
    "entry name nul: nul byte found in provided data at position: "@ + text::decimal_text(
        position as nat,
    )
}

/// Name of a shader's entry point as a C string: it ends in a zero byte and holds no other.
pub fn entry_name(name: &[u8]) -> (r: Result<Vec<u8>, GpuError>)
    ensures
        match r {
            Ok(c) => first_zero(name@) is None && c@ == name@.push(0),
            Err(e) => first_zero(name@) is Some && e@ == GpuErrorView::PipelineCreation(
                entry_text(first_zero(name@)->0),
            ),
        },
{
    let ghost f = |i: int| name@[i] == 0;
    let n: usize = name.len();
    let mut out: Vec<u8> = Vec::new();
    let mut i: usize = 0;
    while i < n
        invariant
            n == name@.len(),
            i <= n,
            f == (|i: int| name@[i] == 0),
            forall|j: int| 0 <= j < i ==> !#[trigger] f(j),
            out@ == name@.take(i as int),
        decreases n - i,
    {
        if name[i] == 0 {
            proof {
                search::lemma_is_first(f, n as int, i as int);
            }
            let mut message =
                "entry name nul: nul byte found in provided data at position: ".to_owned();
            message.append(text::decimal(i as u64).as_str());
            return Err(GpuError::PipelineCreation(message));
        }
        assert(!f(i as int));
        out.push(name[i]);
        i += 1;
        assert(out@ =~= name@.take(i as int));
    }
    proof {
        search::lemma_none_below(f, n as int);
    }
    assert(name@.take(n as int) =~= name@);
    out.push(0);
    Ok(out)
}

/// One attribute of a vertex stream.
#[derive(Clone, Copy, PartialEq, Eq, Structural, Debug)]
pub struct VertexAttribute {
    pub location: u32,
    pub format: VertexFormat,
    pub offset: u32,
}

/// One vertex stream.
pub struct VertexLayout {
    pub stride: u32,
    pub step_mode: StepMode,
    pub attributes: Vec<VertexAttribute>,
}

/// Mathematical form of a [`VertexLayout`].
pub struct VertexLayoutView {
    pub stride: u32,
    pub step_mode: StepMode,
    pub attributes: Seq<VertexAttribute>,
}

impl View for VertexLayout {
    type V = VertexLayoutView;

    open spec fn view(&self) -> VertexLayoutView {
        VertexLayoutView {
            stride: self.stride,
            step_mode: self.step_mode,
            attributes: self.attributes@,
        }
    }
}

/// Fixed state of a graphics pipeline.
#[derive(Clone, Copy, PartialEq, Eq, Structural, Debug)]
pub struct GraphicsState {
    pub topology: PrimitiveTopology,
    pub polygon: PolygonMode,
    pub cull: CullMode,
    pub front_face: FrontFace,
    pub samples: u32,
    pub depth_test: bool,
    pub depth_write: bool,
    pub depth_compare: CompareFn,
    pub blend: BlendMode,
    pub color_format: Format,
    pub depth_format: Option<Format>,
}

/// Description of a graphics pipeline.
pub struct GraphicsPipelineDesc {
    pub vertex_shader: ShaderHandle,
    pub fragment_shader: ShaderHandle,
    pub vertex_layouts: Vec<VertexLayout>,
    pub state: GraphicsState,
}

/// Vertex stream of a pipeline.
#[derive(Clone, Copy, PartialEq, Eq, Structural, Debug)]
pub struct VertexBinding {
    pub binding: u32,
    pub stride: u32,
    pub input_rate: i32,
}

/// Vertex attribute of a pipeline.
#[derive(Clone, Copy, PartialEq, Eq, Structural, Debug)]
pub struct BoundAttribute {
    pub location: u32,
    pub binding: u32,
    pub format: i32,
    pub offset: u32,
}

/// Fixed state of a graphics pipeline in Vulkan's terms. Viewport and scissor are dynamic.
#[derive(Clone, Copy, PartialEq, Eq, Structural, Debug)]
pub struct VulkanGraphicsState {
    pub topology: i32,
    pub polygon_mode: i32,
    pub cull_mode: u32,
    pub front_face: i32,
    pub samples: u32,
    pub depth_test: bool,
    pub depth_write: bool,
    pub depth_compare_op: i32,
    pub blend: BlendAttachment,
    pub color_format: i32,
    pub depth_format: i32,
    pub push_constants: PushRange,
}

/// What a graphics pipeline and its layout are created with.
pub struct GraphicsPipelinePlan {
    pub vertex_module: u64,
    pub fragment_module: u64,
    pub bindings: Vec<VertexBinding>,
    pub attributes: Vec<BoundAttribute>,
    pub state: VulkanGraphicsState,
    pub set_layout: u64,
    pub cache: u64,
}

/// Vertex layouts in their mathematical form.
pub open spec fn layout_views(layouts: Seq<VertexLayout>) -> Seq<VertexLayoutView> {
    layouts.map_values(|l: VertexLayout| l@)
}

/// One stream per layout, numbered by position. The number is the slot that vertex buffers are
/// bound to.
pub open spec fn vertex_bindings(layouts: Seq<VertexLayoutView>) -> Seq<VertexBinding> {
    Seq::new(
        layouts.len(),
        |i: int|
            VertexBinding {
                binding: i as u32,
                stride: layouts[i].stride,
                input_rate: formats::vk_step_mode(layouts[i].step_mode),
            },
    )
}

/// Attributes of the layout at position `i`. They carry its number.
pub open spec fn layout_attributes(layout: VertexLayoutView, i: int) -> Seq<BoundAttribute> {
    Seq::new(
        layout.attributes.len(),
        |j: int|
            BoundAttribute {
                location: layout.attributes[j].location,
                binding: i as u32,
                format: formats::vk_vertex_format(layout.attributes[j].format),
                offset: layout.attributes[j].offset,
            },
    )
}

/// Attributes of the first `k` layouts, in order.
pub open spec fn bound_attributes(layouts: Seq<VertexLayoutView>, k: int) -> Seq<BoundAttribute>
    decreases k,
{
    if k <= 0 {
        Seq::empty()
    } else {
        bound_attributes(layouts, k - 1) + layout_attributes(layouts[k - 1], k - 1)
    }
}

/// Fixed state in Vulkan's terms.
pub open spec fn vulkan_state(s: GraphicsState) -> VulkanGraphicsState {
    VulkanGraphicsState {
        topology: formats::vk_topology(s.topology),
        polygon_mode: formats::vk_polygon_mode(s.polygon),
        cull_mode: formats::vk_cull_mode(s.cull),
        front_face: formats::vk_front_face(s.front_face),
        samples: formats::vk_sample_count(s.samples),
        depth_test: s.depth_test,
        depth_write: s.depth_write,
        depth_compare_op: formats::vk_compare_fn(s.depth_compare),
        blend: formats::vk_blend_mode(s.blend),
        color_format: formats::vk_hal_format(s.color_format),
        depth_format: match s.depth_format {
            Some(f) => formats::vk_hal_format(f),
            None => vk::FORMAT_UNDEFINED,
        },
        push_constants: PushRange {
            stages: vk::SHADER_STAGE_VERTEX | vk::SHADER_STAGE_FRAGMENT,
            size: GRAPHICS_PUSH_CONSTANT_BYTES,
        },
    }
}

/// What is wrong with a graphics pipeline description.
pub open spec fn graphics_fault(v: DeviceView, desc: GraphicsPipelineDesc) -> Option<GpuErrorView> {
    if desc.state.polygon != PolygonMode::Fill && !v.info.fill_mode_non_solid {
        Some(
            GpuErrorView::PipelineCreation(
                "PolygonMode::Line/Point requires fillModeNonSolid, which this device does not support"@,
            ),
        )
    } else if !v.shaders.live(desc.vertex_shader) {
        Some(GpuErrorView::PipelineCreation("stale vertex shader handle"@))
    } else if !v.shaders.live(desc.fragment_shader) {
        Some(GpuErrorView::PipelineCreation("stale fragment shader handle"@))
    } else {
        None
    }
}

fn convert_state(s: &GraphicsState) -> (r: VulkanGraphicsState)
    ensures
        r == vulkan_state(*s),
{
    VulkanGraphicsState {
        topology: formats::topology_to_vk(s.topology),
        polygon_mode: formats::polygon_mode_to_vk(s.polygon),
        cull_mode: formats::cull_mode_to_vk(s.cull),
        front_face: formats::front_face_to_vk(s.front_face),
        samples: formats::sample_count_to_vk(s.samples),
        depth_test: s.depth_test,
        depth_write: s.depth_write,
        depth_compare_op: formats::compare_fn_to_vk(s.depth_compare),
        blend: formats::blend_mode_to_vk(s.blend),
        color_format: formats::hal_format_to_vk(s.color_format),
        depth_format: match s.depth_format {
            Some(f) => formats::hal_format_to_vk(f),
            None => vk::FORMAT_UNDEFINED,
        },
        push_constants: PushRange {
            stages: vk::SHADER_STAGE_VERTEX | vk::SHADER_STAGE_FRAGMENT,
            size: GRAPHICS_PUSH_CONSTANT_BYTES,
        },
    }
}

/// Streams and attributes of vertex layouts.
fn convert_layouts(layouts: &Vec<VertexLayout>) -> (r: (Vec<VertexBinding>, Vec<BoundAttribute>))
    requires
        layouts.len() <= u32::MAX,
    ensures
        r.0@ == vertex_bindings(layout_views(layouts@)),
        r.1@ == bound_attributes(layout_views(layouts@), layouts.len() as int),
{
    let ghost views = layout_views(layouts@);
    let mut bindings: Vec<VertexBinding> = Vec::new();
    let mut attributes: Vec<BoundAttribute> = Vec::new();
    let n: usize = layouts.len();
    let mut i: usize = 0;
    while i < n
        invariant
            n == layouts.len(),
            n <= u32::MAX,
            i <= n,
            views == layout_views(layouts@),
            bindings@ == vertex_bindings(views).take(i as int),
            attributes@ == bound_attributes(views, i as int),
        decreases n - i,
    {
        let layout = &layouts[i];
        assert(views[i as int] == layout@);
        bindings.push(
            VertexBinding {
                binding: i as u32,
                stride: layout.stride,
                input_rate: formats::step_mode_to_vk(layout.step_mode),
            },
        );
        assert(bindings@ =~= vertex_bindings(views).take(i + 1));
        let ghost before = attributes@;
        let m: usize = layout.attributes.len();
        let mut j: usize = 0;
        assert(attributes@ =~= before + layout_attributes(layout@, i as int).take(0));
        while j < m
            invariant
                m == layout.attributes.len(),
                j <= m,
                i < n,
                n <= u32::MAX,
                attributes@ == before + layout_attributes(layout@, i as int).take(j as int),
            decreases m - j,
        {
            let a = layout.attributes[j];
            attributes.push(
                BoundAttribute {
                    location: a.location,
                    binding: i as u32,
                    format: formats::vertex_format_to_vk(a.format),
                    offset: a.offset,
                },
            );
            j += 1;
            assert(attributes@ =~= before + layout_attributes(layout@, i as int).take(j as int));
        }
        assert(layout_attributes(layout@, i as int).take(m as int) =~= layout_attributes(
            layout@,
            i as int,
        ));
        i += 1;
    }
    assert(vertex_bindings(views).take(n as int) =~= vertex_bindings(views));
    (bindings, attributes)
}

impl VulkanDevice {
    /// Enters a new shader module.
    pub fn insert_shader(&mut self, module: u64) -> (h: ShaderHandle)
        requires
            old(self)@.wf(),
            old(self)@.shaders.has_room(),
        ensures
            final(self)@.wf(),
            final(self)@ == (DeviceView {
                shaders: old(self)@.shaders.insert(module),
                ..old(self)@
            }),
            h.slot() == old(self)@.shaders.next_index(),
            h.gen() == old(self)@.shaders.next_generation(),
    {
        let ghost v = self@;
        let h = self.shaders.insert(module);
        proof {
            assert(self@ =~= DeviceView { shaders: v.shaders.insert(module), ..v });
            lifetime::lemma_same_tables_wf(v, self@);
        }
        h
    }

    /// Checks the shader of a compute pipeline and says what the pipeline is created with.
    pub fn create_compute_pipeline(&self, shader: ShaderHandle) -> (r: Result<
        ComputePipelinePlan,
        GpuError,
    >)
        ensures
            match r {
                Ok(plan) => self@.shaders.live(shader) && plan == compute_pipeline(self@, shader),
                Err(e) => !self@.shaders.live(shader) && e@ == GpuErrorView::PipelineCreation(
                    "stale shader handle"@,
                ),
            },
    {
        match self.shaders.get(shader) {
            Some(module) => Ok(
                ComputePipelinePlan {
                    module,
                    set_layout: self.bindless.layout,
                    push_constants: PushRange {
                        stages: vk::SHADER_STAGE_COMPUTE,
                        size: COMPUTE_PUSH_CONSTANT_BYTES as u32,
                    },
                    cache: self.info.pipeline_cache,
                },
            ),
            None => Err(GpuError::PipelineCreation("stale shader handle".to_owned())),
        }
    }

    /// Checks a graphics pipeline description and says what the pipeline is created with.
    pub fn create_graphics_pipeline(&self, desc: &GraphicsPipelineDesc) -> (r: Result<
        GraphicsPipelinePlan,
        GpuError,
    >)
        requires
            desc.vertex_layouts.len() <= u32::MAX,
        ensures
            match r {
                Ok(plan) => graphics_fault(self@, *desc) is None && plan.vertex_module
                    == self@.shaders.value(desc.vertex_shader) && plan.fragment_module
                    == self@.shaders.value(desc.fragment_shader) && plan.bindings@
                    == vertex_bindings(layout_views(desc.vertex_layouts@)) && plan.attributes@
                    == bound_attributes(
                    layout_views(desc.vertex_layouts@),
                    desc.vertex_layouts.len() as int,
                ) && plan.state == vulkan_state(desc.state) && plan.set_layout
                    == self@.bindless.layout && plan.cache == self@.info.pipeline_cache,
                Err(e) => graphics_fault(self@, *desc) == Some(e@),
            },
    {
        let fill = matches!(desc.state.polygon, PolygonMode::Fill);
        if !fill && !self.info.fill_mode_non_solid {
            return Err(
                GpuError::PipelineCreation(
                    "PolygonMode::Line/Point requires fillModeNonSolid, which this device does not support".to_owned(),
                ),
            );
        }
        let vertex_module: u64 = match self.shaders.get(desc.vertex_shader) {
            Some(module) => module,
            None => {
                return Err(GpuError::PipelineCreation("stale vertex shader handle".to_owned()));
            },
        };
        let fragment_module: u64 = match self.shaders.get(desc.fragment_shader) {
            Some(module) => module,
            None => {
                return Err(GpuError::PipelineCreation("stale fragment shader handle".to_owned()));
            },
        };
        let (bindings, attributes) = convert_layouts(&desc.vertex_layouts);
        Ok(
            GraphicsPipelinePlan {
                vertex_module,
                fragment_module,
                bindings,
                attributes,
                state: convert_state(&desc.state),
                set_layout: self.bindless.layout,
                cache: self.info.pipeline_cache,
            },
        )
    }

    /// Outcome of creating a pipeline: it is entered in the table, or its layout is destroyed.
    pub fn pipeline_created(&mut self, graphics: bool, layout: u64, result: Result<u64, i32>) -> (r:
        Result<PipelineHandle, Unwind>)
        requires
            old(self)@.wf(),
            old(self)@.pipelines.has_room(),
        ensures
            final(self)@.wf(),
            match (result, r) {
                (Ok(pipeline), Ok(h)) => final(self)@ == (DeviceView {
                    pipelines: old(self)@.pipelines.insert(
                        if graphics {
                            VulkanPipeline::Graphics { layout, pipeline }
                        } else {
                            VulkanPipeline::Compute { layout, pipeline }
                        },
                    ),
                    ..old(self)@
                }) && h.slot() == old(self)@.pipelines.next_index() && h.gen()
                    == old(self)@.pipelines.next_generation(),
                (Err(code), Err(u)) => final(self)@ == old(self)@ && u@ == (UnwindView {
                    cleanup: seq![Cleanup::DestroyPipelineLayout(layout)],
                    error: pipeline_failure(
                        if graphics {
                            "vkCreateGraphicsPipelines"@
                        } else {
                            "vkCreateComputePipelines"@
                        },
                        code,
                    ),
                }),
                _ => false,
            },
    {
        match result {
            Ok(pipeline) => {
                let ghost v = self@;
                let entry = if graphics {
                    VulkanPipeline::Graphics { layout, pipeline }
                } else {
                    VulkanPipeline::Compute { layout, pipeline }
                };
                let h = self.pipelines.insert(entry);
                proof {
                    assert(self@ =~= DeviceView { pipelines: v.pipelines.insert(entry), ..v });
                    lifetime::lemma_insert_pipeline_wf(v, entry);
                }
                Ok(h)
            },
            Err(code) => {
                let text = if graphics {
                    vk_failure("vkCreateGraphicsPipelines", code)
                } else {
                    vk_failure("vkCreateComputePipelines", code)
                };
                Err(
                    unwind_one(
                        Cleanup::DestroyPipelineLayout(layout),
                        GpuError::PipelineCreation(text),
                    ),
                )
            },
        }
    }
}

// ── Laws ───────────────────────────────────────────────────────────────────────

/// A pipeline tests depth with the comparison that its description names, so that two
/// descriptions that differ in their comparison never get the same state.
pub proof fn comparison_is_planned(s: GraphicsState, t: GraphicsState)
    ensures
        s.depth_compare is Never <==> vulkan_state(s).depth_compare_op == vk::COMPARE_OP_NEVER,
        s.depth_compare is Less <==> vulkan_state(s).depth_compare_op == vk::COMPARE_OP_LESS,
        s.depth_compare is Equal <==> vulkan_state(s).depth_compare_op == vk::COMPARE_OP_EQUAL,
        s.depth_compare is LessEqual <==> vulkan_state(s).depth_compare_op
            == vk::COMPARE_OP_LESS_OR_EQUAL,
        s.depth_compare is Greater <==> vulkan_state(s).depth_compare_op == vk::COMPARE_OP_GREATER,
        s.depth_compare is GreaterEqual <==> vulkan_state(s).depth_compare_op
            == vk::COMPARE_OP_GREATER_OR_EQUAL,
        s.depth_compare is NotEqual <==> vulkan_state(s).depth_compare_op
            == vk::COMPARE_OP_NOT_EQUAL,
        s.depth_compare is Always <==> vulkan_state(s).depth_compare_op == vk::COMPARE_OP_ALWAYS,
        s.depth_compare != t.depth_compare ==> vulkan_state(s).depth_compare_op != vulkan_state(
            t,
        ).depth_compare_op,
        s.depth_compare != t.depth_compare ==> vulkan_state(s) != vulkan_state(t),
{
}

/// A pipeline is rasterized as its description says: topology, fill mode, culling and winding
/// each become the Vulkan enumerant of the same name.
pub proof fn rasterization_is_planned(s: GraphicsState)
    ensures
        ({
            let p = vulkan_state(s);
            &&& s.topology is TriangleList <==> p.topology == vk::PRIMITIVE_TOPOLOGY_TRIANGLE_LIST
            &&& s.topology is TriangleStrip <==> p.topology == vk::PRIMITIVE_TOPOLOGY_TRIANGLE_STRIP
            &&& s.topology is LineList <==> p.topology == vk::PRIMITIVE_TOPOLOGY_LINE_LIST
            &&& s.topology is PointList <==> p.topology == vk::PRIMITIVE_TOPOLOGY_POINT_LIST
            &&& s.polygon is Fill <==> p.polygon_mode == vk::POLYGON_MODE_FILL
            &&& s.polygon is Line <==> p.polygon_mode == vk::POLYGON_MODE_LINE
            &&& s.polygon is Point <==> p.polygon_mode == vk::POLYGON_MODE_POINT
            &&& s.cull is Neither <==> p.cull_mode == vk::CULL_MODE_NONE
            &&& s.cull is Front <==> p.cull_mode == vk::CULL_MODE_FRONT
            &&& s.cull is Back <==> p.cull_mode == vk::CULL_MODE_BACK
            &&& s.front_face is Ccw <==> p.front_face == vk::FRONT_FACE_COUNTER_CLOCKWISE
            &&& s.front_face is Cw <==> p.front_face == vk::FRONT_FACE_CLOCKWISE
        }),
{
}

/// A pipeline writes to the formats that its description names and to no depth buffer where it
/// names none; it tests and writes depth exactly where the description says so, takes the
/// samples that it names, and declares push constants for the vertex and fragment stages.
pub proof fn outputs_are_planned(s: GraphicsState)
    ensures
        ({
            let p = vulkan_state(s);
            &&& s.color_format is Rgba8Unorm <==> p.color_format == vk::FORMAT_R8G8B8A8_UNORM
            &&& s.color_format is Rgba8UnormSrgb <==> p.color_format == vk::FORMAT_R8G8B8A8_SRGB
            &&& s.color_format is Bgra8Unorm <==> p.color_format == vk::FORMAT_B8G8R8A8_UNORM
            &&& s.color_format is Bgra8UnormSrgb <==> p.color_format == vk::FORMAT_B8G8R8A8_SRGB
            &&& s.color_format is R32Float <==> p.color_format == vk::FORMAT_R32_SFLOAT
            &&& s.color_format is Depth32Float <==> p.color_format == vk::FORMAT_D32_SFLOAT
            &&& s.depth_format is None <==> p.depth_format == vk::FORMAT_UNDEFINED
            &&& s.depth_format == Some(Format::Depth32Float) <==> p.depth_format
                == vk::FORMAT_D32_SFLOAT
            &&& s.depth_format == Some(Format::Depth24PlusStencil8) <==> p.depth_format
                == vk::FORMAT_D24_UNORM_S8_UINT
            &&& p.depth_test == s.depth_test
            &&& p.depth_write == s.depth_write
            &&& s.samples == 2 || s.samples == 4 || s.samples == 8 || s.samples == 16
                ==> p.samples == s.samples
            &&& p.samples == 1 || p.samples == s.samples
            &&& p.push_constants.size == 256
            &&& p.push_constants.stages == vk::SHADER_STAGE_VERTEX + vk::SHADER_STAGE_FRAGMENT
        }),
{
    assert(0x1u32 | 0x10u32 == 0x11) by (bit_vector);
}

/// A pipeline blends as its preset says: an opaque one not at all, alpha blending by the alpha
/// of the source with coverage kept in the alpha channel, dual-source blending channel by
/// channel by the second output of the shader. It writes all four components.
pub proof fn blending_is_planned(s: GraphicsState)
    ensures
        ({
            let b = vulkan_state(s).blend;
            &&& b.blend_enable <==> !(s.blend is Opaque)
            &&& b.color_write_mask == 0xf
            &&& b.color_blend_op == vk::BLEND_OP_ADD
            &&& b.alpha_blend_op == vk::BLEND_OP_ADD
            &&& s.blend is AlphaBlend <==> b.src_color_blend_factor == vk::BLEND_FACTOR_SRC_ALPHA
            &&& s.blend is AlphaBlend <==> b.dst_color_blend_factor
                == vk::BLEND_FACTOR_ONE_MINUS_SRC_ALPHA
            &&& s.blend is AlphaBlend <==> b.src_alpha_blend_factor == vk::BLEND_FACTOR_ONE
            &&& s.blend is AlphaBlend <==> b.dst_alpha_blend_factor
                == vk::BLEND_FACTOR_ONE_MINUS_SRC_ALPHA
            &&& s.blend is DualSourceAlpha <==> b.src_color_blend_factor
                == vk::BLEND_FACTOR_SRC1_COLOR
            &&& s.blend is DualSourceAlpha <==> b.dst_color_blend_factor
                == vk::BLEND_FACTOR_ONE_MINUS_SRC1_COLOR
            &&& s.blend is DualSourceAlpha <==> b.src_alpha_blend_factor
                == vk::BLEND_FACTOR_SRC1_ALPHA
            &&& s.blend is DualSourceAlpha <==> b.dst_alpha_blend_factor
                == vk::BLEND_FACTOR_ONE_MINUS_SRC1_ALPHA
        }),
{
}

/// Attributes of the layouts before position `i`.
pub open spec fn attributes_before(layouts: Seq<VertexLayoutView>, i: int) -> int
    decreases i,
{
    if i <= 0 {
        0
    } else {
        attributes_before(layouts, i - 1) + layouts[i - 1].attributes.len()
    }
}

/// Every layout becomes the stream of its number, with its stride and step mode, and each of
/// its attributes becomes an attribute of that stream, at its own location, offset and format;
/// the attributes stand in the order of the layouts, and there are no others.
pub proof fn vertex_input_is_planned(layouts: Seq<VertexLayoutView>, i: int, j: int)
    requires
        layouts.len() <= u32::MAX,
        0 <= i < layouts.len(),
        0 <= j < layouts[i].attributes.len(),
    ensures
        ({
            let streams = vertex_bindings(layouts);
            let bound = bound_attributes(layouts, layouts.len() as int);
            let at = attributes_before(layouts, i) + j;
            let a = layouts[i].attributes[j];
            &&& streams.len() == layouts.len()
            &&& streams[i].binding == i
            &&& streams[i].stride == layouts[i].stride
            &&& layouts[i].step_mode is Vertex <==> streams[i].input_rate
                == vk::VERTEX_INPUT_RATE_VERTEX
            &&& layouts[i].step_mode is Instance <==> streams[i].input_rate
                == vk::VERTEX_INPUT_RATE_INSTANCE
            &&& bound.len() == attributes_before(layouts, layouts.len() as int)
            &&& 0 <= at < bound.len()
            &&& bound[at].binding == i
            &&& bound[at].location == a.location
            &&& bound[at].offset == a.offset
            &&& a.format is Float32 <==> bound[at].format == vk::FORMAT_R32_SFLOAT
            &&& a.format is Float32x2 <==> bound[at].format == vk::FORMAT_R32G32_SFLOAT
            &&& a.format is Float32x3 <==> bound[at].format == vk::FORMAT_R32G32B32_SFLOAT
            &&& a.format is Float32x4 <==> bound[at].format == vk::FORMAT_R32G32B32A32_SFLOAT
            &&& a.format is Uint32 <==> bound[at].format == vk::FORMAT_R32_UINT
            &&& a.format is Uint8x4Unorm <==> bound[at].format == vk::FORMAT_R8G8B8A8_UNORM
        }),
{
    lemma_attribute_at(layouts, layouts.len() as int, i, j);
}

proof fn lemma_attribute_at(layouts: Seq<VertexLayoutView>, k: int, i: int, j: int)
    requires
        k <= layouts.len() <= u32::MAX,
        0 <= i < k,
        0 <= j < layouts[i].attributes.len(),
    ensures
        bound_attributes(layouts, k).len() == attributes_before(layouts, k),
        0 <= attributes_before(layouts, i) + j < attributes_before(layouts, k),
        bound_attributes(layouts, k)[attributes_before(layouts, i) + j] == layout_attributes(
            layouts[i],
            i,
        )[j],
    decreases k,
{
    lemma_attribute_count(layouts, k);
    lemma_attribute_count(layouts, k - 1);
    lemma_attribute_count(layouts, i);
    if i < k - 1 {
        lemma_attribute_at(layouts, k - 1, i, j);
    }
}

proof fn lemma_attribute_count(layouts: Seq<VertexLayoutView>, k: int)
    ensures
        bound_attributes(layouts, k).len() == attributes_before(layouts, k),
    decreases k,
{
    if k > 0 {
        lemma_attribute_count(layouts, k - 1);
    }
}

/// A compute pipeline is made of the module of its shader and sees the bindless tables; it
/// declares as many push constants, for the compute stage, as dispatches may push.
pub proof fn compute_pipeline_is_planned(v: DeviceView, shader: ShaderHandle)
    ensures
        ({
            let p = compute_pipeline(v, shader);
            &&& p.module == v.shaders.value(shader)
            &&& p.set_layout == v.bindless.layout
            &&& p.cache == v.info.pipeline_cache
            &&& p.push_constants.stages == vk::SHADER_STAGE_COMPUTE
            &&& p.push_constants.size == 128
        }),
{
}

/// A graphics pipeline is refused exactly where a shader is dead, or where it draws lines or
/// points on a device that only fills.
pub proof fn graphics_pipeline_is_refused_iff(v: DeviceView, desc: GraphicsPipelineDesc)
    ensures
        graphics_fault(v, desc) is None <==> {
            &&& v.shaders.live(desc.vertex_shader)
            &&& v.shaders.live(desc.fragment_shader)
            &&& v.info.fill_mode_non_solid || !(desc.state.polygon is Line
                || desc.state.polygon is Point)
        },
        graphics_fault(v, desc) matches Some(e) ==> e is PipelineCreation,
{
}

/// A shader is accepted exactly where it is SPIR-V in whole words. Each word is then spelled by
/// four bytes of it, in order, and there are no others.
pub proof fn shader_words_are_spelled(order: ByteOrder, bytes: Seq<u8>, i: int)
    requires
        0 <= i < bytes.len() / 4,
    ensures
        spirv_words(order, bytes).len() == bytes.len() / 4,
        constants::spells(order, bytes, i, spirv_words(order, bytes)[i] as int),
{
    let s = bytes.subrange(4 * i, 4 * i + 4);
    assert(s[0] == bytes[4 * i] && s[1] == bytes[4 * i + 1] && s[2] == bytes[4 * i + 2] && s[3]
        == bytes[4 * i + 3]);
}

/// A shader source is refused exactly where it is not SPIR-V, or not a whole number of words.
pub proof fn shader_is_refused_iff(source: ShaderSource)
    ensures
        shader_fault(source) is None <==> (source matches ShaderSource::Spirv(bytes)
            && bytes@.len() % 4 == 0),
        shader_fault(source) matches Some(e) ==> e is ShaderCompile,
{
}

/// The position that is reported of an entry name is that of its first zero byte.
pub proof fn first_zero_is_first(bytes: Seq<u8>)
    ensures
        match first_zero(bytes) {
            Some(i) => 0 <= i < bytes.len() && bytes[i] == 0 && forall|j: int|
                0 <= j < i ==> #[trigger] bytes[j] != 0,
            None => forall|j: int| 0 <= j < bytes.len() ==> #[trigger] bytes[j] != 0,
        },
{
    let f = |i: int| bytes[i] == 0;
    search::lemma_first_below(f, bytes.len() as int);
    assert forall|j: int| 0 <= j < bytes.len() implies (#[trigger] bytes[j] == 0) == f(j) by {}
}

} // verus!
