//! Compute work: checks on dispatches and copies, and the commands they are recorded as.
use vstd::prelude::*;
use vstd::string::StringExecFns;

use crate::command;
use crate::command::{Command, CommandOf, CommandView};
use crate::device;
use crate::device::constants;
use crate::device::constants::{Bindings, BindingsView, ByteOrder};
use crate::device::submission::{AsyncPlan, SubmissionView, VulkanSubmission};
use crate::device::{
    stale, BufferHandle, DeviceView, PipelineHandle, VulkanBuffer, VulkanDevice, VulkanPipeline,
};
use crate::error;
use crate::error::{mismatch, missing_usage, GpuError, GpuErrorView};
use crate::hal::{BUFFER_STORAGE, BUFFER_TRANSFER_DST, BUFFER_TRANSFER_SRC};
use crate::text;
use crate::vk;

verus! {

/// One dispatch of a compute pipeline.
pub struct DispatchOp {
    pub pipeline: PipelineHandle,
    pub bindings: Bindings,
    pub grid: [u32; 3],
}

/// One copy between buffers.
#[derive(Clone, Copy)]
pub struct BufferCopyOp {
    pub src: BufferHandle,
    pub src_offset: u64,
    pub dst: BufferHandle,
    pub dst_offset: u64,
    pub len: u64,
}

/// One operation of a mixed submission.
pub enum ComputeOp {
    CopyBuffer(BufferCopyOp),
    Dispatch(DispatchOp),
}

/// Mathematical form of a [`DispatchOp`].
pub struct DispatchOpView {
    pub pipeline: PipelineHandle,
    pub bindings: BindingsView,
    pub grid: Seq<u32>,
}

/// Mathematical form of a [`ComputeOp`].
pub enum ComputeOpView {
    CopyBuffer(BufferCopyOp),
    Dispatch(DispatchOpView),
}

impl View for DispatchOp {
    type V = DispatchOpView;

    open spec fn view(&self) -> DispatchOpView {
        DispatchOpView { pipeline: self.pipeline, bindings: self.bindings@, grid: self.grid@ }
    }
}

impl View for ComputeOp {
    type V = ComputeOpView;

    open spec fn view(&self) -> ComputeOpView {
        match *self {
            ComputeOp::CopyBuffer(copy) => ComputeOpView::CopyBuffer(copy),
            ComputeOp::Dispatch(op) => ComputeOpView::Dispatch(op@),
        }
    }
}

/// Operations in their mathematical form.
pub open spec fn op_views(ops: Seq<DispatchOp>) -> Seq<DispatchOpView> {
    ops.map_values(|op: DispatchOp| op@)
}

/// Operations in their mathematical form.
pub open spec fn mixed_views(ops: Seq<ComputeOp>) -> Seq<ComputeOpView> {
    ops.map_values(|op: ComputeOp| op@)
}

// ── Messages ───────────────────────────────────────────────────────────────────

pub open spec fn zero_grid_text(grid: Seq<u32>) -> Seq<char> {
    "dispatch grid dimensions must be non-zero, got "@ + text::triple_text(grid)
}

pub open spec fn large_grid_text(grid: Seq<u32>, limit: Seq<u32>) -> Seq<char> {
    "dispatch grid "@ + text::triple_text(grid) + " exceeds device limit "@ + text::triple_text(
        limit,
    )
}

pub open spec fn invalid_grid_text(grid: Seq<u32>, limit: Seq<u32>) -> Seq<char> {
    "invalid dispatch grid "@ + text::triple_text(grid) + "; device limit "@ + text::triple_text(
        limit,
    )
}

pub open spec fn dead_buffer_text(idx: u32) -> Seq<char> {
    "buffer binding index "@ + text::decimal_text(idx as nat) + " is not live"@
}

pub open spec fn buffer_capacity_text(idx: u32, capacity: u32) -> Seq<char> {
    "buffer binding index "@ + text::decimal_text(idx as nat) + " exceeds bindless capacity "@
        + text::decimal_text(capacity as nat)
}

pub open spec fn texture_capacity_text(idx: u32, capacity: u32) -> Seq<char> {
    "texture binding index "@ + text::decimal_text(idx as nat) + " exceeds bindless capacity "@
        + text::decimal_text(capacity as nat)
}

pub open spec fn buffer_over_capacity_text(idx: u32) -> Seq<char> {
    "buffer binding index "@ + text::decimal_text(idx as nat) + " exceeds bindless capacity"@
}

pub open spec fn unbound_texture_text(idx: u32) -> Seq<char> {
    "texture binding index "@ + text::decimal_text(idx as nat) + " is not live and bound"@
}

pub open spec fn copy_range_text(op: BufferCopyOp, src_size: u64, dst_size: u64) -> Seq<char> {
    "copy ranges src "@ + text::decimal_text(op.src_offset as nat) + ".."@ + text::decimal_text(
        (op.src_offset + op.len) as nat,
    ) + "/"@ + text::decimal_text(src_size as nat) + " dst "@ + text::decimal_text(
        op.dst_offset as nat,
    ) + ".."@ + text::decimal_text((op.dst_offset + op.len) as nat) + "/"@ + text::decimal_text(
        dst_size as nat,
    )
}

/// `prefix`, a number, and `suffix`.
fn numbered(prefix: &str, n: u64, suffix: &str) -> (s: String)
    ensures
        s@ == prefix@ + text::decimal_text(n as nat) + suffix@,
{
    let mut s = prefix.to_owned();
    s.append(text::decimal(n).as_str());
    s.append(suffix);
    s
}

// ── Checks ─────────────────────────────────────────────────────────────────────

/// A dimension of the grid is zero.
pub open spec fn grid_has_zero(grid: Seq<u32>) -> bool {
    grid[0] == 0 || grid[1] == 0 || grid[2] == 0
}

/// A dimension of the grid is above the device's limit.
pub open spec fn grid_too_large(grid: Seq<u32>, limit: Seq<u32>) -> bool {
    grid[0] > limit[0] || grid[1] > limit[1] || grid[2] > limit[2]
}

/// What is wrong with a buffer binding of a batch.
pub open spec fn buffer_fault(v: DeviceView, idx: u32) -> Option<GpuErrorView> {
    if idx >= v.bindless.buffer_capacity {
        Some(error::mismatch_view(buffer_capacity_text(idx, v.bindless.buffer_capacity)))
    } else if !v.buffers.occupied(idx as int) {
        Some(error::mismatch_view(dead_buffer_text(idx)))
    } else if !v.buffers.at(idx as int).usage.has(BUFFER_STORAGE) {
        Some(error::missing_usage_view("bound buffer"@, "STORAGE"@))
    } else {
        None
    }
}

/// What is wrong with a texture binding of a batch.
pub open spec fn texture_fault(v: DeviceView, idx: u32) -> Option<GpuErrorView> {
    if idx >= v.bindless.texture_capacity {
        Some(error::mismatch_view(texture_capacity_text(idx, v.bindless.texture_capacity)))
    } else if !v.textures.occupied(idx as int) || !v.bound_textures[idx as int] {
        Some(error::mismatch_view(unbound_texture_text(idx)))
    } else {
        None
    }
}

/// What is wrong with a buffer binding of a mixed submission.
pub open spec fn mixed_buffer_fault(v: DeviceView, idx: u32) -> Option<GpuErrorView> {
    if !v.buffers.occupied(idx as int) {
        Some(error::mismatch_view(dead_buffer_text(idx)))
    } else if idx >= v.bindless.buffer_capacity {
        Some(error::mismatch_view(buffer_over_capacity_text(idx)))
    } else if !v.buffers.at(idx as int).usage.has(BUFFER_STORAGE) {
        Some(error::missing_usage_view("bound buffer"@, "STORAGE"@))
    } else {
        None
    }
}

/// What is wrong with a texture binding of a mixed submission.
pub open spec fn mixed_texture_fault(v: DeviceView, idx: u32) -> Option<GpuErrorView> {
    if idx >= v.bindless.texture_capacity || !v.textures.occupied(idx as int)
        || !v.bound_textures[idx as int] {
        Some(error::mismatch_view(unbound_texture_text(idx)))
    } else {
        None
    }
}

/// First fault among the first `k` bindings.
pub open spec fn first_fault(
    bindings: Seq<u32>,
    fault: spec_fn(u32) -> Option<GpuErrorView>,
    k: int,
) -> Option<GpuErrorView>
    decreases k,
{
    if k <= 0 {
        None
    } else {
        match first_fault(bindings, fault, k - 1) {
            Some(e) => Some(e),
            None => fault(bindings[k - 1]),
        }
    }
}

/// What is wrong with the pipeline of a dispatch.
pub open spec fn pipeline_fault(v: DeviceView, h: PipelineHandle) -> Option<GpuErrorView> {
    if !v.pipelines.live(h) {
        Some(GpuErrorView::Dispatch("stale pipeline handle"@))
    } else if v.pipelines.value(h) is Graphics {
        Some(GpuErrorView::Dispatch("dispatch called with a graphics pipeline handle"@))
    } else {
        None
    }
}

/// What is wrong with a dispatch of a batch: the first of its grid, buffers, textures, pipeline
/// and push constants that is at fault.
pub open spec fn dispatch_fault(v: DeviceView, op: DispatchOpView) -> Option<GpuErrorView> {
    let b = op.bindings;
    let limit = v.info.limits.max_dispatch_size@;
    let in_buffers = first_fault(
        b.buffers,
        |idx: u32| buffer_fault(v, idx),
        b.buffers.len() as int,
    );
    let in_textures = first_fault(
        b.textures,
        |idx: u32| texture_fault(v, idx),
        b.textures.len() as int,
    );
    if grid_has_zero(op.grid) {
        Some(GpuErrorView::Dispatch(zero_grid_text(op.grid)))
    } else if grid_too_large(op.grid, limit) {
        Some(GpuErrorView::Dispatch(large_grid_text(op.grid, limit)))
    } else if in_buffers is Some {
        in_buffers
    } else if in_textures is Some {
        in_textures
    } else if pipeline_fault(v, op.pipeline) is Some {
        pipeline_fault(v, op.pipeline)
    } else if !constants::constants_fit(constants::compute_words(b)) {
        Some(GpuErrorView::Dispatch(constants::constants_text()))
    } else {
        None
    }
}

/// What is wrong with a dispatch of a mixed submission.
pub open spec fn mixed_dispatch_fault(v: DeviceView, op: DispatchOpView) -> Option<GpuErrorView> {
    let b = op.bindings;
    let limit = v.info.limits.max_dispatch_size@;
    let in_buffers = first_fault(
        b.buffers,
        |idx: u32| mixed_buffer_fault(v, idx),
        b.buffers.len() as int,
    );
    let in_textures = first_fault(
        b.textures,
        |idx: u32| mixed_texture_fault(v, idx),
        b.textures.len() as int,
    );
    if grid_has_zero(op.grid) || grid_too_large(op.grid, limit) {
        Some(GpuErrorView::Dispatch(invalid_grid_text(op.grid, limit)))
    } else if in_buffers is Some {
        in_buffers
    } else if in_textures is Some {
        in_textures
    } else if pipeline_fault(v, op.pipeline) is Some {
        pipeline_fault(v, op.pipeline)
    } else if !constants::constants_fit(constants::compute_words(b)) {
        Some(GpuErrorView::Dispatch(constants::constants_text()))
    } else {
        None
    }
}

/// What is wrong with the ranges of a copy between two buffers.
pub open spec fn copy_range_fault(
    op: BufferCopyOp,
    src: VulkanBuffer,
    dst: VulkanBuffer,
) -> Option<GpuErrorView> {
    if op.src_offset + op.len > u64::MAX {
        Some(error::mismatch_view("source copy range overflows u64"@))
    } else if op.dst_offset + op.len > u64::MAX {
        Some(error::mismatch_view("destination copy range overflows u64"@))
    } else if op.src_offset + op.len > src.size || op.dst_offset + op.len > dst.size {
        Some(error::mismatch_view(copy_range_text(op, src.size, dst.size)))
    } else {
        None
    }
}

/// What is wrong with a copy of a mixed submission.
pub open spec fn mixed_copy_fault(v: DeviceView, op: BufferCopyOp) -> Option<GpuErrorView> {
    if !v.buffers.live(op.src) {
        Some(device::stale_view(v.buffers, op.src))
    } else if !v.buffers.live(op.dst) {
        Some(device::stale_view(v.buffers, op.dst))
    } else if op.src == op.dst {
        Some(
            error::mismatch_view(
                "copy_buffer requires distinct source and destination buffers"@,
            ),
        )
    } else if !v.buffers.value(op.src).usage.has(BUFFER_TRANSFER_SRC) {
        Some(error::missing_usage_view("source buffer"@, "TRANSFER_SRC"@))
    } else if !v.buffers.value(op.dst).usage.has(BUFFER_TRANSFER_DST) {
        Some(error::missing_usage_view("destination buffer"@, "TRANSFER_DST"@))
    } else {
        copy_range_fault(op, v.buffers.value(op.src), v.buffers.value(op.dst))
    }
}

/// What is wrong with a copy on its own: it also has to wait for submissions in flight, and
/// usage is checked before the buffers are told apart.
pub open spec fn copy_fault(v: DeviceView, op: BufferCopyOp) -> Option<GpuErrorView> {
    if v.in_flight != 0 {
        Some(
            error::mismatch_view(
                "copy_buffer cannot run while an asynchronous submission is pending"@,
            ),
        )
    } else if !v.buffers.live(op.src) {
        Some(device::stale_view(v.buffers, op.src))
    } else if !v.buffers.live(op.dst) {
        Some(device::stale_view(v.buffers, op.dst))
    } else if !v.buffers.value(op.src).usage.has(BUFFER_TRANSFER_SRC) {
        Some(error::missing_usage_view("source buffer"@, "TRANSFER_SRC"@))
    } else if !v.buffers.value(op.dst).usage.has(BUFFER_TRANSFER_DST) {
        Some(error::missing_usage_view("destination buffer"@, "TRANSFER_DST"@))
    } else if op.src == op.dst {
        Some(
            error::mismatch_view(
                "copy_buffer requires distinct source and destination buffers"@,
            ),
        )
    } else {
        copy_range_fault(op, v.buffers.value(op.src), v.buffers.value(op.dst))
    }
}

/// What is wrong with an operation of a mixed submission.
pub open spec fn mixed_fault(v: DeviceView, op: ComputeOpView) -> Option<GpuErrorView> {
    match op {
        ComputeOpView::CopyBuffer(copy) => mixed_copy_fault(v, copy),
        ComputeOpView::Dispatch(op) => mixed_dispatch_fault(v, op),
    }
}

/// First fault among the first `k` operations of a batch.
pub open spec fn batch_fault(v: DeviceView, ops: Seq<DispatchOpView>, k: int) -> Option<GpuErrorView>
    decreases k,
{
    if k <= 0 {
        None
    } else {
        match batch_fault(v, ops, k - 1) {
            Some(e) => Some(e),
            None => dispatch_fault(v, ops[k - 1]),
        }
    }
}

/// First fault among the first `k` operations of a mixed submission.
pub open spec fn submission_fault(
    v: DeviceView,
    ops: Seq<ComputeOpView>,
    k: int,
) -> Option<GpuErrorView>
    decreases k,
{
    if k <= 0 {
        None
    } else {
        match submission_fault(v, ops, k - 1) {
            Some(e) => Some(e),
            None => mixed_fault(v, ops[k - 1]),
        }
    }
}

// ── Commands ───────────────────────────────────────────────────────────────────

/// Commands of one dispatch. Push constants are recorded only if there are any.
pub open spec fn dispatch_commands(
    v: DeviceView,
    op: DispatchOpView,
    order: ByteOrder,
) -> Seq<CommandView> {
    let (pipeline, layout) = v.pipelines.value(op.pipeline).parts();
    let words = constants::compute_words(op.bindings);
    let bind = seq![
        CommandOf::BindPipeline { bind_point: vk::PIPELINE_BIND_POINT_COMPUTE, pipeline },
        CommandOf::BindDescriptorSet {
            bind_point: vk::PIPELINE_BIND_POINT_COMPUTE,
            layout,
            set: v.bindless.set,
        },
    ];
    let push = if words.len() == 0 {
        Seq::empty()
    } else {
        seq![
            CommandOf::PushConstants {
                layout,
                stages: vk::SHADER_STAGE_COMPUTE,
                bytes: constants::words_bytes(order, words),
            },
        ]
    };
    bind + push + seq![CommandOf::Dispatch { x: op.grid[0], y: op.grid[1], z: op.grid[2] }]
}

/// Makes the writes of one dispatch visible to the next.
pub open spec fn dispatch_barrier() -> CommandView {
    CommandOf::MemoryBarrier {
        src_stages: vk::PIPELINE_STAGE_COMPUTE_SHADER,
        dst_stages: vk::PIPELINE_STAGE_COMPUTE_SHADER,
        memory: vk::MemoryBarrier {
            src_access_mask: vk::ACCESS_SHADER_WRITE,
            dst_access_mask: vk::ACCESS_SHADER_READ | vk::ACCESS_SHADER_WRITE,
        },
    }
}

/// Makes the writes of one copy or dispatch visible to the next.
pub open spec fn mixed_barrier() -> CommandView {
    CommandOf::MemoryBarrier {
        src_stages: vk::PIPELINE_STAGE_COMPUTE_SHADER | vk::PIPELINE_STAGE_TRANSFER,
        dst_stages: vk::PIPELINE_STAGE_COMPUTE_SHADER | vk::PIPELINE_STAGE_TRANSFER,
        memory: vk::MemoryBarrier {
            src_access_mask: vk::ACCESS_SHADER_WRITE | vk::ACCESS_TRANSFER_WRITE,
            dst_access_mask: vk::ACCESS_SHADER_READ | vk::ACCESS_SHADER_WRITE
                | vk::ACCESS_TRANSFER_READ | vk::ACCESS_TRANSFER_WRITE,
        },
    }
}

/// Commands of one copy. An empty copy records nothing.
pub open spec fn copy_commands(v: DeviceView, op: BufferCopyOp) -> Seq<CommandView> {
    if op.len == 0 {
        Seq::empty()
    } else {
        seq![
            CommandOf::CopyBuffer {
                src: v.buffers.value(op.src).buffer,
                dst: v.buffers.value(op.dst).buffer,
                src_offset: op.src_offset,
                dst_offset: op.dst_offset,
                size: op.len,
            },
        ]
    }
}

pub open spec fn mixed_commands(
    v: DeviceView,
    op: ComputeOpView,
    order: ByteOrder,
) -> Seq<CommandView> {
    match op {
        ComputeOpView::CopyBuffer(copy) => copy_commands(v, copy),
        ComputeOpView::Dispatch(op) => dispatch_commands(v, op, order),
    }
}

/// `barrier` from the second operation on.
pub open spec fn between(k: int, barrier: CommandView) -> Seq<CommandView> {
    if k == 0 {
        Seq::empty()
    } else {
        seq![barrier]
    }
}

/// Commands of the first `k` dispatches of a batch, with a barrier between any two.
pub open spec fn batch_commands(
    v: DeviceView,
    ops: Seq<DispatchOpView>,
    order: ByteOrder,
    k: int,
) -> Seq<CommandView>
    decreases k,
{
    if k <= 0 {
        Seq::empty()
    } else {
        batch_commands(v, ops, order, k - 1) + between(k - 1, dispatch_barrier())
            + dispatch_commands(v, ops[k - 1], order)
    }
}

/// Commands of the first `k` operations of a mixed submission, with a barrier between any two.
pub open spec fn submission_commands(
    v: DeviceView,
    ops: Seq<ComputeOpView>,
    order: ByteOrder,
    k: int,
) -> Seq<CommandView>
    decreases k,
{
    if k <= 0 {
        Seq::empty()
    } else {
        submission_commands(v, ops, order, k - 1) + between(k - 1, mixed_barrier())
            + mixed_commands(v, ops[k - 1], order)
    }
}

// ── Executable checks ──────────────────────────────────────────────────────────

fn check_buffer(dev: &VulkanDevice, idx: u32) -> (r: Result<(), GpuError>)
    ensures
        match r {
            Ok(_) => buffer_fault(dev@, idx) is None,
            Err(e) => buffer_fault(dev@, idx) == Some(e@),
        },
{
    let capacity: u32 = dev.bindless.buffer_capacity;
    if idx >= capacity {
        let mut message = numbered(
            "buffer binding index ",
            idx as u64,
            " exceeds bindless capacity ",
        );
        message.append(text::decimal(capacity as u64).as_str());
        return Err(mismatch(message));
    }
    match dev.buffers.get_by_slot_index(idx) {
        None => Err(mismatch(numbered("buffer binding index ", idx as u64, " is not live"))),
        Some(buffer) => if !buffer.usage.contains(BUFFER_STORAGE) {
            Err(missing_usage("bound buffer", "STORAGE"))
        } else {
            Ok(())
        },
    }
}

fn check_texture(dev: &VulkanDevice, idx: u32) -> (r: Result<(), GpuError>)
    requires
        dev@.wf(),
    ensures
        match r {
            Ok(_) => texture_fault(dev@, idx) is None,
            Err(e) => texture_fault(dev@, idx) == Some(e@),
        },
{
    let capacity: u32 = dev.bindless.texture_capacity;
    if idx >= capacity {
        let mut message = numbered(
            "texture binding index ",
            idx as u64,
            " exceeds bindless capacity ",
        );
        message.append(text::decimal(capacity as u64).as_str());
        return Err(mismatch(message));
    }
    if dev.textures.get_by_slot_index(idx).is_none() || !dev.bound_textures[idx as usize] {
        return Err(
            mismatch(numbered("texture binding index ", idx as u64, " is not live and bound")),
        );
    }
    Ok(())
}

fn check_mixed_buffer(dev: &VulkanDevice, idx: u32) -> (r: Result<(), GpuError>)
    ensures
        match r {
            Ok(_) => mixed_buffer_fault(dev@, idx) is None,
            Err(e) => mixed_buffer_fault(dev@, idx) == Some(e@),
        },
{
    match dev.buffers.get_by_slot_index(idx) {
        None => Err(mismatch(numbered("buffer binding index ", idx as u64, " is not live"))),
        Some(buffer) => if idx >= dev.bindless.buffer_capacity {
            Err(
                mismatch(
                    numbered("buffer binding index ", idx as u64, " exceeds bindless capacity"),
                ),
            )
        } else if !buffer.usage.contains(BUFFER_STORAGE) {
            Err(missing_usage("bound buffer", "STORAGE"))
        } else {
            Ok(())
        },
    }
}

fn check_mixed_texture(dev: &VulkanDevice, idx: u32) -> (r: Result<(), GpuError>)
    requires
        dev@.wf(),
    ensures
        match r {
            Ok(_) => mixed_texture_fault(dev@, idx) is None,
            Err(e) => mixed_texture_fault(dev@, idx) == Some(e@),
        },
{
    if idx >= dev.bindless.texture_capacity || dev.textures.get_by_slot_index(idx).is_none()
        || !dev.bound_textures[idx as usize] {
        return Err(
            mismatch(numbered("texture binding index ", idx as u64, " is not live and bound")),
        );
    }
    Ok(())
}

/// Checks the buffer and texture bindings of a dispatch, as batches do or as mixed submissions
/// do.
fn check_bindings(dev: &VulkanDevice, b: &Bindings, mixed: bool) -> (r: Result<(), GpuError>)
    requires
        dev@.wf(),
    ensures
        ({
            let on_buffer = if mixed {
                |idx: u32| mixed_buffer_fault(dev@, idx)
            } else {
                |idx: u32| buffer_fault(dev@, idx)
            };
            let on_texture = if mixed {
                |idx: u32| mixed_texture_fault(dev@, idx)
            } else {
                |idx: u32| texture_fault(dev@, idx)
            };
            let in_buffers = first_fault(b@.buffers, on_buffer, b@.buffers.len() as int);
            let in_textures = first_fault(b@.textures, on_texture, b@.textures.len() as int);
            match r {
                Ok(_) => in_buffers is None && in_textures is None,
                Err(e) => in_buffers == Some(e@) || (in_buffers is None && in_textures == Some(
                    e@,
                )),
            }
        }),
{
    let ghost on_buffer = if mixed {
        |idx: u32| mixed_buffer_fault(dev@, idx)
    } else {
        |idx: u32| buffer_fault(dev@, idx)
    };
    let ghost on_texture = if mixed {
        |idx: u32| mixed_texture_fault(dev@, idx)
    } else {
        |idx: u32| texture_fault(dev@, idx)
    };
    let n: usize = b.buffers.len();
    let mut i: usize = 0;
    while i < n
        invariant
            dev@.wf(),
            n == b.buffers.len(),
            i <= n,
            on_buffer == (if mixed {
                |idx: u32| mixed_buffer_fault(dev@, idx)
            } else {
                |idx: u32| buffer_fault(dev@, idx)
            }),
            first_fault(b@.buffers, on_buffer, i as int) is None,
        decreases n - i,
    {
        let idx: u32 = b.buffers[i];
        let checked = if mixed {
            check_mixed_buffer(dev, idx)
        } else {
            check_buffer(dev, idx)
        };
        assert(first_fault(b@.buffers, on_buffer, i + 1) == on_buffer(idx));
        if let Err(e) = checked {
            proof {
                lemma_fault_stays(b@.buffers, on_buffer, i + 1, n as int);
            }
            return Err(e);
        }
        i += 1;
    }
    let m: usize = b.textures.len();
    let mut j: usize = 0;
    while j < m
        invariant
            dev@.wf(),
            m == b.textures.len(),
            j <= m,
            on_texture == (if mixed {
                |idx: u32| mixed_texture_fault(dev@, idx)
            } else {
                |idx: u32| texture_fault(dev@, idx)
            }),
            on_buffer == (if mixed {
                |idx: u32| mixed_buffer_fault(dev@, idx)
            } else {
                |idx: u32| buffer_fault(dev@, idx)
            }),
            first_fault(b@.buffers, on_buffer, b@.buffers.len() as int) is None,
            first_fault(b@.textures, on_texture, j as int) is None,
        decreases m - j,
    {
        let idx: u32 = b.textures[j];
        let checked = if mixed {
            check_mixed_texture(dev, idx)
        } else {
            check_texture(dev, idx)
        };
        assert(first_fault(b@.textures, on_texture, j + 1) == on_texture(idx));
        if let Err(e) = checked {
            proof {
                lemma_fault_stays(b@.textures, on_texture, j + 1, m as int);
            }
            return Err(e);
        }
        j += 1;
    }
    Ok(())
}

proof fn lemma_fault_stays(
    bindings: Seq<u32>,
    fault: spec_fn(u32) -> Option<GpuErrorView>,
    j: int,
    k: int,
)
    requires
        0 <= j <= k,
        first_fault(bindings, fault, j) is Some,
    ensures
        first_fault(bindings, fault, k) == first_fault(bindings, fault, j),
    decreases k,
{
    if j < k {
        lemma_fault_stays(bindings, fault, j, k - 1);
    }
}

/// The compute pipeline of a dispatch and its layout.
fn resolve_pipeline(dev: &VulkanDevice, h: PipelineHandle) -> (r: Result<(u64, u64), GpuError>)
    ensures
        match r {
            Ok(parts) => pipeline_fault(dev@, h) is None && parts == dev@.pipelines.value(
                h,
            ).parts(),
            Err(e) => pipeline_fault(dev@, h) == Some(e@),
        },
{
    match dev.pipelines.get(h) {
        None => Err(GpuError::Dispatch("stale pipeline handle".to_owned())),
        Some(VulkanPipeline::Compute { layout, pipeline }) => Ok((pipeline, layout)),
        Some(VulkanPipeline::Graphics { .. }) => Err(
            GpuError::Dispatch("dispatch called with a graphics pipeline handle".to_owned()),
        ),
    }
}

/// Checks a dispatch of a batch and appends its commands.
fn plan_dispatch(
    dev: &VulkanDevice,
    op: &DispatchOp,
    order: ByteOrder,
    mixed: bool,
    out: &mut Vec<Command>,
) -> (r: Result<(), GpuError>)
    requires
        dev@.wf(),
    ensures
        ({
            let fault = if mixed {
                mixed_dispatch_fault(dev@, op@)
            } else {
                dispatch_fault(dev@, op@)
            };
            match r {
                Ok(_) => fault is None && command::command_views(final(out)@)
                    == command::command_views(old(out)@) + dispatch_commands(
                    dev@,
                    op@,
                    order,
                ),
                Err(e) => fault == Some(e@),
            }
        }),
{
    let grid: [u32; 3] = op.grid;
    let limit: [u32; 3] = dev.info.limits.max_dispatch_size;
    let zero = grid[0] == 0 || grid[1] == 0 || grid[2] == 0;
    let large = grid[0] > limit[0] || grid[1] > limit[1] || grid[2] > limit[2];
    if mixed {
        if zero || large {
            let mut message = "invalid dispatch grid ".to_owned();
            message.append(text::triple(&grid).as_str());
            message.append("; device limit ");
            message.append(text::triple(&limit).as_str());
            return Err(GpuError::Dispatch(message));
        }
    } else {
        if zero {
            let mut message = "dispatch grid dimensions must be non-zero, got ".to_owned();
            message.append(text::triple(&grid).as_str());
            return Err(GpuError::Dispatch(message));
        }
        if large {
            let mut message = "dispatch grid ".to_owned();
            message.append(text::triple(&grid).as_str());
            message.append(" exceeds device limit ");
            message.append(text::triple(&limit).as_str());
            return Err(GpuError::Dispatch(message));
        }
    }
    if let Err(e) = check_bindings(dev, &op.bindings, mixed) {
        return Err(e);
    }
    let (pipeline, layout) = match resolve_pipeline(dev, op.pipeline) {
        Ok(parts) => parts,
        Err(e) => {
            return Err(e);
        },
    };
    let bytes = match constants::pack_compute_constants(&op.bindings, order) {
        Ok(bytes) => bytes,
        Err(e) => {
            return Err(e);
        },
    };
    proof {
        constants::words_bytes_len(order, constants::compute_words(op.bindings@));
    }
    out.push(
        CommandOf::BindPipeline { bind_point: vk::PIPELINE_BIND_POINT_COMPUTE, pipeline },
    );
    out.push(
        CommandOf::BindDescriptorSet {
            bind_point: vk::PIPELINE_BIND_POINT_COMPUTE,
            layout,
            set: dev.bindless.set,
        },
    );
    if bytes.len() != 0 {
        out.push(
            CommandOf::PushConstants { layout, stages: vk::SHADER_STAGE_COMPUTE, bytes },
        );
    }
    out.push(CommandOf::Dispatch { x: grid[0], y: grid[1], z: grid[2] });
    assert(command::command_views(out@) =~= command::command_views(old(out)@)
        + dispatch_commands(dev@, op@, order));
    Ok(())
}

/// Checks the ranges of a copy between two buffers.
fn check_copy_ranges(op: &BufferCopyOp, src: &VulkanBuffer, dst: &VulkanBuffer) -> (r: Result<
    (),
    GpuError,
>)
    ensures
        match r {
            Ok(_) => copy_range_fault(*op, *src, *dst) is None,
            Err(e) => copy_range_fault(*op, *src, *dst) == Some(e@),
        },
{
    let src_end: u64 = match op.src_offset.checked_add(op.len) {
        Some(end) => end,
        None => {
            return Err(mismatch("source copy range overflows u64".to_owned()));
        },
    };
    let dst_end: u64 = match op.dst_offset.checked_add(op.len) {
        Some(end) => end,
        None => {
            return Err(mismatch("destination copy range overflows u64".to_owned()));
        },
    };
    if src_end > src.size || dst_end > dst.size {
        let mut message = numbered("copy ranges src ", op.src_offset, "..");
        message.append(text::decimal(src_end).as_str());
        message.append("/");
        message.append(text::decimal(src.size).as_str());
        message.append(" dst ");
        message.append(text::decimal(op.dst_offset).as_str());
        message.append("..");
        message.append(text::decimal(dst_end).as_str());
        message.append("/");
        message.append(text::decimal(dst.size).as_str());
        return Err(mismatch(message));
    }
    Ok(())
}

/// Checks a copy of a mixed submission and appends its commands.
fn plan_copy(dev: &VulkanDevice, op: &BufferCopyOp, out: &mut Vec<Command>) -> (r: Result<
    (),
    GpuError,
>)
    ensures
        match r {
            Ok(_) => mixed_copy_fault(dev@, *op) is None && command::command_views(
                final(out)@,
            ) == command::command_views(old(out)@) + copy_commands(dev@, *op),
            Err(e) => mixed_copy_fault(dev@, *op) == Some(e@),
        },
{
    let src = match dev.buffers.get(op.src) {
        Some(b) => b,
        None => {
            return Err(stale(&dev.buffers, op.src));
        },
    };
    let dst = match dev.buffers.get(op.dst) {
        Some(b) => b,
        None => {
            return Err(stale(&dev.buffers, op.dst));
        },
    };
    if op.src.same(&op.dst) {
        return Err(
            mismatch("copy_buffer requires distinct source and destination buffers".to_owned()),
        );
    }
    if !src.usage.contains(BUFFER_TRANSFER_SRC) {
        return Err(missing_usage("source buffer", "TRANSFER_SRC"));
    }
    if !dst.usage.contains(BUFFER_TRANSFER_DST) {
        return Err(missing_usage("destination buffer", "TRANSFER_DST"));
    }
    if let Err(e) = check_copy_ranges(op, &src, &dst) {
        return Err(e);
    }
    if op.len != 0 {
        out.push(
            CommandOf::CopyBuffer {
                src: src.buffer,
                dst: dst.buffer,
                src_offset: op.src_offset,
                dst_offset: op.dst_offset,
                size: op.len,
            },
        );
    }
    assert(command::command_views(out@) =~= command::command_views(old(out)@)
        + copy_commands(dev@, *op));
    Ok(())
}

proof fn lemma_batch_fault_stays(v: DeviceView, ops: Seq<DispatchOpView>, j: int, k: int)
    requires
        0 <= j <= k,
        batch_fault(v, ops, j) is Some,
    ensures
        batch_fault(v, ops, k) == batch_fault(v, ops, j),
    decreases k,
{
    if j < k {
        lemma_batch_fault_stays(v, ops, j, k - 1);
    }
}

proof fn lemma_submission_fault_stays(v: DeviceView, ops: Seq<ComputeOpView>, j: int, k: int)
    requires
        0 <= j <= k,
        submission_fault(v, ops, j) is Some,
    ensures
        submission_fault(v, ops, k) == submission_fault(v, ops, j),
    decreases k,
{
    if j < k {
        lemma_submission_fault_stays(v, ops, j, k - 1);
    }
}

impl VulkanDevice {
    /// Checks a batch of dispatches and plans its commands. The first fault refuses the whole
    /// batch.
    fn plan_batch(&self, ops: &Vec<DispatchOp>, order: ByteOrder) -> (r: Result<
        Vec<Command>,
        GpuError,
    >)
        requires
            self@.wf(),
        ensures
            match r {
                Ok(commands) => batch_fault(self@, op_views(ops@), ops.len() as int) is None
                    && command::command_views(commands@) == batch_commands(
                    self@,
                    op_views(ops@),
                    order,
                    ops.len() as int,
                ),
                Err(e) => batch_fault(self@, op_views(ops@), ops.len() as int) == Some(e@),
            },
    {
        let ghost views = op_views(ops@);
        let mut out: Vec<Command> = Vec::new();
        let n: usize = ops.len();
        let mut i: usize = 0;
        assert(command::command_views(out@) =~= batch_commands(self@, views, order, 0));
        while i < n
            invariant
                self@.wf(),
                n == ops.len(),
                i <= n,
                views == op_views(ops@),
                batch_fault(self@, views, i as int) is None,
                command::command_views(out@) == batch_commands(
                    self@,
                    views,
                    order,
                    i as int,
                ),
            decreases n - i,
        {
            let ghost before = out@;
            if i != 0 {
                out.push(
                    CommandOf::MemoryBarrier {
                        src_stages: vk::PIPELINE_STAGE_COMPUTE_SHADER,
                        dst_stages: vk::PIPELINE_STAGE_COMPUTE_SHADER,
                        memory: vk::MemoryBarrier {
                            src_access_mask: vk::ACCESS_SHADER_WRITE,
                            dst_access_mask: vk::ACCESS_SHADER_READ | vk::ACCESS_SHADER_WRITE,
                        },
                    },
                );
            }
            assert(command::command_views(out@) =~= command::command_views(before)
                + between(i as int, dispatch_barrier()));
            assert(views[i as int] == ops@[i as int]@);
            let planned = plan_dispatch(self, &ops[i], order, false, &mut out);
            assert(batch_fault(self@, views, i + 1) == dispatch_fault(self@, views[i as int]));
            if let Err(e) = planned {
                proof {
                    lemma_batch_fault_stays(self@, views, i + 1, n as int);
                }
                return Err(e);
            }
            i += 1;
        }
        Ok(out)
    }

    /// Checks a list of copies and dispatches and plans its commands. The first fault refuses
    /// the whole list.
    fn plan_compute_ops(&self, ops: &Vec<ComputeOp>, order: ByteOrder) -> (r: Result<
        Vec<Command>,
        GpuError,
    >)
        requires
            self@.wf(),
        ensures
            match r {
                Ok(commands) => submission_fault(self@, mixed_views(ops@), ops.len() as int) is None
                    && command::command_views(commands@) == submission_commands(
                    self@,
                    mixed_views(ops@),
                    order,
                    ops.len() as int,
                ),
                Err(e) => submission_fault(self@, mixed_views(ops@), ops.len() as int) == Some(
                    e@,
                ),
            },
    {
        let ghost views = mixed_views(ops@);
        let mut out: Vec<Command> = Vec::new();
        let n: usize = ops.len();
        let mut i: usize = 0;
        assert(command::command_views(out@) =~= submission_commands(self@, views, order, 0));
        while i < n
            invariant
                self@.wf(),
                n == ops.len(),
                i <= n,
                views == mixed_views(ops@),
                submission_fault(self@, views, i as int) is None,
                command::command_views(out@) == submission_commands(
                    self@,
                    views,
                    order,
                    i as int,
                ),
            decreases n - i,
        {
            let ghost before = out@;
            if i != 0 {
                out.push(
                    CommandOf::MemoryBarrier {
                        src_stages: vk::PIPELINE_STAGE_COMPUTE_SHADER | vk::PIPELINE_STAGE_TRANSFER,
                        dst_stages: vk::PIPELINE_STAGE_COMPUTE_SHADER | vk::PIPELINE_STAGE_TRANSFER,
                        memory: vk::MemoryBarrier {
                            src_access_mask: vk::ACCESS_SHADER_WRITE | vk::ACCESS_TRANSFER_WRITE,
                            dst_access_mask: vk::ACCESS_SHADER_READ | vk::ACCESS_SHADER_WRITE
                                | vk::ACCESS_TRANSFER_READ | vk::ACCESS_TRANSFER_WRITE,
                        },
                    },
                );
            }
            assert(command::command_views(out@) =~= command::command_views(before)
                + between(i as int, mixed_barrier()));
            assert(views[i as int] == ops@[i as int]@);
            let planned = match &ops[i] {
                ComputeOp::CopyBuffer(copy) => plan_copy(self, copy, &mut out),
                ComputeOp::Dispatch(op) => plan_dispatch(self, op, order, true, &mut out),
            };
            assert(submission_fault(self@, views, i + 1) == mixed_fault(self@, views[i as int]));
            if let Err(e) = planned {
                proof {
                    lemma_submission_fault_stays(self@, views, i + 1, n as int);
                }
                return Err(e);
            }
            i += 1;
        }
        Ok(out)
    }

    /// Checks one dispatch and plans its commands.
    pub fn dispatch(
        &self,
        pipeline: PipelineHandle,
        bindings: Bindings,
        grid: [u32; 3],
        order: ByteOrder,
    ) -> (r: Result<Vec<Command>, GpuError>)
        requires
            self@.wf(),
        ensures
            ({
                let op = DispatchOpView { pipeline, bindings: bindings@, grid: grid@ };
                match r {
                    Ok(commands) => dispatch_fault(self@, op) is None && command::command_views(
                        commands@,
                    ) == dispatch_commands(self@, op, order),
                    Err(e) => dispatch_fault(self@, op) == Some(e@),
                }
            }),
    {
        let ghost op = DispatchOpView { pipeline, bindings: bindings@, grid: grid@ };
        let mut ops: Vec<DispatchOp> = Vec::new();
        ops.push(DispatchOp { pipeline, bindings, grid });
        let r = self.plan_batch(&ops, order);
        proof {
            let views = op_views(ops@);
            assert(views[0] == op);
            assert(batch_fault(self@, views, 0) is None);
            assert(batch_fault(self@, views, 1) == dispatch_fault(self@, op));
            assert(batch_commands(self@, views, order, 0) =~= Seq::empty());
            assert(batch_commands(self@, views, order, 1) =~= dispatch_commands(
                self@,
                op,
                order,
            ));
        }
        r
    }

    /// Checks a batch of dispatches that is waited for, and plans its commands. The first fault
    /// refuses the whole batch. `None` stands for an empty batch, which needs no submission.
    pub fn dispatch_batch(&self, ops: &Vec<DispatchOp>, order: ByteOrder) -> (r: Result<
        Option<Vec<Command>>,
        GpuError,
    >)
        requires
            self@.wf(),
        ensures
            match r {
                Ok(None) => ops.len() == 0,
                Ok(Some(commands)) => ops.len() > 0 && batch_fault(
                    self@,
                    op_views(ops@),
                    ops.len() as int,
                ) is None && command::command_views(commands@) == batch_commands(
                    self@,
                    op_views(ops@),
                    order,
                    ops.len() as int,
                ),
                Err(e) => batch_fault(self@, op_views(ops@), ops.len() as int) == Some(e@),
            },
    {
        if ops.len() == 0 {
            return Ok(None);
        }
        match self.plan_batch(ops, order) {
            Ok(commands) => Ok(Some(commands)),
            Err(e) => Err(e),
        }
    }

    /// Checks a batch of dispatches that is submitted asynchronously, and plans its commands.
    /// The first fault refuses the whole batch. An empty batch is done at once.
    pub fn submit_batch(&self, cycle_id: u64, ops: &Vec<DispatchOp>, order: ByteOrder) -> (r:
        Result<AsyncPlan, GpuError>)
        requires
            self@.wf(),
        ensures
            match r {
                Ok(AsyncPlan::Done(s)) => ops.len() == 0 && s@ == (SubmissionView {
                    cycle_id,
                    state: None,
                }),
                Ok(AsyncPlan::Record(commands)) => ops.len() > 0 && batch_fault(
                    self@,
                    op_views(ops@),
                    ops.len() as int,
                ) is None && command::command_views(commands@) == batch_commands(
                    self@,
                    op_views(ops@),
                    order,
                    ops.len() as int,
                ),
                Err(e) => batch_fault(self@, op_views(ops@), ops.len() as int) == Some(e@),
            },
    {
        if ops.len() == 0 {
            return Ok(AsyncPlan::Done(VulkanSubmission::done(cycle_id)));
        }
        match self.plan_batch(ops, order) {
            Ok(commands) => Ok(AsyncPlan::Record(commands)),
            Err(e) => Err(e),
        }
    }

    /// Checks a list of copies and dispatches that is submitted asynchronously, and plans its
    /// commands. The first fault refuses the whole list. An empty list is done at once; a list of
    /// empty copies is submitted all the same.
    pub fn submit_compute_ops(&self, cycle_id: u64, ops: &Vec<ComputeOp>, order: ByteOrder) -> (r:
        Result<AsyncPlan, GpuError>)
        requires
            self@.wf(),
        ensures
            match r {
                Ok(AsyncPlan::Done(s)) => ops.len() == 0 && s@ == (SubmissionView {
                    cycle_id,
                    state: None,
                }),
                Ok(AsyncPlan::Record(commands)) => ops.len() > 0 && submission_fault(
                    self@,
                    mixed_views(ops@),
                    ops.len() as int,
                ) is None && command::command_views(commands@) == submission_commands(
                    self@,
                    mixed_views(ops@),
                    order,
                    ops.len() as int,
                ),
                Err(e) => submission_fault(self@, mixed_views(ops@), ops.len() as int) == Some(
                    e@,
                ),
            },
    {
        if ops.len() == 0 {
            return Ok(AsyncPlan::Done(VulkanSubmission::done(cycle_id)));
        }
        match self.plan_compute_ops(ops, order) {
            Ok(commands) => Ok(AsyncPlan::Record(commands)),
            Err(e) => Err(e),
        }
    }

    /// Checks a copy between buffers and plans its command. `None` stands for an empty copy,
    /// which needs no submission.
    pub fn copy_buffer(&self, op: &BufferCopyOp) -> (r: Result<Option<Command>, GpuError>)
        ensures
            match r {
                Ok(None) => copy_fault(self@, *op) is None && op.len == 0,
                Ok(Some(command)) => copy_fault(self@, *op) is None && op.len != 0 && seq![
                    command@,
                ] == copy_commands(self@, *op),
                Err(e) => copy_fault(self@, *op) == Some(e@),
            },
    {
        if self.in_flight != 0 {
            return Err(
                mismatch(
                    "copy_buffer cannot run while an asynchronous submission is pending".to_owned(),
                ),
            );
        }
        let src = match self.buffers.get(op.src) {
            Some(b) => b,
            None => {
                return Err(stale(&self.buffers, op.src));
            },
        };
        let dst = match self.buffers.get(op.dst) {
            Some(b) => b,
            None => {
                return Err(stale(&self.buffers, op.dst));
            },
        };
        if !src.usage.contains(BUFFER_TRANSFER_SRC) {
            return Err(missing_usage("source buffer", "TRANSFER_SRC"));
        }
        if !dst.usage.contains(BUFFER_TRANSFER_DST) {
            return Err(missing_usage("destination buffer", "TRANSFER_DST"));
        }
        if op.src.same(&op.dst) {
            return Err(
                mismatch(
                    "copy_buffer requires distinct source and destination buffers".to_owned(),
                ),
            );
        }
        if let Err(e) = check_copy_ranges(op, &src, &dst) {
            return Err(e);
        }
        if op.len == 0 {
            return Ok(None);
        }
        Ok(
            Some(
                CommandOf::CopyBuffer {
                    src: src.buffer,
                    dst: dst.buffer,
                    src_offset: op.src_offset,
                    dst_offset: op.dst_offset,
                    size: op.len,
                },
            ),
        )
    }
}

// ── Laws ───────────────────────────────────────────────────────────────────────

/// A dispatch is accepted in a batch if and only if it is accepted in a mixed submission.
pub proof fn dispatch_checks_agree(v: DeviceView, op: DispatchOpView)
    ensures
        dispatch_fault(v, op) is None <==> mixed_dispatch_fault(v, op) is None,
{
    let b = op.bindings;
    lemma_same_acceptance(
        b.buffers,
        |idx: u32| buffer_fault(v, idx),
        |idx: u32| mixed_buffer_fault(v, idx),
        b.buffers.len() as int,
    );
    lemma_same_acceptance(
        b.textures,
        |idx: u32| texture_fault(v, idx),
        |idx: u32| mixed_texture_fault(v, idx),
        b.textures.len() as int,
    );
}

proof fn lemma_same_acceptance(
    bindings: Seq<u32>,
    f: spec_fn(u32) -> Option<GpuErrorView>,
    g: spec_fn(u32) -> Option<GpuErrorView>,
    k: int,
)
    requires
        forall|idx: u32| (#[trigger] f(idx)) is None <==> g(idx) is None,
    ensures
        first_fault(bindings, f, k) is None <==> first_fault(bindings, g, k) is None,
    decreases k,
{
    if k > 0 {
        lemma_same_acceptance(bindings, f, g, k - 1);
        assert(f(bindings[k - 1]) is None <==> g(bindings[k - 1]) is None);
    }
}

/// A copy on its own is accepted if and only if nothing is in flight and a mixed submission
/// would accept it.
pub proof fn copy_checks_agree(v: DeviceView, op: BufferCopyOp)
    ensures
        copy_fault(v, op) is None <==> v.in_flight == 0 && mixed_copy_fault(v, op) is None,
{
}

/// An accepted copy reads and writes inside two different buffers that allow it.
pub proof fn accepted_copy_is_in_bounds(v: DeviceView, op: BufferCopyOp)
    requires
        mixed_copy_fault(v, op) is None,
    ensures
        v.buffers.live(op.src),
        v.buffers.live(op.dst),
        op.src != op.dst,
        v.buffers.value(op.src).usage.has(BUFFER_TRANSFER_SRC),
        v.buffers.value(op.dst).usage.has(BUFFER_TRANSFER_DST),
        op.src_offset + op.len <= v.buffers.value(op.src).size,
        op.dst_offset + op.len <= v.buffers.value(op.dst).size,
{
}

/// Every binding of an accepted dispatch refers to a live storage buffer or a bound texture
/// inside the bindless tables.
pub proof fn accepted_dispatch_is_bound(v: DeviceView, op: DispatchOpView, i: int)
    requires
        dispatch_fault(v, op) is None,
    ensures
        0 <= i < op.bindings.buffers.len() ==> {
            let idx = op.bindings.buffers[i];
            idx < v.bindless.buffer_capacity && v.buffers.occupied(idx as int) && v.buffers.at(
                idx as int,
            ).usage.has(BUFFER_STORAGE)
        },
        0 <= i < op.bindings.textures.len() ==> {
            let idx = op.bindings.textures[i];
            idx < v.bindless.texture_capacity && v.textures.occupied(idx as int)
                && v.bound_textures[idx as int]
        },
        v.pipelines.live(op.pipeline),
        v.pipelines.value(op.pipeline) is Compute,
{
    let b = op.bindings;
    if 0 <= i < b.buffers.len() {
        lemma_no_fault_at(
            b.buffers,
            |idx: u32| buffer_fault(v, idx),
            b.buffers.len() as int,
            i,
        );
    }
    if 0 <= i < b.textures.len() {
        lemma_no_fault_at(
            b.textures,
            |idx: u32| texture_fault(v, idx),
            b.textures.len() as int,
            i,
        );
    }
}

proof fn lemma_no_fault_at(
    bindings: Seq<u32>,
    fault: spec_fn(u32) -> Option<GpuErrorView>,
    k: int,
    i: int,
)
    requires
        0 <= i < k,
        first_fault(bindings, fault, k) is None,
    ensures
        fault(bindings[i]) is None,
    decreases k,
{
    if i < k - 1 {
        lemma_no_fault_at(bindings, fault, k - 1, i);
    }
}

/// In the commands of a batch, the commands of each dispatch but the first follow a barrier
/// that comes after the commands of all earlier dispatches.
pub proof fn batch_is_separated_by_barriers(
    v: DeviceView,
    ops: Seq<DispatchOpView>,
    order: ByteOrder,
    n: int,
    j: int,
)
    requires
        0 < j < n,
    ensures
        ({
            let all = batch_commands(v, ops, order, n);
            let earlier = batch_commands(v, ops, order, j);
            let own = dispatch_commands(v, ops[j], order);
            let at = earlier.len() as int;
            &&& at + 1 + own.len() <= all.len()
            &&& all.take(at) == earlier
            &&& all[at] == dispatch_barrier()
            &&& all.subrange(at + 1, at + 1 + own.len()) == own
        }),
    decreases n,
{
    let all = batch_commands(v, ops, order, n);
    let earlier = batch_commands(v, ops, order, j);
    let own = dispatch_commands(v, ops[j], order);
    let at = earlier.len() as int;
    if j == n - 1 {
        assert(all.take(at) =~= earlier);
        assert(all.subrange(at + 1, at + 1 + own.len()) =~= own);
    } else {
        batch_is_separated_by_barriers(v, ops, order, n - 1, j);
        let shorter = batch_commands(v, ops, order, n - 1);
        assert(all.take(at) =~= shorter.take(at));
        assert(all.subrange(at + 1, at + 1 + own.len()) =~= shorter.subrange(
            at + 1,
            at + 1 + own.len(),
        ));
    }
}

/// In the commands of a mixed submission, the commands of each operation but the first follow
/// a barrier that comes after the commands of all earlier operations.
pub proof fn submission_is_separated_by_barriers(
    v: DeviceView,
    ops: Seq<ComputeOpView>,
    order: ByteOrder,
    n: int,
    j: int,
)
    requires
        0 < j < n,
    ensures
        ({
            let all = submission_commands(v, ops, order, n);
            let earlier = submission_commands(v, ops, order, j);
            let own = mixed_commands(v, ops[j], order);
            let at = earlier.len() as int;
            &&& at + 1 + own.len() <= all.len()
            &&& all.take(at) == earlier
            &&& all[at] == mixed_barrier()
            &&& all.subrange(at + 1, at + 1 + own.len()) == own
        }),
    decreases n,
{
    let all = submission_commands(v, ops, order, n);
    let earlier = submission_commands(v, ops, order, j);
    let own = mixed_commands(v, ops[j], order);
    let at = earlier.len() as int;
    if j == n - 1 {
        assert(all.take(at) =~= earlier);
        assert(all.subrange(at + 1, at + 1 + own.len()) =~= own);
    } else {
        submission_is_separated_by_barriers(v, ops, order, n - 1, j);
        let shorter = submission_commands(v, ops, order, n - 1);
        assert(all.take(at) =~= shorter.take(at));
        assert(all.subrange(at + 1, at + 1 + own.len()) =~= shorter.subrange(
            at + 1,
            at + 1 + own.len(),
        ));
    }
}

/// One thing that recorded commands make the GPU do.
pub enum Work {
    /// Workgroups of the bound compute pipeline are launched.
    Launch { pipeline: u64, set: u64, layout: u64, constants: Seq<u8>, x: u32, y: u32, z: u32 },
    /// Bytes are copied between two buffers.
    Copy { src: u64, dst: u64, src_offset: u64, dst_offset: u64, size: u64 },
}

/// What the GPU has been made to do so far, and what is bound.
pub struct Replay {
    pub pipeline: u64,
    pub set: u64,
    pub layout: u64,
    pub constants: Seq<u8>,
    pub work: Seq<Work>,
    /// `synced[i]`: all that was done before the work at `i` is visible to it.
    pub synced: Seq<bool>,
    /// A barrier has been recorded since the last work, or there has been none.
    pub fresh: bool,
}

/// The bits of `wanted` are all set in `bits`.
pub open spec fn covers(bits: u32, wanted: u32) -> bool {
    bits & wanted == wanted
}

/// A barrier after which compute shaders and, where `copies`, transfers see all that compute
/// shaders and, where `copies`, transfers have written before it.
pub open spec fn makes_visible(
    src_stages: u32,
    dst_stages: u32,
    memory: vk::MemoryBarrier,
    copies: bool,
) -> bool {
    &&& covers(src_stages, vk::PIPELINE_STAGE_COMPUTE_SHADER)
    &&& covers(dst_stages, vk::PIPELINE_STAGE_COMPUTE_SHADER)
    &&& covers(memory.src_access_mask, vk::ACCESS_SHADER_WRITE)
    &&& covers(memory.dst_access_mask, vk::ACCESS_SHADER_READ)
    &&& covers(memory.dst_access_mask, vk::ACCESS_SHADER_WRITE)
    &&& copies ==> {
        &&& covers(src_stages, vk::PIPELINE_STAGE_TRANSFER)
        &&& covers(dst_stages, vk::PIPELINE_STAGE_TRANSFER)
        &&& covers(memory.src_access_mask, vk::ACCESS_TRANSFER_WRITE)
        &&& covers(memory.dst_access_mask, vk::ACCESS_TRANSFER_READ)
        &&& covers(memory.dst_access_mask, vk::ACCESS_TRANSFER_WRITE)
    }
}

/// The GPU after one more command. Only what is bound for compute, and only constants that the
/// compute stage sees, count for a launch.
pub open spec fn replay_one(r: Replay, c: CommandView, copies: bool) -> Replay {
    match c {
        CommandOf::BindPipeline { bind_point, pipeline } => if bind_point
            == vk::PIPELINE_BIND_POINT_COMPUTE {
            Replay { pipeline, ..r }
        } else {
            r
        },
        CommandOf::BindDescriptorSet { bind_point, layout, set } => if bind_point
            == vk::PIPELINE_BIND_POINT_COMPUTE {
            Replay { set, layout, ..r }
        } else {
            r
        },
        CommandOf::PushConstants { layout, stages, bytes } => if stages == vk::SHADER_STAGE_COMPUTE
            && layout == r.layout {
            Replay { constants: bytes, ..r }
        } else {
            r
        },
        CommandOf::Dispatch { x, y, z } => Replay {
            work: r.work.push(
                Work::Launch {
                    pipeline: r.pipeline,
                    set: r.set,
                    layout: r.layout,
                    constants: r.constants,
                    x,
                    y,
                    z,
                },
            ),
            synced: r.synced.push(r.fresh),
            fresh: false,
            ..r
        },
        CommandOf::CopyBuffer { src, dst, src_offset, dst_offset, size } => Replay {
            work: r.work.push(Work::Copy { src, dst, src_offset, dst_offset, size }),
            synced: r.synced.push(r.fresh),
            fresh: false,
            ..r
        },
        CommandOf::MemoryBarrier { src_stages, dst_stages, memory } => Replay {
            fresh: r.fresh || makes_visible(src_stages, dst_stages, memory, copies),
            ..r
        },
        _ => r,
    }
}

/// The GPU after the first `k` commands.
pub open spec fn replay(r: Replay, commands: Seq<CommandView>, k: int, copies: bool) -> Replay
    decreases k,
{
    if k <= 0 {
        r
    } else {
        replay_one(replay(r, commands, k - 1, copies), commands[k - 1], copies)
    }
}

/// The GPU after all of the commands.
pub open spec fn replayed(r: Replay, commands: Seq<CommandView>, copies: bool) -> Replay {
    replay(r, commands, commands.len() as int, copies)
}

/// GPU that has nothing to do yet.
pub open spec fn idle() -> Replay {
    Replay {
        pipeline: 0,
        set: 0,
        layout: 0,
        constants: Seq::empty(),
        work: Seq::empty(),
        synced: Seq::empty(),
        fresh: true,
    }
}

proof fn lemma_replay_split(
    r: Replay,
    a: Seq<CommandView>,
    b: Seq<CommandView>,
    k: int,
    copies: bool,
)
    requires
        0 <= k <= b.len(),
    ensures
        replay(r, a + b, a.len() + k, copies) == replay(replayed(r, a, copies), b, k, copies),
    decreases k,
{
    if k == 0 {
        lemma_replay_prefix(r, a, a + b, a.len() as int, copies);
    } else {
        lemma_replay_split(r, a, b, k - 1, copies);
        assert((a + b)[a.len() + k - 1] == b[k - 1]);
    }
}

proof fn lemma_replay_prefix(
    r: Replay,
    a: Seq<CommandView>,
    b: Seq<CommandView>,
    k: int,
    copies: bool,
)
    requires
        k <= a.len(),
        k <= b.len(),
        forall|i: int| 0 <= i < k ==> #[trigger] a[i] == b[i],
    ensures
        replay(r, a, k, copies) == replay(r, b, k, copies),
    decreases k,
{
    if k > 0 {
        lemma_replay_prefix(r, a, b, k - 1, copies);
        assert(a[k - 1] == b[k - 1]);
    }
}

proof fn lemma_replay_concat(r: Replay, a: Seq<CommandView>, b: Seq<CommandView>, copies: bool)
    ensures
        replayed(r, a + b, copies) == replayed(replayed(r, a, copies), b, copies),
{
    lemma_replay_split(r, a, b, b.len() as int, copies);
}

/// `w` launches, for the dispatch `op`, the pipeline and the tables of the device on as many
/// workgroups as the grid has, in each of its three directions; the shader reads the buffer
/// indices and the scalars of the bindings.
pub open spec fn launches(v: DeviceView, op: DispatchOpView, order: ByteOrder, w: Work) -> bool {
    let n = op.bindings.buffers.len() as int;
    let m = op.bindings.scalars.len() as int;
    match (w, v.pipelines.value(op.pipeline)) {
        (
            Work::Launch { pipeline, set, layout, constants, x, y, z },
            VulkanPipeline::Compute { layout: own_layout, pipeline: own_pipeline },
        ) => {
            &&& pipeline == own_pipeline
            &&& layout == own_layout
            &&& set == v.bindless.set
            &&& x == op.grid[0]
            &&& y == op.grid[1]
            &&& z == op.grid[2]
            &&& n + m > 0 ==> constants.len() == 4 * (n + m)
            &&& forall|i: int|
                0 <= i < n ==> constants::spells(
                    order,
                    constants,
                    i,
                    #[trigger] op.bindings.buffers[i] as int,
                )
            &&& forall|i: int|
                0 <= i < m ==> constants::spells(
                    order,
                    constants,
                    n + i,
                    constants::scalar_bits(#[trigger] op.bindings.scalars[i]),
                )
        },
        _ => false,
    }
}

/// `w` copies, for the copy `op`, its bytes from the source at its offset to the destination
/// at its offset.
pub open spec fn copies_for(v: DeviceView, op: BufferCopyOp, w: Work) -> bool {
    match w {
        Work::Copy { src, dst, src_offset, dst_offset, size } => {
            &&& src == v.buffers.value(op.src).buffer
            &&& dst == v.buffers.value(op.dst).buffer
            &&& src_offset == op.src_offset
            &&& dst_offset == op.dst_offset
            &&& size == op.len
        },
        _ => false,
    }
}

proof fn lemma_dispatch_replay(
    v: DeviceView,
    op: DispatchOpView,
    order: ByteOrder,
    r: Replay,
    copies: bool,
)
    requires
        v.pipelines.value(op.pipeline) is Compute,
    ensures
        ({
            let after = replayed(r, dispatch_commands(v, op, order), copies);
            &&& after.work.len() == r.work.len() + 1
            &&& after.work.drop_last() == r.work
            &&& after.synced == r.synced.push(r.fresh)
            &&& !after.fresh
            &&& launches(v, op, order, after.work.last())
        }),
{
    let cmds = dispatch_commands(v, op, order);
    let after = replayed(r, cmds, copies);
    let words = constants::compute_words(op.bindings);
    reveal_with_fuel(replay, 5);
    constants::compute_constants_are_spelled(order, op.bindings);
    assert(words.len() == op.bindings.buffers.len() + op.bindings.scalars.len());
    if words.len() == 0 {
        assert(cmds.len() == 3);
    } else {
        assert(cmds.len() == 4);
        assert(cmds[2] is PushConstants);
    }
    assert(after.work.drop_last() =~= r.work);
}

/// An accepted dispatch records exactly one launch, as its last command: it has the three
/// dimensions of the grid in their order, so that it launches as many workgroups as their
/// product. Replayed, it runs the dispatch's own pipeline on the bindless tables with the
/// constants of its bindings, whatever was bound before.
pub proof fn dispatch_launches_its_grid(
    v: DeviceView,
    op: DispatchOpView,
    order: ByteOrder,
    r: Replay,
)
    requires
        dispatch_fault(v, op) is None,
    ensures
        ({
            let cmds = dispatch_commands(v, op, order);
            &&& cmds.len() > 0
            &&& cmds.last() == (CommandView::Dispatch {
                x: op.grid[0],
                y: op.grid[1],
                z: op.grid[2],
            })
            &&& forall|i: int|
                0 <= i < cmds.len() - 1 ==> !(#[trigger] cmds[i] is Dispatch)
            &&& cmds.last() matches CommandOf::Dispatch { x, y, z } && x * y * z == op.grid[0]
                * op.grid[1] * op.grid[2]
            &&& replayed(r, cmds, false).work.len() == r.work.len() + 1
            &&& replayed(r, cmds, false).work.drop_last() == r.work
            &&& launches(v, op, order, replayed(r, cmds, false).work.last())
        }),
{
    accepted_dispatch_is_bound(v, op, 0);
    lemma_dispatch_replay(v, op, order, r, false);
}

/// A batch makes the GPU do exactly its dispatches, in their order, and each of them sees all
/// that the earlier ones have written.
pub proof fn batch_does_its_dispatches(
    v: DeviceView,
    ops: Seq<DispatchOpView>,
    order: ByteOrder,
    n: int,
)
    requires
        0 <= n <= ops.len(),
        batch_fault(v, ops, n) is None,
    ensures
        ({
            let done = replayed(idle(), batch_commands(v, ops, order, n), false);
            &&& done.work.len() == n
            &&& done.synced.len() == n
            &&& forall|j: int| 0 <= j < n ==> launches(v, #[trigger] ops[j], order, done.work[j])
            &&& forall|j: int| 0 <= j < n ==> #[trigger] done.synced[j]
        }),
    decreases n,
{
    let all = batch_commands(v, ops, order, n);
    if n > 0 {
        let shorter = batch_commands(v, ops, order, n - 1);
        let barrier = between(n - 1, dispatch_barrier());
        let own = dispatch_commands(v, ops[n - 1], order);
        batch_does_its_dispatches(v, ops, order, n - 1);
        accepted_dispatch_is_bound(v, ops[n - 1], 0);
        let before = replayed(idle(), shorter, false);
        let between_them = replayed(before, barrier, false);
        lemma_replay_concat(idle(), shorter, barrier, false);
        lemma_replay_concat(idle(), shorter + barrier, own, false);
        lemma_dispatch_replay(v, ops[n - 1], order, between_them, false);
        lemma_barriers_make_visible();
        reveal_with_fuel(replay, 2);
        let done = replayed(idle(), all, false);
        assert(between_them.work == before.work && between_them.synced == before.synced
            && between_them.fresh);
        assert(done == replayed(between_them, own, false));
        assert(done.work.drop_last() == before.work);
        assert(done.synced == before.synced.push(true));
        assert(done.work.len() == n && done.synced.len() == n);
        assert forall|j: int| 0 <= j < n implies launches(
            v,
            #[trigger] ops[j],
            order,
            done.work[j],
        ) by {
            if j < n - 1 {
                assert(done.work[j] == done.work.drop_last()[j]);
            }
        }
    }
}

proof fn lemma_barriers_make_visible()
    ensures
        dispatch_barrier() matches CommandOf::MemoryBarrier { src_stages, dst_stages, memory }
            && makes_visible(src_stages, dst_stages, memory, false),
        mixed_barrier() matches CommandOf::MemoryBarrier { src_stages, dst_stages, memory }
            && makes_visible(src_stages, dst_stages, memory, true),
{
    assert(0x800u32 & 0x800 == 0x800 && 0x40u32 & 0x40 == 0x40 && (0x20u32 | 0x40) & 0x20 == 0x20
        && (0x20u32 | 0x40) & 0x40 == 0x40 && (0x800u32 | 0x1000) & 0x800 == 0x800 && (0x800u32
        | 0x1000) & 0x1000 == 0x1000 && (0x40u32 | 0x1000) & 0x40 == 0x40 && (0x40u32 | 0x1000)
        & 0x1000 == 0x1000 && (0x20u32 | 0x40 | 0x800 | 0x1000) & 0x20 == 0x20 && (0x20u32 | 0x40
        | 0x800 | 0x1000) & 0x40 == 0x40 && (0x20u32 | 0x40 | 0x800 | 0x1000) & 0x800 == 0x800 && (
    0x20u32 | 0x40 | 0x800 | 0x1000) & 0x1000 == 0x1000) by (bit_vector);
}

/// The operation makes the GPU do something: only an empty copy does not.
pub open spec fn does_work(op: ComputeOpView) -> bool {
    match op {
        ComputeOpView::CopyBuffer(copy) => copy.len > 0,
        ComputeOpView::Dispatch(_) => true,
    }
}

/// How many of the first `k` operations make the GPU do something.
pub open spec fn work_count(ops: Seq<ComputeOpView>, k: int) -> int
    decreases k,
{
    if k <= 0 {
        0
    } else {
        work_count(ops, k - 1) + if does_work(ops[k - 1]) {
            1int
        } else {
            0
        }
    }
}

/// `w` is what the operation `op` makes the GPU do.
pub open spec fn works_for(v: DeviceView, op: ComputeOpView, order: ByteOrder, w: Work) -> bool {
    match op {
        ComputeOpView::CopyBuffer(copy) => copies_for(v, copy, w),
        ComputeOpView::Dispatch(op) => launches(v, op, order, w),
    }
}

proof fn lemma_work_count_grows(ops: Seq<ComputeOpView>, j: int, k: int)
    requires
        0 <= j <= k,
    ensures
        0 <= work_count(ops, j) <= work_count(ops, k),
        j < k && does_work(ops[j]) ==> work_count(ops, j) < work_count(ops, k),
    decreases k,
{
    if j < k {
        lemma_work_count_grows(ops, j, k - 1);
    } else if k > 0 {
        lemma_work_count_grows(ops, k - 1, k - 1);
    }
}

/// A mixed submission makes the GPU do exactly its dispatches and its copies that are not
/// empty, in their order, and each of them sees all that the earlier ones have written.
pub proof fn submission_does_its_operations(
    v: DeviceView,
    ops: Seq<ComputeOpView>,
    order: ByteOrder,
    n: int,
)
    requires
        0 <= n <= ops.len(),
        submission_fault(v, ops, n) is None,
    ensures
        ({
            let done = replayed(idle(), submission_commands(v, ops, order, n), true);
            &&& done.work.len() == work_count(ops, n)
            &&& done.synced.len() == work_count(ops, n)
            &&& forall|j: int|
                0 <= j < n && does_work(#[trigger] ops[j]) ==> works_for(
                    v,
                    ops[j],
                    order,
                    done.work[work_count(ops, j)],
                ) && done.synced[work_count(ops, j)]
        }),
    decreases n,
{
    let all = submission_commands(v, ops, order, n);
    if n > 0 {
        let shorter = submission_commands(v, ops, order, n - 1);
        let barrier = between(n - 1, mixed_barrier());
        let own = mixed_commands(v, ops[n - 1], order);
        submission_does_its_operations(v, ops, order, n - 1);
        let before = replayed(idle(), shorter, true);
        let between_them = replayed(before, barrier, true);
        lemma_replay_concat(idle(), shorter, barrier, true);
        lemma_replay_concat(idle(), shorter + barrier, own, true);
        lemma_barriers_make_visible();
        reveal_with_fuel(replay, 2);
        assert(between_them.work == before.work && between_them.synced == before.synced
            && between_them.fresh);
        let done = replayed(idle(), all, true);
        assert(done == replayed(between_them, own, true));
        match ops[n - 1] {
            ComputeOpView::CopyBuffer(copy) => {
                if copy.len > 0 {
                    assert(own.len() == 1);
                    assert(done == replay_one(between_them, own[0], true));
                    assert(done.work.drop_last() =~= between_them.work);
                } else {
                    assert(own.len() == 0);
                }
            },
            ComputeOpView::Dispatch(op) => {
                dispatch_checks_agree(v, op);
                accepted_dispatch_is_bound(v, op, 0);
                lemma_dispatch_replay(v, op, order, between_them, true);
            },
        }
        assert forall|j: int| 0 <= j < n && does_work(#[trigger] ops[j]) implies works_for(
            v,
            ops[j],
            order,
            done.work[work_count(ops, j)],
        ) && done.synced[work_count(ops, j)] by {
            lemma_work_count_grows(ops, j, n);
            if j < n - 1 {
                lemma_work_count_grows(ops, j, n - 1);
                if does_work(ops[n - 1]) {
                    assert(done.work[work_count(ops, j)] == done.work.drop_last()[work_count(
                        ops,
                        j,
                    )]);
                }
            }
        }
    }
}

/// A dispatch is accepted exactly where every dimension of its grid is at least one and at most
/// the device's limit, every buffer and texture binding can be used, its pipeline is a live
/// compute pipeline, and it pushes at most 128 bytes.
pub proof fn dispatch_is_accepted_iff(v: DeviceView, op: DispatchOpView)
    ensures
        dispatch_fault(v, op) is None <==> {
            let b = op.bindings;
            let limit = v.info.limits.max_dispatch_size@;
            &&& 1 <= op.grid[0] <= limit[0]
            &&& 1 <= op.grid[1] <= limit[1]
            &&& 1 <= op.grid[2] <= limit[2]
            &&& forall|i: int|
                0 <= i < b.buffers.len() ==> {
                    let idx = #[trigger] b.buffers[i];
                    &&& idx < v.bindless.buffer_capacity
                    &&& v.buffers.occupied(idx as int)
                    &&& covers(v.buffers.at(idx as int).usage.bits, BUFFER_STORAGE)
                }
            &&& forall|i: int|
                0 <= i < b.textures.len() ==> {
                    let idx = #[trigger] b.textures[i];
                    &&& idx < v.bindless.texture_capacity
                    &&& v.textures.occupied(idx as int)
                    &&& v.bound_textures[idx as int]
                }
            &&& v.pipelines.live(op.pipeline)
            &&& v.pipelines.value(op.pipeline) is Compute
            &&& 4 * (b.buffers.len() + b.scalars.len()) <= 128
        },
{
    let b = op.bindings;
    let f = |idx: u32| buffer_fault(v, idx);
    let g = |idx: u32| texture_fault(v, idx);
    constants::compute_constants_are_spelled(ByteOrder::Little, b);
    if dispatch_fault(v, op) is None {
        assert forall|i: int| 0 <= i < b.buffers.len() implies f(#[trigger] b.buffers[i]) is None by {
            lemma_no_fault_at(b.buffers, f, b.buffers.len() as int, i);
        }
        assert forall|i: int| 0 <= i < b.textures.len() implies g(
            #[trigger] b.textures[i],
        ) is None by {
            lemma_no_fault_at(b.textures, g, b.textures.len() as int, i);
        }
    }
    if forall|i: int| 0 <= i < b.buffers.len() ==> f(#[trigger] b.buffers[i]) is None {
        lemma_no_fault_up_to(b.buffers, f, b.buffers.len() as int);
    }
    if forall|i: int| 0 <= i < b.textures.len() ==> g(#[trigger] b.textures[i]) is None {
        lemma_no_fault_up_to(b.textures, g, b.textures.len() as int);
    }
}

proof fn lemma_no_fault_up_to(
    bindings: Seq<u32>,
    fault: spec_fn(u32) -> Option<GpuErrorView>,
    k: int,
)
    requires
        k <= bindings.len(),
        forall|i: int| 0 <= i < k ==> fault(#[trigger] bindings[i]) is None,
    ensures
        first_fault(bindings, fault, k) is None,
    decreases k,
{
    if k > 0 {
        lemma_no_fault_up_to(bindings, fault, k - 1);
        assert(fault(bindings[k - 1]) is None);
    }
}

/// A batch is accepted exactly where each of its dispatches is, and else it is refused for the
/// first that is not; the same holds of a mixed submission and its operations.
pub proof fn first_fault_refuses(
    v: DeviceView,
    batch: Seq<DispatchOpView>,
    mixed: Seq<ComputeOpView>,
)
    ensures
        match batch_fault(v, batch, batch.len() as int) {
            None => forall|j: int|
                0 <= j < batch.len() ==> dispatch_fault(v, #[trigger] batch[j]) is None,
            Some(e) => exists|j: int|
                0 <= j < batch.len() && dispatch_fault(v, #[trigger] batch[j]) == Some(e)
                    && forall|i: int|
                    0 <= i < j ==> dispatch_fault(v, #[trigger] batch[i]) is None,
        },
        match submission_fault(v, mixed, mixed.len() as int) {
            None => forall|j: int|
                0 <= j < mixed.len() ==> mixed_fault(v, #[trigger] mixed[j]) is None,
            Some(e) => exists|j: int|
                0 <= j < mixed.len() && mixed_fault(v, #[trigger] mixed[j]) == Some(e)
                    && forall|i: int| 0 <= i < j ==> mixed_fault(v, #[trigger] mixed[i]) is None,
        },
{
    lemma_batch_first_fault(v, batch, batch.len() as int);
    lemma_submission_first_fault(v, mixed, mixed.len() as int);
}

proof fn lemma_batch_first_fault(v: DeviceView, batch: Seq<DispatchOpView>, k: int)
    requires
        0 <= k <= batch.len(),
    ensures
        match batch_fault(v, batch, k) {
            None => forall|j: int| 0 <= j < k ==> dispatch_fault(v, #[trigger] batch[j]) is None,
            Some(e) => exists|j: int|
                0 <= j < k && dispatch_fault(v, #[trigger] batch[j]) == Some(e) && forall|i: int|
                    0 <= i < j ==> dispatch_fault(v, #[trigger] batch[i]) is None,
        },
    decreases k,
{
    if k > 0 {
        lemma_batch_first_fault(v, batch, k - 1);
        assert(batch[k - 1] == batch[k - 1]);
    }
}

proof fn lemma_submission_first_fault(v: DeviceView, mixed: Seq<ComputeOpView>, k: int)
    requires
        0 <= k <= mixed.len(),
    ensures
        match submission_fault(v, mixed, k) {
            None => forall|j: int| 0 <= j < k ==> mixed_fault(v, #[trigger] mixed[j]) is None,
            Some(e) => exists|j: int|
                0 <= j < k && mixed_fault(v, #[trigger] mixed[j]) == Some(e) && forall|i: int|
                    0 <= i < j ==> mixed_fault(v, #[trigger] mixed[i]) is None,
        },
    decreases k,
{
    if k > 0 {
        lemma_submission_first_fault(v, mixed, k - 1);
        assert(mixed[k - 1] == mixed[k - 1]);
    }
}

/// A copy is accepted in a mixed submission exactly where its two buffers are live, different,
/// allow it and hold its ranges. On its own it also waits for what is in flight.
pub proof fn copy_is_accepted_iff(v: DeviceView, op: BufferCopyOp)
    ensures
        mixed_copy_fault(v, op) is None <==> {
            &&& v.buffers.live(op.src)
            &&& v.buffers.live(op.dst)
            &&& op.src != op.dst
            &&& covers(v.buffers.value(op.src).usage.bits, BUFFER_TRANSFER_SRC)
            &&& covers(v.buffers.value(op.dst).usage.bits, BUFFER_TRANSFER_DST)
            &&& op.src_offset + op.len <= v.buffers.value(op.src).size
            &&& op.dst_offset + op.len <= v.buffers.value(op.dst).size
        },
        copy_fault(v, op) is None <==> v.in_flight == 0 && mixed_copy_fault(v, op) is None,
{
}

/// A copy on its own moves its bytes between its two buffers; an empty one records nothing.
pub proof fn copy_moves_its_bytes(v: DeviceView, op: BufferCopyOp, r: Replay)
    ensures
        op.len == 0 ==> copy_commands(v, op).len() == 0,
        op.len > 0 ==> {
            let done = replayed(r, copy_commands(v, op), true);
            &&& done.work.len() == r.work.len() + 1
            &&& copies_for(v, op, done.work.last())
        },
{
    reveal_with_fuel(replay, 2);
}

} // verus!
