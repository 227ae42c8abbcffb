//! Access to the raw handles of a device, for resources that are built on top of it, and one-shot
//! submissions.
//!
//! A one-shot submission has a command pool of its own. It goes through stages, with one Vulkan
//! call between any two; the pool is destroyed on every path.
use vstd::prelude::*;

use crate::calls;
use crate::calls::{call_result, VkCall};
use crate::command::Cleanup;
use crate::device::buffers::{unwind_one, Unwind, UnwindView};
use crate::device::{DeviceHandles, VulkanDevice};
use crate::error;
use crate::error::{backend_error, map_vk_err, GpuError};

verus! {

/// Raw handles of a device, what it supports, and the property flags of its memory types.
pub struct DeviceContext {
    handles: DeviceHandles,
    dual_src_blend: bool,
    fill_mode_non_solid: bool,
    memory_types: Vec<u32>,
}

/// Contents of a [`DeviceContext`].
#[verifier::ext_equal]
pub struct ContextView {
    pub handles: DeviceHandles,
    pub dual_src_blend: bool,
    pub fill_mode_non_solid: bool,
    pub memory_types: Seq<u32>,
}

impl View for DeviceContext {
    type V = ContextView;

    closed spec fn view(&self) -> ContextView {
        ContextView {
            handles: self.handles,
            dual_src_blend: self.dual_src_blend,
            fill_mode_non_solid: self.fill_mode_non_solid,
            memory_types: self.memory_types@,
        }
    }
}

fn copy_flags(flags: &Vec<u32>) -> (out: Vec<u32>)
    ensures
        out@ == flags@,
{
    let mut out: Vec<u32> = Vec::new();
    let n: usize = flags.len();
    let mut i: usize = 0;
    while i < n
        invariant
            n == flags.len(),
            i <= n,
            out@ == flags@.take(i as int),
        decreases n - i,
    {
        out.push(flags[i]);
        i += 1;
        assert(out@ =~= flags@.take(i as int));
    }
    assert(flags@.take(n as int) =~= flags@);
    out
}

impl VulkanDevice {
    /// Raw handles of the device.
    pub fn context(&self) -> (ctx: DeviceContext)
        ensures
            ctx@ == (ContextView {
                handles: self@.info.handles,
                dual_src_blend: self@.info.dual_src_blend,
                fill_mode_non_solid: self@.info.fill_mode_non_solid,
                memory_types: self@.memory_types,
            }),
    {
        DeviceContext {
            handles: self.info.handles,
            dual_src_blend: self.info.dual_src_blend,
            fill_mode_non_solid: self.info.fill_mode_non_solid,
            memory_types: copy_flags(&self.memory_types),
        }
    }

    /// Outcome of waiting until all submitted work has completed.
    pub fn wait_idle(&self, result: Result<(), i32>) -> (r: Result<(), GpuError>)
        ensures
            match (result, r) {
                (Ok(_), Ok(_)) => true,
                (Err(code), Err(e)) => e@ == error::backend_failure(
                    calls::call_text(VkCall::DeviceWaitIdle),
                    code,
                ),
                _ => false,
            },
    {
        call_result(VkCall::DeviceWaitIdle, result)
    }
}

impl DeviceContext {
    /// Another context of the same device.
    pub fn duplicate(&self) -> (ctx: DeviceContext)
        ensures
            ctx@ == self@,
    {
        DeviceContext {
            handles: self.handles,
            dual_src_blend: self.dual_src_blend,
            fill_mode_non_solid: self.fill_mode_non_solid,
            memory_types: copy_flags(&self.memory_types),
        }
    }

    /// The logical device.
    pub fn device(&self) -> (device: u64)
        ensures
            device == self@.handles.device,
    {
        self.handles.device
    }

    /// The instance that the device belongs to.
    pub fn instance(&self) -> (instance: u64)
        ensures
            instance == self@.handles.instance,
    {
        self.handles.instance
    }

    /// The physical device.
    pub fn physical(&self) -> (physical: u64)
        ensures
            physical == self@.handles.physical,
    {
        self.handles.physical
    }

    /// Queue for submitting and presenting.
    pub fn queue(&self) -> (queue: u64)
        ensures
            queue == self@.handles.queue,
    {
        self.handles.queue
    }

    /// Family of the queue.
    pub fn queue_family(&self) -> (family: u32)
        ensures
            family == self@.handles.queue_family,
    {
        self.handles.queue_family
    }

    /// Whether `device` is the logical device of this context.
    pub fn is_device(&self, device: &VulkanDevice) -> (r: bool)
        ensures
            r == (self@.handles.device == device@.info.handles.device),
    {
        self.handles.device == device.info.handles.device
    }

    /// Whether the device supports dual-source blending.
    pub fn supports_dual_source_blending(&self) -> (r: bool)
        ensures
            r == self@.dual_src_blend,
    {
        self.dual_src_blend
    }

    /// Whether the device supports polygon modes other than fill.
    pub fn supports_non_solid_fill(&self) -> (r: bool)
        ensures
            r == self@.fill_mode_non_solid,
    {
        self.fill_mode_non_solid
    }

    /// Property flags of each memory type.
    pub fn memory_properties(&self) -> (flags: Vec<u32>)
        ensures
            flags@ == self@.memory_types,
    {
        copy_flags(&self.memory_types)
    }

    /// Outcome of creating the command pool of a one-shot submission.
    pub fn one_shot_submit(&self, result: Result<u64, i32>) -> (r: Result<u64, GpuError>)
        ensures
            match (result, r) {
                (Ok(p), Ok(pool)) => pool == p,
                (Err(code), Err(e)) => e@ == error::backend_failure(
                    "one_shot create_command_pool"@,
                    code,
                ),
                _ => false,
            },
    {
        call_result(VkCall::CreateOneShotPool, result)
    }
}

/// Outcome of allocating the command buffer of a one-shot submission.
pub fn one_shot_allocated(pool: u64, result: Result<u64, i32>) -> (r: Result<u64, Unwind>)
    ensures
        match (result, r) {
            (Ok(c), Ok(cmd)) => cmd == c,
            (Err(code), Err(u)) => u@ == (UnwindView {
                cleanup: seq![Cleanup::DestroyCommandPool(pool)],
                error: error::backend_failure("one_shot allocate_command_buffers"@, code),
            }),
            _ => false,
        },
{
    match result {
        Ok(cmd) => Ok(cmd),
        Err(code) => Err(
            unwind_one(
                Cleanup::DestroyCommandPool(pool),
                backend_error("one_shot allocate_command_buffers", code),
            ),
        ),
    }
}

/// Outcome of beginning the command buffer of a one-shot submission.
pub fn one_shot_begun(pool: u64, result: Result<(), i32>) -> (r: Result<(), Unwind>)
    ensures
        match (result, r) {
            (Ok(_), Ok(_)) => true,
            (Err(code), Err(u)) => u@ == (UnwindView {
                cleanup: seq![Cleanup::DestroyCommandPool(pool)],
                error: error::backend_failure("one_shot begin_command_buffer"@, code),
            }),
            _ => false,
        },
{
    match result {
        Ok(_) => Ok(()),
        Err(code) => Err(
            unwind_one(
                Cleanup::DestroyCommandPool(pool),
                backend_error("one_shot begin_command_buffer", code),
            ),
        ),
    }
}

/// Outcome of recording a one-shot submission, once its command buffer has been ended.
pub fn one_shot_recorded(pool: u64, result: Result<(), GpuError>) -> (r: Result<(), Unwind>)
    ensures
        match (result, r) {
            (Ok(_), Ok(_)) => true,
            (Err(e), Err(u)) => u@ == (UnwindView {
                cleanup: seq![Cleanup::DestroyCommandPool(pool)],
                error: e@,
            }),
            _ => false,
        },
{
    match result {
        Ok(_) => Ok(()),
        Err(e) => Err(unwind_one(Cleanup::DestroyCommandPool(pool), e)),
    }
}

/// Outcome of a one-shot submission, and what is destroyed once the device is idle.
pub fn one_shot_submitted(pool: u64, result: Result<(), i32>) -> (r: (Cleanup, Result<(), GpuError>))
    ensures
        r.0 == Cleanup::DestroyCommandPool(pool),
        match (result, r.1) {
            (Ok(_), Ok(_)) => true,
            (Err(code), Err(e)) => e@ == error::vk_error_view("one_shot queue_submit"@, code),
            _ => false,
        },
{
    let outcome = match result {
        Ok(_) => Ok(()),
        Err(code) => Err(map_vk_err("one_shot queue_submit", code)),
    };
    (Cleanup::DestroyCommandPool(pool), outcome)
}

} // verus!
