//! Vulkan calls whose failure is a backend error, and the names under which they are reported.
use vstd::prelude::*;

use crate::error;
use crate::error::{backend_error, GpuError};

verus! {

/// Vulkan call.
#[derive(Clone, Copy, PartialEq, Eq, Structural, Debug)]
pub enum VkCall {
    CreateInstance,
    EnumerateDeviceExtensions,
    CreateDevice,
    CreatePipelineCache,
    CreateListPool,
    DeviceWaitIdle,
    CreateDepthImage,
    AllocateDepthMemory,
    BindDepthMemory,
    CreateDepthView,
    CreateWin32Surface,
    CreateXcbSurface,
    CreateWaylandSurface,
    CreateMacOsSurface,
    SurfaceSupport,
    SurfaceCapabilities,
    SurfaceFormats,
    PresentModes,
    CreateSwapchain,
    SwapchainImages,
    CreateImageView,
    CreateRenderPass,
    CreateFramebuffer,
    CreateShaderModule,
    CreatePipelineLayout,
    CreateGraphicsPipelines,
    CreateCommandPool,
    AllocateCommandBuffers,
    CreateSemaphore,
    CreateFence,
    WaitForFences,
    ResetFences,
    QueueSubmit,
    ResetCommandBuffer,
    BeginCommandBuffer,
    EndCommandBuffer,
    CreateInstanceBuffer,
    CreatePlaceholderImage,
    CreateDescriptorSetLayout,
    CreateOneShotPool,
}

/// Name under which a failed call is reported.
pub open spec fn call_text(call: VkCall) -> Seq<char> {
    match call {
        VkCall::CreateInstance => "vkCreateInstance"@,
        VkCall::EnumerateDeviceExtensions => "enumerate device extensions"@,
        VkCall::CreateDevice => "vkCreateDevice"@,
        VkCall::CreatePipelineCache => "vkCreatePipelineCache"@,
        VkCall::CreateListPool => "create command list pool"@,
        VkCall::DeviceWaitIdle => "device_wait_idle"@,
        VkCall::CreateDepthImage => "create depth image"@,
        VkCall::AllocateDepthMemory => "allocate depth memory"@,
        VkCall::BindDepthMemory => "bind depth memory"@,
        VkCall::CreateDepthView => "create depth view"@,
        VkCall::CreateWin32Surface => "vkCreateWin32SurfaceKHR"@,
        VkCall::CreateXcbSurface => "vkCreateXcbSurfaceKHR"@,
        VkCall::CreateWaylandSurface => "vkCreateWaylandSurfaceKHR"@,
        VkCall::CreateMacOsSurface => "vkCreateMacOSSurfaceMVK"@,
        VkCall::SurfaceSupport => "surface support query"@,
        VkCall::SurfaceCapabilities => "surface capabilities"@,
        VkCall::SurfaceFormats => "surface formats"@,
        VkCall::PresentModes => "surface present modes"@,
        VkCall::CreateSwapchain => "vkCreateSwapchainKHR"@,
        VkCall::SwapchainImages => "get_swapchain_images"@,
        VkCall::CreateImageView => "create_image_view"@,
        VkCall::CreateRenderPass => "create_render_pass"@,
        VkCall::CreateFramebuffer => "create_framebuffer"@,
        VkCall::CreateShaderModule => "create_shader_module"@,
        VkCall::CreatePipelineLayout => "create_pipeline_layout"@,
        VkCall::CreateGraphicsPipelines => "create_graphics_pipelines"@,
        VkCall::CreateCommandPool => "create_command_pool"@,
        VkCall::AllocateCommandBuffers => "allocate_command_buffers"@,
        VkCall::CreateSemaphore => "create_semaphore"@,
        VkCall::CreateFence => "create_fence"@,
        VkCall::WaitForFences => "wait_for_fences"@,
        VkCall::ResetFences => "reset_fences"@,
        VkCall::QueueSubmit => "queue_submit"@,
        VkCall::ResetCommandBuffer => "reset_command_buffer"@,
        VkCall::BeginCommandBuffer => "begin_command_buffer"@,
        VkCall::EndCommandBuffer => "end_command_buffer"@,
        VkCall::CreateInstanceBuffer => "create instance buffer"@,
        VkCall::CreatePlaceholderImage => "placeholder vkCreateImage"@,
        VkCall::CreateDescriptorSetLayout => "create_descriptor_set_layout"@,
        VkCall::CreateOneShotPool => "one_shot create_command_pool"@,
    }
}

/// Name under which a failed call is reported.
pub fn call_name(call: VkCall) -> (name: &'static str)
    ensures
        name@ == call_text(call),
{
    match call {
        VkCall::CreateInstance => "vkCreateInstance",
        VkCall::EnumerateDeviceExtensions => "enumerate device extensions",
        VkCall::CreateDevice => "vkCreateDevice",
        VkCall::CreatePipelineCache => "vkCreatePipelineCache",
        VkCall::CreateListPool => "create command list pool",
        VkCall::DeviceWaitIdle => "device_wait_idle",
        VkCall::CreateDepthImage => "create depth image",
        VkCall::AllocateDepthMemory => "allocate depth memory",
        VkCall::BindDepthMemory => "bind depth memory",
        VkCall::CreateDepthView => "create depth view",
        VkCall::CreateWin32Surface => "vkCreateWin32SurfaceKHR",
        VkCall::CreateXcbSurface => "vkCreateXcbSurfaceKHR",
        VkCall::CreateWaylandSurface => "vkCreateWaylandSurfaceKHR",
        VkCall::CreateMacOsSurface => "vkCreateMacOSSurfaceMVK",
        VkCall::SurfaceSupport => "surface support query",
        VkCall::SurfaceCapabilities => "surface capabilities",
        VkCall::SurfaceFormats => "surface formats",
        VkCall::PresentModes => "surface present modes",
        VkCall::CreateSwapchain => "vkCreateSwapchainKHR",
        VkCall::SwapchainImages => "get_swapchain_images",
        VkCall::CreateImageView => "create_image_view",
        VkCall::CreateRenderPass => "create_render_pass",
        VkCall::CreateFramebuffer => "create_framebuffer",
        VkCall::CreateShaderModule => "create_shader_module",
        VkCall::CreatePipelineLayout => "create_pipeline_layout",
        VkCall::CreateGraphicsPipelines => "create_graphics_pipelines",
        VkCall::CreateCommandPool => "create_command_pool",
        VkCall::AllocateCommandBuffers => "allocate_command_buffers",
        VkCall::CreateSemaphore => "create_semaphore",
        VkCall::CreateFence => "create_fence",
        VkCall::WaitForFences => "wait_for_fences",
        VkCall::ResetFences => "reset_fences",
        VkCall::QueueSubmit => "queue_submit",
        VkCall::ResetCommandBuffer => "reset_command_buffer",
        VkCall::BeginCommandBuffer => "begin_command_buffer",
        VkCall::EndCommandBuffer => "end_command_buffer",
        VkCall::CreateInstanceBuffer => "create instance buffer",
        VkCall::CreatePlaceholderImage => "placeholder vkCreateImage",
        VkCall::CreateDescriptorSetLayout => "create_descriptor_set_layout",
        VkCall::CreateOneShotPool => "one_shot create_command_pool",
    }
}

/// Outcome of a call.
pub fn call_result<T>(call: VkCall, result: Result<T, i32>) -> (r: Result<T, GpuError>)
    ensures
        match (result, r) {
            (Ok(a), Ok(b)) => a == b,
            (Err(code), Err(e)) => e@ == error::backend_failure(call_text(call), code),
            _ => false,
        },
{
    match result {
        Ok(value) => Ok(value),
        Err(code) => Err(backend_error(call_name(call), code)),
    }
}

} // verus!
