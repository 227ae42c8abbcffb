//! Vulkan backend of the ZenGPU runtime: the decisions of the backend, verified.
use vstd::prelude::*;

pub mod adapter;
pub mod calls;
pub mod canvas;
pub mod command;
pub mod command_list;
pub mod depth_target;
pub mod device;
pub mod error;
pub mod frame_graph;
pub mod hal;
pub mod instance;
pub mod layouts;
pub mod offscreen;
pub mod quads;
pub mod search;
pub mod slot_map;
pub mod surface;
pub mod swapchain;
pub mod swapchain_2d;
pub mod swapchain_textured;
pub mod text;
pub mod vk;

pub use adapter::VulkanAdapter;
pub use command_list::VulkanCommandList;
pub use depth_target::{DepthTarget, DEPTH_FORMAT};
pub use device::context::DeviceContext;
pub use device::VulkanDevice;
pub use frame_graph::{AttachmentUsage, FrameGraph, ResourceId};
pub use instance::VulkanInstance;
pub use offscreen::OffscreenTarget;
pub use surface::{VulkanFrame, VulkanSurface};
pub use swapchain::{BeginFrame, Swapchain};
pub use swapchain_2d::{RectInstance, Vulkan2dSurface};
pub use swapchain_textured::VulkanTexturedSwapchain;

use device::formats;
use hal::Format;

verus! {

/// Guard of a lock that serialises tests: `attempt` is the outcome of locking, with the guard
/// of a poisoned lock as its error. A test that panicked does not keep the others from running.
pub fn test_gpu_lock<G>(attempt: Result<G, G>) -> (guard: G)
    ensures
        attempt == Ok::<G, G>(guard) || attempt == Err::<G, G>(guard),
{
    match attempt {
        Ok(guard) => guard,
        Err(poisoned) => poisoned,
    }
}

// ── Format conversion ──────────────────────────────────────────────────────────

/// Vulkan format of a [`Format`].
pub fn to_vk_format(f: Format) -> (v: i32)
    ensures
        v == formats::vk_hal_format(f),
{
    formats::hal_format_to_vk(f)
}

/// The [`Format`] with the Vulkan format `v`, or `None` for formats that have no counterpart.
pub fn from_vk_format(v: i32) -> (f: Option<Format>)
    ensures
        match f {
            Some(g) => formats::vk_hal_format(g) == v,
            None => forall|g: Format| #[trigger] formats::vk_hal_format(g) != v,
        },
{
    if v == vk::FORMAT_R8G8B8A8_UNORM {
        Some(Format::Rgba8Unorm)
    } else if v == vk::FORMAT_R8G8B8A8_SRGB {
        Some(Format::Rgba8UnormSrgb)
    } else if v == vk::FORMAT_B8G8R8A8_UNORM {
        Some(Format::Bgra8Unorm)
    } else if v == vk::FORMAT_B8G8R8A8_SRGB {
        Some(Format::Bgra8UnormSrgb)
    } else if v == vk::FORMAT_R32_SFLOAT {
        Some(Format::R32Float)
    } else if v == vk::FORMAT_D32_SFLOAT {
        Some(Format::Depth32Float)
    } else if v == vk::FORMAT_D24_UNORM_S8_UINT {
        Some(Format::Depth24PlusStencil8)
    } else {
        None
    }
}

/// No two formats share a Vulkan format, so [`from_vk_format`] undoes [`to_vk_format`].
pub proof fn vk_formats_are_distinct(a: Format, b: Format)
    requires
        formats::vk_hal_format(a) == formats::vk_hal_format(b),
    ensures
        a == b,
{
}

} // verus!
