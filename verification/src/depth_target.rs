//! Depth images for depth attachments.
use vstd::prelude::*;

use crate::command::Cleanup;
use crate::device::buffers;
use crate::device::buffers::find_memory_type;
use crate::device::targets;
use crate::device::textures::{ImageCreateInfo, ViewCreateInfo};
use crate::device::{TargetHandle, VulkanDevice, VulkanRenderTarget};
use crate::error::{GpuError, GpuErrorView};
use crate::hal::Format;
use crate::vk;

verus! {

/// The depth format used by [`DepthTarget`].
pub const DEPTH_FORMAT: i32 = vk::FORMAT_D32_SFLOAT;

/// Device-local depth image. There is one per swapchain size; it is rebuilt on resize.
#[derive(Clone, Copy, PartialEq, Eq, Structural, Debug)]
pub struct DepthTarget {
    image: u64,
    memory: u64,
    view: u64,
    extent: vk::Extent2D,
}

/// Image of a depth target.
pub open spec fn depth_image(width: u32, height: u32) -> ImageCreateInfo {
    ImageCreateInfo {
        flags: 0,
        image_type: vk::IMAGE_TYPE_2D,
        format: DEPTH_FORMAT,
        extent: vk::Extent3D { width, height, depth: 1 },
        mip_levels: 1,
        array_layers: 1,
        usage: vk::IMAGE_USAGE_DEPTH_STENCIL_ATTACHMENT,
    }
}

/// View of a depth target.
pub open spec fn depth_view(image: u64) -> ViewCreateInfo {
    ViewCreateInfo {
        image,
        view_type: vk::IMAGE_VIEW_TYPE_2D,
        format: DEPTH_FORMAT,
        subresource_range: vk::SubresourceRange {
            aspect_mask: vk::IMAGE_ASPECT_DEPTH,
            base_mip_level: 0,
            level_count: 1,
            base_array_layer: 0,
            layer_count: 1,
        },
    }
}

impl DepthTarget {
    pub closed spec fn image_of(self) -> u64 {
        self.image
    }

    pub closed spec fn memory_of(self) -> u64 {
        self.memory
    }

    pub closed spec fn view_of(self) -> u64 {
        self.view
    }

    pub closed spec fn extent_of(self) -> vk::Extent2D {
        self.extent
    }

    /// What the image of a depth target is created with.
    pub fn image_info(width: u32, height: u32) -> (info: ImageCreateInfo)
        ensures
            info == depth_image(width, height),
    {
        ImageCreateInfo {
            flags: 0,
            image_type: vk::IMAGE_TYPE_2D,
            format: DEPTH_FORMAT,
            extent: vk::Extent3D { width, height, depth: 1 },
            mip_levels: 1,
            array_layers: 1,
            usage: vk::IMAGE_USAGE_DEPTH_STENCIL_ATTACHMENT,
        }
    }

    /// Memory type to allocate for the image.
    pub fn memory_type(memory_types: &Vec<u32>, type_bits: u32) -> (r: Result<u32, GpuError>)
        requires
            memory_types.len() <= 32,
        ensures
            match r {
                Ok(i) => buffers::memory_type(
                    memory_types@,
                    type_bits,
                    vk::MEMORY_PROPERTY_DEVICE_LOCAL,
                ) == Some(i as int),
                Err(e) => buffers::memory_type(
                    memory_types@,
                    type_bits,
                    vk::MEMORY_PROPERTY_DEVICE_LOCAL,
                ) is None && e@ == GpuErrorView::Backend("no device-local memory type for depth"@),
            },
    {
        match find_memory_type(memory_types, type_bits, vk::MEMORY_PROPERTY_DEVICE_LOCAL) {
            Some(i) => Ok(i),
            None => Err(GpuError::Backend("no device-local memory type for depth".to_owned())),
        }
    }

    /// What the view of the image is created with.
    pub fn view_info(image: u64) -> (info: ViewCreateInfo)
        ensures
            info == depth_view(image),
    {
        ViewCreateInfo {
            image,
            view_type: vk::IMAGE_VIEW_TYPE_2D,
            format: DEPTH_FORMAT,
            subresource_range: vk::SubresourceRange {
                aspect_mask: vk::IMAGE_ASPECT_DEPTH,
                base_mip_level: 0,
                level_count: 1,
                base_array_layer: 0,
                layer_count: 1,
            },
        }
    }

    /// Depth target from its Vulkan objects.
    pub fn new(image: u64, memory: u64, view: u64, width: u32, height: u32) -> (t: Self)
        ensures
            t.image_of() == image,
            t.memory_of() == memory,
            t.view_of() == view,
            t.extent_of() == (vk::Extent2D { width, height }),
    {
        DepthTarget { image, memory, view, extent: vk::Extent2D { width, height } }
    }

    pub fn format(&self) -> (f: Format)
        ensures
            f == Format::Depth32Float,
    {
        Format::Depth32Float
    }

    pub fn extent(&self) -> (r: (u32, u32))
        ensures
            r == (self.extent_of().width, self.extent_of().height),
    {
        (self.extent.width, self.extent.height)
    }

    /// The image view.
    pub fn view(&self) -> (view: u64)
        ensures
            view == self.view_of(),
    {
        self.view
    }

    /// The image.
    pub fn image(&self) -> (image: u64)
        ensures
            image == self.image_of(),
    {
        self.image
    }

    /// Destruction of the Vulkan objects.
    pub fn destroy(self) -> (steps: Vec<Cleanup>)
        ensures
            steps@ == seq![
                Cleanup::DestroyImageView(self.view_of()),
                Cleanup::DestroyImage(self.image_of()),
                Cleanup::FreeMemory(self.memory_of()),
            ],
    {
        let mut steps: Vec<Cleanup> = Vec::new();
        steps.push(Cleanup::DestroyImageView(self.view));
        steps.push(Cleanup::DestroyImage(self.image));
        steps.push(Cleanup::FreeMemory(self.memory));
        assert(steps@ =~= seq![
            Cleanup::DestroyImageView(self.view_of()),
            Cleanup::DestroyImage(self.image_of()),
            Cleanup::FreeMemory(self.memory_of()),
        ]);
        steps
    }
}

/// Entry of a depth target as a render target.
pub open spec fn depth_entry(depth: DepthTarget) -> VulkanRenderTarget {
    VulkanRenderTarget {
        image: depth.image_of(),
        view: depth.view_of(),
        format: DEPTH_FORMAT,
        extent: depth.extent_of(),
        layout: vk::IMAGE_LAYOUT_UNDEFINED,
    }
}

impl VulkanDevice {
    /// Registers a depth target for use as a depth attachment. After a resize the new target is
    /// registered again, and the old handle is dropped with
    /// [`VulkanDevice::unregister_render_target`].
    pub fn register_depth_target(&mut self, depth: &DepthTarget) -> (h: TargetHandle)
        requires
            old(self)@.wf(),
            old(self)@.render_targets.has_room(),
        ensures
            final(self)@.wf(),
            final(self)@ == targets::target_registered(old(self)@, depth_entry(*depth)),
            h.slot() == old(self)@.render_targets.next_index(),
            h.gen() == old(self)@.render_targets.next_generation(),
    {
        self.register_target(
            VulkanRenderTarget {
                image: depth.image,
                view: depth.view,
                format: DEPTH_FORMAT,
                extent: depth.extent,
                layout: vk::IMAGE_LAYOUT_UNDEFINED,
            },
        )
    }
}

// ── Laws ───────────────────────────────────────────────────────────────────────

/// A depth target is a plain image of the given size, of 32-bit depths, for use as a depth
/// attachment and nothing else; it is viewed by its depth, and registered as what it is, with
/// no claim on its layout.
pub proof fn depth_target_holds_depths(depth: DepthTarget, width: u32, height: u32)
    ensures
        ({
            let i = depth_image(width, height);
            let w = depth_view(depth.image_of());
            let rt = depth_entry(depth);
            &&& i.extent.width == width
            &&& i.extent.height == height
            &&& i.extent.depth == 1
            &&& i.flags == 0
            &&& i.image_type == vk::IMAGE_TYPE_2D
            &&& i.format == vk::FORMAT_D32_SFLOAT
            &&& i.usage == vk::IMAGE_USAGE_DEPTH_STENCIL_ATTACHMENT
            &&& i.mip_levels == 1
            &&& i.array_layers == 1
            &&& w.image == depth.image_of()
            &&& w.format == i.format
            &&& w.view_type == vk::IMAGE_VIEW_TYPE_2D
            &&& w.subresource_range.aspect_mask == vk::IMAGE_ASPECT_DEPTH
            &&& w.subresource_range.base_mip_level == 0
            &&& w.subresource_range.level_count == 1
            &&& w.subresource_range.base_array_layer == 0
            &&& w.subresource_range.layer_count == 1
            &&& rt.image == depth.image_of()
            &&& rt.view == depth.view_of()
            &&& rt.format == i.format
            &&& rt.extent == depth.extent_of()
            &&& rt.layout == vk::IMAGE_LAYOUT_UNDEFINED
        }),
{
}

} // verus!
