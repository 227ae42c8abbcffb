//! Textures and samplers: creation, bindless registration, uploads and mip chains.
//!
//! A texture is created in stages, with one Vulkan call after each: `create_texture`,
//! `texture_created`, `texture_memory_type`, `texture_allocated`, `texture_bound`,
//! `texture_viewed` and `insert_texture`. A stage that fails names the objects that are to be
//! destroyed.
use vstd::prelude::*;
use vstd::string::StringExecFns;

use crate::command;
use crate::command::{BufferImageCopy, Cleanup, Command, CommandOf, CommandView, ImageBlit};
use crate::device::base_layouts;
use crate::device::base_layouts::BaseLayouts;
use crate::device::buffers;
use crate::device::buffers::{find_memory_type, unwind_one, unwind_two, Unwind, UnwindView};
use crate::device::formats;
use crate::device::lifetime;
use crate::device::{
    BufferHandle, DeviceView, SamplerHandle, TextureHandle, VulkanDevice, VulkanTexture,
};
use crate::error;
use crate::error::{backend_error, mismatch, missing_usage, GpuError, GpuErrorView};
use crate::frame_graph;
use crate::hal;
use crate::hal::{
    contains_flags, AddressMode, BorderColor, BufferDesc, BufferUsage, CompareFn, FilterMode,
    MemoryUsage, TexDim, TextureDesc, BUFFER_TRANSFER_SRC,
};
use crate::text;
use crate::vk;

verus! {

/// The number, or one if it is zero.
pub open spec fn at_least_one(n: u32) -> u32 {
    if n == 0 {
        1
    } else {
        n
    }
}

fn max_one(n: u32) -> (r: u32)
    ensures
        r == at_least_one(n),
{
    if n == 0 {
        1
    } else {
        n
    }
}

// ── Creation ───────────────────────────────────────────────────────────────────

/// What an image is created with. It has one sample per texel, optimal tiling, undefined
/// contents and belongs to one queue family at a time.
#[derive(Clone, Copy, PartialEq, Eq, Structural, Debug)]
pub struct ImageCreateInfo {
    pub flags: u32,
    pub image_type: i32,
    pub format: i32,
    pub extent: vk::Extent3D,
    pub mip_levels: u32,
    pub array_layers: u32,
    pub usage: u32,
}

/// What an image view is created with.
#[derive(Clone, Copy, PartialEq, Eq, Structural, Debug)]
pub struct ViewCreateInfo {
    pub image: u64,
    pub view_type: i32,
    pub format: i32,
    pub subresource_range: vk::SubresourceRange,
}

/// Depth of a texture: only a volume has more than one slice.
pub open spec fn texture_depth(desc: TextureDesc) -> u32 {
    if desc.dimension == TexDim::D3 {
        at_least_one(desc.depth)
    } else {
        1
    }
}

/// A cube texture does not have its six faces.
pub open spec fn cube_fault(desc: TextureDesc) -> bool {
    desc.dimension == TexDim::Cube && at_least_one(desc.array_layers) != 6
}

pub open spec fn cube_text(layers: u32) -> Seq<char> {
    "TexDim::Cube requires array_layers == 6, got "@ + text::decimal_text(layers as nat)
}

/// Image of a texture.
pub open spec fn texture_image(desc: TextureDesc) -> ImageCreateInfo {
    ImageCreateInfo {
        flags: if desc.dimension == TexDim::Cube {
            vk::IMAGE_CREATE_CUBE_COMPATIBLE
        } else {
            0
        },
        image_type: if desc.dimension == TexDim::D3 {
            vk::IMAGE_TYPE_3D
        } else {
            vk::IMAGE_TYPE_2D
        },
        format: formats::vk_hal_format(desc.format),
        extent: vk::Extent3D {
            width: desc.width,
            height: desc.height,
            depth: texture_depth(desc),
        },
        mip_levels: at_least_one(desc.mip_levels),
        array_layers: at_least_one(desc.array_layers),
        usage: formats::vk_texture_usage(desc.usage),
    }
}

/// Kind of view that a texture is sampled through.
pub open spec fn texture_view_type(desc: TextureDesc) -> i32 {
    match desc.dimension {
        TexDim::D2 => if at_least_one(desc.array_layers) > 1 {
            vk::IMAGE_VIEW_TYPE_2D_ARRAY
        } else {
            vk::IMAGE_VIEW_TYPE_2D
        },
        TexDim::D3 => vk::IMAGE_VIEW_TYPE_3D,
        TexDim::Cube => vk::IMAGE_VIEW_TYPE_CUBE,
    }
}

/// View of all levels and layers of a texture.
pub open spec fn texture_view(desc: TextureDesc, image: u64) -> ViewCreateInfo {
    ViewCreateInfo {
        image,
        view_type: texture_view_type(desc),
        format: formats::vk_hal_format(desc.format),
        subresource_range: vk::SubresourceRange {
            aspect_mask: vk::IMAGE_ASPECT_COLOR,
            base_mip_level: 0,
            level_count: at_least_one(desc.mip_levels),
            base_array_layer: 0,
            layer_count: at_least_one(desc.array_layers),
        },
    }
}

/// Entry of a texture in the device's table.
pub open spec fn texture_entry(desc: TextureDesc, image: u64, view: u64, memory: u64) -> VulkanTexture {
    VulkanTexture {
        image,
        view,
        memory,
        format: formats::vk_hal_format(desc.format),
        extent: vk::Extent2D { width: desc.width, height: desc.height },
        depth: texture_depth(desc),
        mip_levels: at_least_one(desc.mip_levels),
        array_layers: at_least_one(desc.array_layers),
        usage: formats::vk_texture_usage(desc.usage),
    }
}

fn depth_of(desc: &TextureDesc) -> (r: u32)
    ensures
        r == texture_depth(*desc),
{
    if matches!(desc.dimension, TexDim::D3) {
        max_one(desc.depth)
    } else {
        1
    }
}

/// Checks a texture description. The image is then created with what comes back.
pub fn create_texture(desc: &TextureDesc) -> (r: Result<ImageCreateInfo, GpuError>)
    ensures
        match r {
            Ok(info) => !cube_fault(*desc) && info == texture_image(*desc),
            Err(e) => cube_fault(*desc) && e@ == error::mismatch_view(
                cube_text(at_least_one(desc.array_layers)),
            ),
        },
{
    let array_layers: u32 = max_one(desc.array_layers);
    let cube = matches!(desc.dimension, TexDim::Cube);
    if cube && array_layers != 6 {
        let mut message = "TexDim::Cube requires array_layers == 6, got ".to_owned();
        message.append(text::decimal(array_layers as u64).as_str());
        return Err(mismatch(message));
    }
    Ok(
        ImageCreateInfo {
            flags: if cube {
                vk::IMAGE_CREATE_CUBE_COMPATIBLE
            } else {
                0
            },
            image_type: match desc.dimension {
                TexDim::D2 | TexDim::Cube => vk::IMAGE_TYPE_2D,
                TexDim::D3 => vk::IMAGE_TYPE_3D,
            },
            format: formats::hal_format_to_vk(desc.format),
            extent: vk::Extent3D {
                width: desc.width,
                height: desc.height,
                depth: depth_of(desc),
            },
            mip_levels: max_one(desc.mip_levels),
            array_layers,
            usage: formats::texture_usage_to_vk(desc.usage),
        },
    )
}

/// Outcome of `vkCreateImage`.
pub fn texture_created(result: Result<u64, i32>) -> (r: Result<u64, GpuError>)
    ensures
        match (result, r) {
            (Ok(i), Ok(image)) => image == i,
            (Err(code), Err(e)) => e@ == error::backend_failure("vkCreateImage"@, code),
            _ => false,
        },
{
    match result {
        Ok(image) => Ok(image),
        Err(code) => Err(backend_error("vkCreateImage", code)),
    }
}

/// Outcome of the allocation for a texture. Every failure counts as exhausted memory.
pub fn texture_allocated(image: u64, result: Result<u64, i32>) -> (r: Result<u64, Unwind>)
    ensures
        match (result, r) {
            (Ok(m), Ok(memory)) => memory == m,
            (Err(_), Err(u)) => u@ == (UnwindView {
                cleanup: seq![Cleanup::DestroyImage(image)],
                error: GpuErrorView::OutOfMemory(MemoryUsage::GpuOnly),
            }),
            _ => false,
        },
{
    match result {
        Ok(memory) => Ok(memory),
        Err(_) => Err(
            unwind_one(Cleanup::DestroyImage(image), GpuError::OutOfMemory(MemoryUsage::GpuOnly)),
        ),
    }
}

/// Outcome of binding a texture to its memory. Its view is then created with what comes back.
pub fn texture_bound(desc: &TextureDesc, image: u64, memory: u64, result: Result<(), i32>) -> (r:
    Result<ViewCreateInfo, Unwind>)
    ensures
        match (result, r) {
            (Ok(_), Ok(info)) => info == texture_view(*desc, image),
            (Err(code), Err(u)) => u@ == (UnwindView {
                cleanup: seq![Cleanup::DestroyImage(image), Cleanup::FreeMemory(memory)],
                error: error::backend_failure("vkBindImageMemory"@, code),
            }),
            _ => false,
        },
{
    match result {
        Ok(_) => {
            let array_layers: u32 = max_one(desc.array_layers);
            let view_type: i32 = match desc.dimension {
                TexDim::D2 => if array_layers > 1 {
                    vk::IMAGE_VIEW_TYPE_2D_ARRAY
                } else {
                    vk::IMAGE_VIEW_TYPE_2D
                },
                TexDim::D3 => vk::IMAGE_VIEW_TYPE_3D,
                TexDim::Cube => vk::IMAGE_VIEW_TYPE_CUBE,
            };
            Ok(
                ViewCreateInfo {
                    image,
                    view_type,
                    format: formats::hal_format_to_vk(desc.format),
                    subresource_range: vk::SubresourceRange {
                        aspect_mask: vk::IMAGE_ASPECT_COLOR,
                        base_mip_level: 0,
                        level_count: max_one(desc.mip_levels),
                        base_array_layer: 0,
                        layer_count: array_layers,
                    },
                },
            )
        },
        Err(code) => Err(
            unwind_two(
                Cleanup::DestroyImage(image),
                Cleanup::FreeMemory(memory),
                backend_error("vkBindImageMemory", code),
            ),
        ),
    }
}

/// Outcome of creating the view of a texture.
pub fn texture_viewed(image: u64, memory: u64, result: Result<u64, i32>) -> (r: Result<u64, Unwind>)
    ensures
        match (result, r) {
            (Ok(v), Ok(view)) => view == v,
            (Err(code), Err(u)) => u@ == (UnwindView {
                cleanup: seq![Cleanup::DestroyImage(image), Cleanup::FreeMemory(memory)],
                error: error::backend_failure("vkCreateImageView"@, code),
            }),
            _ => false,
        },
{
    match result {
        Ok(view) => Ok(view),
        Err(code) => Err(
            unwind_two(
                Cleanup::DestroyImage(image),
                Cleanup::FreeMemory(memory),
                backend_error("vkCreateImageView", code),
            ),
        ),
    }
}

// ── Samplers ───────────────────────────────────────────────────────────────────

/// Description of a sampler, without its range of mip levels.
#[derive(Clone, Copy, PartialEq, Eq, Structural, Debug)]
pub struct SamplerDesc {
    pub min_filter: FilterMode,
    pub mag_filter: FilterMode,
    pub mip_filter: FilterMode,
    pub address: AddressMode,
    pub anisotropy: u32,
    pub compare: Option<CompareFn>,
    pub border: BorderColor,
}

/// What a sampler is created with. The address mode holds for all three axes.
#[derive(Clone, Copy, PartialEq, Eq, Structural, Debug)]
pub struct SamplerCreateInfo {
    pub mag_filter: i32,
    pub min_filter: i32,
    pub mipmap_mode: i32,
    pub address_mode: i32,
    pub anisotropy_enable: bool,
    pub compare_enable: bool,
    pub compare_op: i32,
    pub border_color: i32,
}

/// Sampler with the given description. Anisotropy needs a device that supports it.
pub open spec fn sampler_info(anisotropic: bool, desc: SamplerDesc) -> SamplerCreateInfo {
    SamplerCreateInfo {
        mag_filter: formats::vk_filter(desc.mag_filter),
        min_filter: formats::vk_filter(desc.min_filter),
        mipmap_mode: formats::vk_mipmap_mode(desc.mip_filter),
        address_mode: formats::vk_address(desc.address),
        anisotropy_enable: anisotropic && desc.anisotropy > 1,
        compare_enable: desc.compare is Some,
        compare_op: formats::vk_compare_fn(
            match desc.compare {
                Some(c) => c,
                None => CompareFn::Always,
            },
        ),
        border_color: formats::vk_border_color(desc.border),
    }
}

/// Outcome of `vkCreateSampler`.
pub fn sampler_created(result: Result<u64, i32>) -> (r: Result<u64, GpuError>)
    ensures
        match (result, r) {
            (Ok(s), Ok(sampler)) => sampler == s,
            (Err(code), Err(e)) => e@ == error::backend_failure("vkCreateSampler"@, code),
            _ => false,
        },
{
    match result {
        Ok(sampler) => Ok(sampler),
        Err(code) => Err(backend_error("vkCreateSampler", code)),
    }
}

// ── Bindless textures ──────────────────────────────────────────────────────────

/// Descriptor of a texture and its sampler in the bindless table.
#[derive(Clone, Copy, PartialEq, Eq, Structural, Debug)]
pub struct TextureDescriptor {
    pub set: u64,
    pub binding: u32,
    pub element: u32,
    pub sampler: u64,
    pub image_view: u64,
    pub image_layout: i32,
}

/// A texture can be registered in the bindless table.
pub open spec fn bindable(v: DeviceView, texture: TextureHandle, sampler: SamplerHandle) -> bool {
    &&& texture.slot() < v.bindless.texture_capacity
    &&& v.textures.live(texture)
    &&& v.samplers.live(sampler)
    &&& v.in_flight == 0
}

/// Descriptor of a texture at its own slot. The image has to be readable by shaders when it is
/// sampled.
pub open spec fn texture_descriptor(
    v: DeviceView,
    texture: TextureHandle,
    sampler: SamplerHandle,
) -> TextureDescriptor {
    TextureDescriptor {
        set: v.bindless.set,
        binding: 1,
        element: texture.slot(),
        sampler: v.samplers.value(sampler),
        image_view: v.textures.value(texture).view,
        image_layout: vk::IMAGE_LAYOUT_SHADER_READ_ONLY_OPTIMAL,
    }
}

// ── Uploads ────────────────────────────────────────────────────────────────────

/// Extent of mip level `level` along an axis: halved once per level, and at least one texel.
pub open spec fn mip_size(size: u32, level: u32) -> u32 {
    at_least_one(size >> level)
}

fn mip_size_at(size: u32, level: u32) -> (r: u32)
    requires
        level < 32,
    ensures
        r == mip_size(size, level),
{
    max_one(size >> level)
}

/// Color aspect of one level and layer.
pub open spec fn one_layer(level: u32, layer: u32) -> vk::SubresourceRange {
    vk::SubresourceRange {
        aspect_mask: vk::IMAGE_ASPECT_COLOR,
        base_mip_level: level,
        level_count: 1,
        base_array_layer: layer,
        layer_count: 1,
    }
}

/// Device after a texture is entered. Nothing was uploaded or rendered to it yet.
pub open spec fn texture_entered(v: DeviceView, entry: VulkanTexture) -> DeviceView {
    DeviceView {
        textures: v.textures.insert(entry),
        base_layouts: base_layouts::added(v.base_layouts, entry.image, entry.array_layers),
        ..v
    }
}

/// Upload to one level and layer of a texture: a staging buffer is created, the data is written
/// to it, and [`plan_upload`] says how it gets into the texture. Then the staging buffer goes.
#[derive(Clone, Copy)]
pub struct Upload {
    pub texture: VulkanTexture,
    pub level: u32,
    pub layer: u32,
    pub staging: BufferDesc,
}

/// Outcome of planning an upload of `data`.
pub open spec fn upload_planned(
    v: DeviceView,
    texture: TextureHandle,
    level: u32,
    layer: u32,
    data: Seq<u8>,
    r: Result<Upload, GpuError>,
) -> bool {
    match r {
        Ok(upload) => v.textures.live(texture) && upload == (Upload {
            texture: v.textures.value(texture),
            level,
            layer,
            staging: BufferDesc {
                size: data.len() as u64,
                usage: BufferUsage { bits: BUFFER_TRANSFER_SRC },
                memory: MemoryUsage::Upload,
            },
        }),
        Err(e) => !v.textures.live(texture) && e@ == GpuErrorView::Backend(
            "upload_texture_data: stale texture handle"@,
        ),
    }
}

/// Commands that fill one level and layer of a texture from a staging buffer and make it
/// readable by fragment shaders. Its earlier contents are discarded.
pub open spec fn upload_commands(
    t: VulkanTexture,
    level: u32,
    layer: u32,
    staging: u64,
) -> Seq<CommandView> {
    seq![
        CommandOf::ImageBarrier {
            src_stages: vk::PIPELINE_STAGE_TOP_OF_PIPE,
            dst_stages: vk::PIPELINE_STAGE_TRANSFER,
            barrier: vk::ImageBarrier {
                src_access_mask: 0,
                dst_access_mask: vk::ACCESS_TRANSFER_WRITE,
                old_layout: vk::IMAGE_LAYOUT_UNDEFINED,
                new_layout: vk::IMAGE_LAYOUT_TRANSFER_DST_OPTIMAL,
                image: t.image,
                subresource_range: one_layer(level, layer),
            },
        },
        CommandOf::CopyBufferToImage {
            buffer: staging,
            image: t.image,
            image_layout: vk::IMAGE_LAYOUT_TRANSFER_DST_OPTIMAL,
            region: BufferImageCopy {
                buffer_offset: 0,
                image_subresource: vk::SubresourceLayers {
                    aspect_mask: vk::IMAGE_ASPECT_COLOR,
                    mip_level: level,
                    base_array_layer: layer,
                    layer_count: 1,
                },
                image_extent: vk::Extent3D {
                    width: mip_size(t.extent.width, level),
                    height: mip_size(t.extent.height, level),
                    depth: mip_size(t.depth, level),
                },
            },
        },
        CommandOf::ImageBarrier {
            src_stages: vk::PIPELINE_STAGE_TRANSFER,
            dst_stages: vk::PIPELINE_STAGE_FRAGMENT_SHADER,
            barrier: vk::ImageBarrier {
                src_access_mask: vk::ACCESS_TRANSFER_WRITE,
                dst_access_mask: vk::ACCESS_SHADER_READ,
                old_layout: vk::IMAGE_LAYOUT_TRANSFER_DST_OPTIMAL,
                new_layout: vk::IMAGE_LAYOUT_SHADER_READ_ONLY_OPTIMAL,
                image: t.image,
                subresource_range: one_layer(level, layer),
            },
        },
    ]
}

/// Commands that copy the first level and layer of a rendered image to a buffer. The image is a
/// color attachment before and after.
pub open spec fn readback_commands(t: VulkanTexture, buffer: u64) -> Seq<CommandView> {
    seq![
        CommandOf::ImageBarrier {
            src_stages: vk::PIPELINE_STAGE_COLOR_ATTACHMENT_OUTPUT,
            dst_stages: vk::PIPELINE_STAGE_TRANSFER,
            barrier: vk::ImageBarrier {
                src_access_mask: vk::ACCESS_COLOR_ATTACHMENT_WRITE,
                dst_access_mask: vk::ACCESS_TRANSFER_READ,
                old_layout: vk::IMAGE_LAYOUT_COLOR_ATTACHMENT_OPTIMAL,
                new_layout: vk::IMAGE_LAYOUT_TRANSFER_SRC_OPTIMAL,
                image: t.image,
                subresource_range: one_layer(0, 0),
            },
        },
        CommandOf::CopyImageToBuffer {
            image: t.image,
            image_layout: vk::IMAGE_LAYOUT_TRANSFER_SRC_OPTIMAL,
            buffer,
            region: BufferImageCopy {
                buffer_offset: 0,
                image_subresource: vk::SubresourceLayers {
                    aspect_mask: vk::IMAGE_ASPECT_COLOR,
                    mip_level: 0,
                    base_array_layer: 0,
                    layer_count: 1,
                },
                image_extent: vk::Extent3D {
                    width: t.extent.width,
                    height: t.extent.height,
                    depth: 1,
                },
            },
        },
        CommandOf::ImageBarrier {
            src_stages: vk::PIPELINE_STAGE_TRANSFER,
            dst_stages: vk::PIPELINE_STAGE_COLOR_ATTACHMENT_OUTPUT,
            barrier: vk::ImageBarrier {
                src_access_mask: vk::ACCESS_TRANSFER_READ,
                dst_access_mask: vk::ACCESS_COLOR_ATTACHMENT_WRITE,
                old_layout: vk::IMAGE_LAYOUT_TRANSFER_SRC_OPTIMAL,
                new_layout: vk::IMAGE_LAYOUT_COLOR_ATTACHMENT_OPTIMAL,
                image: t.image,
                subresource_range: one_layer(0, 0),
            },
        },
    ]
}

fn layer_range(level: u32, layer: u32) -> (range: vk::SubresourceRange)
    ensures
        range == one_layer(level, layer),
{
    vk::SubresourceRange {
        aspect_mask: vk::IMAGE_ASPECT_COLOR,
        base_mip_level: level,
        level_count: 1,
        base_array_layer: layer,
        layer_count: 1,
    }
}

// ── Mip chains ─────────────────────────────────────────────────────────────────

/// A 32-bit number read as signed.
pub open spec fn as_signed(n: u32) -> i32 {
    if n <= 0x7fff_ffff {
        n as i32
    } else {
        (n - 0x1_0000_0000) as i32
    }
}

/// Half of a size, and at least one.
pub open spec fn half(n: i32) -> i32 {
    if n < 2 {
        1
    } else {
        (n / 2) as i32
    }
}

/// Size of mip level `level` of a chain that is built by halving.
pub open spec fn chain_size(size: u32, level: int) -> i32
    decreases level,
{
    if level <= 0 {
        as_signed(size)
    } else {
        half(chain_size(size, level - 1))
    }
}

fn signed(n: u32) -> (r: i32)
    ensures
        r == as_signed(n),
{
    let r: i32 = n as i32;
    assert(n as i32 == if n <= 0x7fff_ffff {
        n as int
    } else {
        n - 0x1_0000_0000
    }) by (bit_vector);
    r
}

fn halve(n: i32) -> (r: i32)
    ensures
        r == half(n),
{
    if n < 2 {
        1
    } else {
        n / 2
    }
}

/// Color aspect of one level, all layers.
pub open spec fn one_level(level: u32, layers: u32) -> vk::SubresourceRange {
    vk::SubresourceRange {
        aspect_mask: vk::IMAGE_ASPECT_COLOR,
        base_mip_level: level,
        level_count: 1,
        base_array_layer: 0,
        layer_count: layers,
    }
}

pub open spec fn level_layers(level: u32, layers: u32) -> vk::SubresourceLayers {
    vk::SubresourceLayers {
        aspect_mask: vk::IMAGE_ASPECT_COLOR,
        mip_level: level,
        base_array_layer: 0,
        layer_count: layers,
    }
}

pub open spec fn chain_extent(t: VulkanTexture, level: int) -> vk::Offset3D {
    vk::Offset3D {
        x: chain_size(t.extent.width, level),
        y: chain_size(t.extent.height, level),
        z: chain_size(t.depth, level),
    }
}

/// Transition of one layer of the base level from the layout it is in to a transfer source.
pub open spec fn base_command(t: VulkanTexture, layer: u32, layout: i32) -> CommandView {
    CommandOf::ImageBarrier {
        src_stages: frame_graph::src_info_of(layout).0,
        dst_stages: vk::PIPELINE_STAGE_TRANSFER,
        barrier: vk::ImageBarrier {
            src_access_mask: frame_graph::src_info_of(layout).1,
            dst_access_mask: vk::ACCESS_TRANSFER_READ,
            old_layout: layout,
            new_layout: vk::IMAGE_LAYOUT_TRANSFER_SRC_OPTIMAL,
            image: t.image,
            subresource_range: one_layer(0, layer),
        },
    }
}

/// Transitions of the first `k` layers of the base level, each from its tracked layout.
pub open spec fn base_commands(base: Map<u64, Seq<i32>>, t: VulkanTexture, k: int) -> Seq<
    CommandView,
> {
    Seq::new(
        k as nat,
        |layer: int|
            base_command(t, layer as u32, base_layouts::layout_of(base, t.image, layer)),
    )
}

/// Brings level `level + 1` to its transfer layout, and level `level`, too, if it is not the base
/// level: it was written by the scaling before.
pub open spec fn scale_barrier(t: VulkanTexture, level: u32) -> CommandView {
    let second = vk::ImageBarrier {
        src_access_mask: 0,
        dst_access_mask: vk::ACCESS_TRANSFER_WRITE,
        old_layout: vk::IMAGE_LAYOUT_UNDEFINED,
        new_layout: vk::IMAGE_LAYOUT_TRANSFER_DST_OPTIMAL,
        image: t.image,
        subresource_range: one_level((level + 1) as u32, t.array_layers),
    };
    if level == 0 {
        CommandOf::ImageBarrier {
            src_stages: vk::PIPELINE_STAGE_TOP_OF_PIPE,
            dst_stages: vk::PIPELINE_STAGE_TRANSFER,
            barrier: second,
        }
    } else {
        CommandOf::ImageBarrierPair {
            src_stages: vk::PIPELINE_STAGE_TRANSFER,
            dst_stages: vk::PIPELINE_STAGE_TRANSFER,
            first: vk::ImageBarrier {
                src_access_mask: vk::ACCESS_TRANSFER_WRITE,
                dst_access_mask: vk::ACCESS_TRANSFER_READ,
                old_layout: vk::IMAGE_LAYOUT_TRANSFER_DST_OPTIMAL,
                new_layout: vk::IMAGE_LAYOUT_TRANSFER_SRC_OPTIMAL,
                image: t.image,
                subresource_range: one_level(level, t.array_layers),
            },
            second,
        }
    }
}

/// Commands that build level `level + 1` of a texture from level `level`, once the base level is a
/// transfer source: the levels are brought to their transfer layouts, the image is scaled down, and
/// the source becomes readable by fragment shaders. The source keeps its texels; what the other
/// level held is discarded.
#[verifier::opaque]
pub open spec fn level_commands(t: VulkanTexture, level: u32) -> Seq<CommandView> {
    let next = (level + 1) as u32;
    seq![
        scale_barrier(t, level),
        CommandOf::BlitImage {
            image: t.image,
            src_layout: vk::IMAGE_LAYOUT_TRANSFER_SRC_OPTIMAL,
            dst_layout: vk::IMAGE_LAYOUT_TRANSFER_DST_OPTIMAL,
            blit: ImageBlit {
                src_subresource: level_layers(level, t.array_layers),
                src_end: chain_extent(t, level as int),
                dst_subresource: level_layers(next, t.array_layers),
                dst_end: chain_extent(t, level + 1),
            },
            filter: vk::FILTER_LINEAR,
        },
        CommandOf::ImageBarrier {
            src_stages: vk::PIPELINE_STAGE_TRANSFER,
            dst_stages: vk::PIPELINE_STAGE_FRAGMENT_SHADER,
            barrier: vk::ImageBarrier {
                src_access_mask: vk::ACCESS_TRANSFER_READ,
                dst_access_mask: vk::ACCESS_SHADER_READ,
                old_layout: vk::IMAGE_LAYOUT_TRANSFER_SRC_OPTIMAL,
                new_layout: vk::IMAGE_LAYOUT_SHADER_READ_ONLY_OPTIMAL,
                image: t.image,
                subresource_range: one_level(level, t.array_layers),
            },
        },
    ]
}

/// Commands for the first `k` levels of a chain.
pub open spec fn levels_commands(t: VulkanTexture, k: int) -> Seq<CommandView>
    decreases k,
{
    if k <= 0 {
        Seq::empty()
    } else {
        levels_commands(t, k - 1) + level_commands(t, (k - 1) as u32)
    }
}

/// Makes the last level of a chain, which was only ever written, readable by fragment shaders.
pub open spec fn last_level_command(t: VulkanTexture) -> CommandView {
    CommandOf::ImageBarrier {
        src_stages: vk::PIPELINE_STAGE_TRANSFER,
        dst_stages: vk::PIPELINE_STAGE_FRAGMENT_SHADER,
        barrier: vk::ImageBarrier {
            src_access_mask: vk::ACCESS_TRANSFER_WRITE,
            dst_access_mask: vk::ACCESS_SHADER_READ,
            old_layout: vk::IMAGE_LAYOUT_TRANSFER_DST_OPTIMAL,
            new_layout: vk::IMAGE_LAYOUT_SHADER_READ_ONLY_OPTIMAL,
            image: t.image,
            subresource_range: one_level((t.mip_levels - 1) as u32, t.array_layers),
        },
    }
}

/// Commands that build the mip chain of a texture from its base level. A texture with one level
/// needs none.
pub open spec fn mipmap_commands(base: Map<u64, Seq<i32>>, t: VulkanTexture) -> Seq<CommandView> {
    if t.mip_levels < 2 {
        Seq::empty()
    } else {
        base_commands(base, t, t.array_layers as int) + levels_commands(t, t.mip_levels - 1).push(
            last_level_command(t),
        )
    }
}

/// Device after the mip chain of a texture was built. A dead handle is ignored.
pub open spec fn mipmaps_noted(v: DeviceView, h: TextureHandle) -> DeviceView {
    if v.textures.live(h) && v.textures.value(h).mip_levels >= 2 {
        DeviceView {
            base_layouts: base_layouts::noted_all(
                v.base_layouts,
                v.textures.value(h).image,
                vk::IMAGE_LAYOUT_SHADER_READ_ONLY_OPTIMAL,
            ),
            ..v
        }
    } else {
        v
    }
}

/// Device after an upload.
pub open spec fn upload_noted(v: DeviceView, upload: Upload) -> DeviceView {
    if upload.level == 0 {
        DeviceView {
            base_layouts: base_layouts::noted(
                v.base_layouts,
                upload.texture.image,
                upload.layer as int,
                vk::IMAGE_LAYOUT_SHADER_READ_ONLY_OPTIMAL,
            ),
            ..v
        }
    } else {
        v
    }
}

/// What is wrong with a request for a mip chain.
pub open spec fn mipmap_fault(v: DeviceView, h: TextureHandle) -> Option<GpuErrorView> {
    if !v.textures.live(h) {
        Some(GpuErrorView::Backend("generate_mipmaps: stale texture handle"@))
    } else if !hal::has_flags(
        v.textures.value(h).usage,
        vk::IMAGE_USAGE_TRANSFER_SRC | vk::IMAGE_USAGE_TRANSFER_DST,
    ) {
        Some(error::missing_usage_view("texture"@, "TRANSFER_SRC | TRANSFER_DST"@))
    } else {
        None
    }
}

fn level_range(level: u32, layers: u32) -> (range: vk::SubresourceRange)
    ensures
        range == one_level(level, layers),
{
    vk::SubresourceRange {
        aspect_mask: vk::IMAGE_ASPECT_COLOR,
        base_mip_level: level,
        level_count: 1,
        base_array_layer: 0,
        layer_count: layers,
    }
}

fn layers_of(level: u32, layers: u32) -> (r: vk::SubresourceLayers)
    ensures
        r == level_layers(level, layers),
{
    vk::SubresourceLayers {
        aspect_mask: vk::IMAGE_ASPECT_COLOR,
        mip_level: level,
        base_array_layer: 0,
        layer_count: layers,
    }
}

/// First barrier of a level of a mip chain.
fn plan_scale_barrier(t: &VulkanTexture, level: u32) -> (command: Command)
    requires
        level < u32::MAX,
    ensures
        command@ == scale_barrier(*t, level),
{
    let second = vk::ImageBarrier {
        src_access_mask: 0,
        dst_access_mask: vk::ACCESS_TRANSFER_WRITE,
        old_layout: vk::IMAGE_LAYOUT_UNDEFINED,
        new_layout: vk::IMAGE_LAYOUT_TRANSFER_DST_OPTIMAL,
        image: t.image,
        subresource_range: level_range(level + 1, t.array_layers),
    };
    if level == 0 {
        CommandOf::ImageBarrier {
            src_stages: vk::PIPELINE_STAGE_TOP_OF_PIPE,
            dst_stages: vk::PIPELINE_STAGE_TRANSFER,
            barrier: second,
        }
    } else {
        CommandOf::ImageBarrierPair {
            src_stages: vk::PIPELINE_STAGE_TRANSFER,
            dst_stages: vk::PIPELINE_STAGE_TRANSFER,
            first: vk::ImageBarrier {
                src_access_mask: vk::ACCESS_TRANSFER_WRITE,
                dst_access_mask: vk::ACCESS_TRANSFER_READ,
                old_layout: vk::IMAGE_LAYOUT_TRANSFER_DST_OPTIMAL,
                new_layout: vk::IMAGE_LAYOUT_TRANSFER_SRC_OPTIMAL,
                image: t.image,
                subresource_range: level_range(level, t.array_layers),
            },
            second,
        }
    }
}

/// Plans the transitions of the base level to a transfer source, layer by layer.
fn plan_base(t: &VulkanTexture, base: &BaseLayouts) -> (commands: Vec<Command>)
    ensures
        command::command_views(commands@) == base_commands(base@, *t, t.array_layers as int),
{
    let mut out: Vec<Command> = Vec::new();
    let mut layer: u32 = 0;
    assert(command::command_views(out@) =~= base_commands(base@, *t, 0));
    while layer < t.array_layers
        invariant
            layer <= t.array_layers,
            command::command_views(out@) == base_commands(base@, *t, layer as int),
        decreases t.array_layers - layer,
    {
        let ghost before = command::command_views(out@);
        let old_layout: i32 = base.layout(t.image, layer);
        let (src_stages, src_access_mask) = frame_graph::src_info(old_layout);
        out.push(
            CommandOf::ImageBarrier {
                src_stages,
                dst_stages: vk::PIPELINE_STAGE_TRANSFER,
                barrier: vk::ImageBarrier {
                    src_access_mask,
                    dst_access_mask: vk::ACCESS_TRANSFER_READ,
                    old_layout,
                    new_layout: vk::IMAGE_LAYOUT_TRANSFER_SRC_OPTIMAL,
                    image: t.image,
                    subresource_range: layer_range(0, layer),
                },
            },
        );
        assert(command::command_views(out@) =~= before.push(
            base_command(*t, layer, base_layouts::layout_of(base@, t.image, layer as int)),
        ));
        layer += 1;
        assert(command::command_views(out@) =~= base_commands(base@, *t, layer as int));
    }
    out
}

/// Plans the mip chain of a texture: level by level, each from the one before, and the first from
/// the base level, whose layers are in the layouts `base`.
pub fn plan_mipmaps(t: &VulkanTexture, base: &BaseLayouts) -> (commands: Vec<Command>)
    ensures
        command::command_views(commands@) == mipmap_commands(base@, *t),
{
    if t.mip_levels < 2 {
        let none: Vec<Command> = Vec::new();
        assert(command::command_views(none@) =~= Seq::<CommandView>::empty());
        return none;
    }
    let mut out = plan_base(t, base);
    let ghost first = command::command_views(out@);
    assert(first =~= first + levels_commands(*t, 0));
    let mut width: i32 = signed(t.extent.width);
    let mut height: i32 = signed(t.extent.height);
    let mut depth: i32 = signed(t.depth);
    let last: u32 = t.mip_levels - 1;
    let mut level: u32 = 0;
    while level < last
        invariant
            level <= last,
            last == t.mip_levels - 1,
            width == chain_size(t.extent.width, level as int),
            height == chain_size(t.extent.height, level as int),
            depth == chain_size(t.depth, level as int),
            command::command_views(out@) == first + levels_commands(*t, level as int),
        decreases last - level,
    {
        let next_width: i32 = halve(width);
        let next_height: i32 = halve(height);
        let next_depth: i32 = halve(depth);
        assert(next_width == chain_size(t.extent.width, level + 1));
        assert(next_height == chain_size(t.extent.height, level + 1));
        assert(next_depth == chain_size(t.depth, level + 1));
        let ghost before = out@;
        out.push(plan_scale_barrier(t, level));
        out.push(
            CommandOf::BlitImage {
                image: t.image,
                src_layout: vk::IMAGE_LAYOUT_TRANSFER_SRC_OPTIMAL,
                dst_layout: vk::IMAGE_LAYOUT_TRANSFER_DST_OPTIMAL,
                blit: ImageBlit {
                    src_subresource: layers_of(level, t.array_layers),
                    src_end: vk::Offset3D { x: width, y: height, z: depth },
                    dst_subresource: layers_of(level + 1, t.array_layers),
                    dst_end: vk::Offset3D { x: next_width, y: next_height, z: next_depth },
                },
                filter: vk::FILTER_LINEAR,
            },
        );
        out.push(
            CommandOf::ImageBarrier {
                src_stages: vk::PIPELINE_STAGE_TRANSFER,
                dst_stages: vk::PIPELINE_STAGE_FRAGMENT_SHADER,
                barrier: vk::ImageBarrier {
                    src_access_mask: vk::ACCESS_TRANSFER_READ,
                    dst_access_mask: vk::ACCESS_SHADER_READ,
                    old_layout: vk::IMAGE_LAYOUT_TRANSFER_SRC_OPTIMAL,
                    new_layout: vk::IMAGE_LAYOUT_SHADER_READ_ONLY_OPTIMAL,
                    image: t.image,
                    subresource_range: level_range(level, t.array_layers),
                },
            },
        );
        assert(command::command_views(out@) =~= command::command_views(before) + level_commands(
            *t,
            level,
        )) by {
            reveal(level_commands);
        }
        assert(command::command_views(out@) =~= first + levels_commands(*t, level + 1));
        width = next_width;
        height = next_height;
        depth = next_depth;
        level += 1;
    }
    let ghost before = out@;
    out.push(
        CommandOf::ImageBarrier {
            src_stages: vk::PIPELINE_STAGE_TRANSFER,
            dst_stages: vk::PIPELINE_STAGE_FRAGMENT_SHADER,
            barrier: vk::ImageBarrier {
                src_access_mask: vk::ACCESS_TRANSFER_WRITE,
                dst_access_mask: vk::ACCESS_SHADER_READ,
                old_layout: vk::IMAGE_LAYOUT_TRANSFER_DST_OPTIMAL,
                new_layout: vk::IMAGE_LAYOUT_SHADER_READ_ONLY_OPTIMAL,
                image: t.image,
                subresource_range: level_range(last, t.array_layers),
            },
        },
    );
    assert(command::command_views(out@) =~= command::command_views(before).push(
        last_level_command(*t),
    ));
    assert(command::command_views(out@) =~= mipmap_commands(base@, *t));
    out
}

impl VulkanDevice {
    /// Memory type to allocate for a new texture, among those that `type_bits` allows.
    pub fn texture_memory_type(&self, image: u64, type_bits: u32) -> (r: Result<u32, Unwind>)
        requires
            self@.wf(),
        ensures
            match r {
                Ok(i) => buffers::memory_type(
                    self@.memory_types,
                    type_bits,
                    vk::MEMORY_PROPERTY_DEVICE_LOCAL,
                ) == Some(i as int),
                Err(u) => buffers::memory_type(
                    self@.memory_types,
                    type_bits,
                    vk::MEMORY_PROPERTY_DEVICE_LOCAL,
                ) is None && u@ == (UnwindView {
                    cleanup: seq![Cleanup::DestroyImage(image)],
                    error: GpuErrorView::OutOfMemory(MemoryUsage::GpuOnly),
                }),
            },
    {
        match find_memory_type(&self.memory_types, type_bits, vk::MEMORY_PROPERTY_DEVICE_LOCAL) {
            Some(i) => Ok(i),
            None => Err(
                unwind_one(
                    Cleanup::DestroyImage(image),
                    GpuError::OutOfMemory(MemoryUsage::GpuOnly),
                ),
            ),
        }
    }

    /// Enters a new texture, whose image is in the undefined layout.
    pub fn insert_texture(&mut self, desc: &TextureDesc, image: u64, view: u64, memory: u64) -> (h:
        TextureHandle)
        requires
            old(self)@.wf(),
            old(self)@.textures.has_room(),
        ensures
            final(self)@.wf(),
            final(self)@ == texture_entered(old(self)@, texture_entry(*desc, image, view, memory)),
            h.slot() == old(self)@.textures.next_index(),
            h.gen() == old(self)@.textures.next_generation(),
    {
        let ghost v = self@;
        let entry = VulkanTexture {
            image,
            view,
            memory,
            format: formats::hal_format_to_vk(desc.format),
            extent: vk::Extent2D { width: desc.width, height: desc.height },
            depth: depth_of(desc),
            mip_levels: max_one(desc.mip_levels),
            array_layers: max_one(desc.array_layers),
            usage: formats::texture_usage_to_vk(desc.usage),
        };
        let h = self.textures.insert(entry);
        self.base_layouts.add_image(image, entry.array_layers);
        proof {
            assert(self@ =~= texture_entered(v, entry));
            lifetime::lemma_insert_texture_wf(v, entry);
        }
        h
    }

    /// What a sampler is created with.
    pub fn create_sampler(&self, desc: &SamplerDesc) -> (info: SamplerCreateInfo)
        ensures
            info == sampler_info(self@.info.sampler_anisotropy, *desc),
    {
        SamplerCreateInfo {
            mag_filter: formats::filter_to_vk(desc.mag_filter),
            min_filter: formats::filter_to_vk(desc.min_filter),
            mipmap_mode: formats::mipmap_mode_to_vk(desc.mip_filter),
            address_mode: formats::address_to_vk(desc.address),
            anisotropy_enable: self.info.sampler_anisotropy && desc.anisotropy > 1,
            compare_enable: desc.compare.is_some(),
            compare_op: formats::compare_fn_to_vk(
                match desc.compare {
                    Some(c) => c,
                    None => CompareFn::Always,
                },
            ),
            border_color: formats::border_color_to_vk(desc.border),
        }
    }

    /// Enters a new sampler.
    pub fn insert_sampler(&mut self, sampler: u64) -> (h: SamplerHandle)
        requires
            old(self)@.wf(),
            old(self)@.samplers.has_room(),
        ensures
            final(self)@.wf(),
            final(self)@ == (DeviceView {
                samplers: old(self)@.samplers.insert(sampler),
                ..old(self)@
            }),
            h.slot() == old(self)@.samplers.next_index(),
            h.gen() == old(self)@.samplers.next_generation(),
    {
        let ghost v = self@;
        let h = self.samplers.insert(sampler);
        proof {
            assert(self@ =~= DeviceView { samplers: v.samplers.insert(sampler), ..v });
            lifetime::lemma_insert_sampler_wf(v, sampler);
        }
        h
    }

    /// Registers a texture, sampled with `sampler`, in the bindless table at its own slot. The
    /// descriptor is to be written; its element is the index that shaders use. `None` for a
    /// dead handle, a slot outside the table, or while submissions are in flight.
    pub fn bind_texture(&mut self, texture: TextureHandle, sampler: SamplerHandle) -> (r: Option<
        TextureDescriptor,
    >)
        requires
            old(self)@.wf(),
        ensures
            final(self)@.wf(),
            match r {
                Some(d) => bindable(old(self)@, texture, sampler) && d == texture_descriptor(
                    old(self)@,
                    texture,
                    sampler,
                ) && final(self)@ == (DeviceView {
                    bound_textures: old(self)@.bound_textures.update(texture.slot() as int, true),
                    ..old(self)@
                }),
                None => !bindable(old(self)@, texture, sampler) && final(self)@ == old(self)@,
            },
    {
        let ghost v = self@;
        if texture.index() >= self.bindless.texture_capacity {
            return None;
        }
        let view: u64 = match self.textures.get(texture) {
            Some(t) => t.view,
            None => {
                return None;
            },
        };
        let vk_sampler: u64 = match self.samplers.get(sampler) {
            Some(s) => s,
            None => {
                return None;
            },
        };
        if self.in_flight != 0 {
            return None;
        }
        self.bound_textures.set(texture.index() as usize, true);
        proof {
            assert(self@ =~= DeviceView {
                bound_textures: v.bound_textures.update(texture.slot() as int, true),
                ..v
            });
            lifetime::lemma_bound_wf(v, texture.slot() as int);
        }
        Some(
            TextureDescriptor {
                set: self.bindless.set,
                binding: 1,
                element: texture.index(),
                sampler: vk_sampler,
                image_view: view,
                image_layout: vk::IMAGE_LAYOUT_SHADER_READ_ONLY_OPTIMAL,
            },
        )
    }

    /// Plans an upload to the first level and layer of a texture.
    pub fn upload_texture_data(&self, texture: TextureHandle, data: &[u8]) -> (r: Result<
        Upload,
        GpuError,
    >)
        ensures
            upload_planned(self@, texture, 0, 0, data@, r),
    {
        self.upload_texture_data_region(texture, 0, 0, data)
    }

    /// Plans an upload to one level and layer of a texture.
    pub fn upload_texture_data_region(
        &self,
        texture: TextureHandle,
        mip_level: u32,
        layer: u32,
        data: &[u8],
    ) -> (r: Result<Upload, GpuError>)
        requires
            self@.textures.live(texture) ==> mip_level < 32,
        ensures
            upload_planned(self@, texture, mip_level, layer, data@, r),
    {
        match self.textures.get(texture) {
            Some(t) => Ok(
                Upload {
                    texture: t,
                    level: mip_level,
                    layer,
                    staging: BufferDesc {
                        size: data.len() as u64,
                        usage: BufferUsage { bits: BUFFER_TRANSFER_SRC },
                        memory: MemoryUsage::Upload,
                    },
                },
            ),
            None => Err(
                GpuError::Backend("upload_texture_data: stale texture handle".to_owned()),
            ),
        }
    }

    /// Plans a copy of a rendered texture to a buffer.
    pub fn copy_texture_to_buffer(&self, texture: TextureHandle, buffer: BufferHandle) -> (r: Result<
        Vec<Command>,
        GpuError,
    >)
        ensures
            match r {
                Ok(commands) => self@.textures.live(texture) && self@.buffers.live(buffer)
                    && command::command_views(commands@) == readback_commands(
                    self@.textures.value(texture),
                    self@.buffers.value(buffer).buffer,
                ),
                Err(e) => e@ == GpuErrorView::Backend(
                    if !self@.textures.live(texture) {
                        "copy_texture_to_buffer: stale texture handle"@
                    } else {
                        "copy_texture_to_buffer: stale buffer handle"@
                    },
                ) && !(self@.textures.live(texture) && self@.buffers.live(buffer)),
            },
    {
        let t = match self.textures.get(texture) {
            Some(t) => t,
            None => {
                return Err(
                    GpuError::Backend("copy_texture_to_buffer: stale texture handle".to_owned()),
                );
            },
        };
        let b = match self.buffers.get(buffer) {
            Some(b) => b,
            None => {
                return Err(
                    GpuError::Backend("copy_texture_to_buffer: stale buffer handle".to_owned()),
                );
            },
        };
        let mut out: Vec<Command> = Vec::new();
        out.push(
            CommandOf::ImageBarrier {
                src_stages: vk::PIPELINE_STAGE_COLOR_ATTACHMENT_OUTPUT,
                dst_stages: vk::PIPELINE_STAGE_TRANSFER,
                barrier: vk::ImageBarrier {
                    src_access_mask: vk::ACCESS_COLOR_ATTACHMENT_WRITE,
                    dst_access_mask: vk::ACCESS_TRANSFER_READ,
                    old_layout: vk::IMAGE_LAYOUT_COLOR_ATTACHMENT_OPTIMAL,
                    new_layout: vk::IMAGE_LAYOUT_TRANSFER_SRC_OPTIMAL,
                    image: t.image,
                    subresource_range: layer_range(0, 0),
                },
            },
        );
        out.push(
            CommandOf::CopyImageToBuffer {
                image: t.image,
                image_layout: vk::IMAGE_LAYOUT_TRANSFER_SRC_OPTIMAL,
                buffer: b.buffer,
                region: BufferImageCopy {
                    buffer_offset: 0,
                    image_subresource: vk::SubresourceLayers {
                        aspect_mask: vk::IMAGE_ASPECT_COLOR,
                        mip_level: 0,
                        base_array_layer: 0,
                        layer_count: 1,
                    },
                    image_extent: vk::Extent3D {
                        width: t.extent.width,
                        height: t.extent.height,
                        depth: 1,
                    },
                },
            },
        );
        out.push(
            CommandOf::ImageBarrier {
                src_stages: vk::PIPELINE_STAGE_TRANSFER,
                dst_stages: vk::PIPELINE_STAGE_COLOR_ATTACHMENT_OUTPUT,
                barrier: vk::ImageBarrier {
                    src_access_mask: vk::ACCESS_TRANSFER_READ,
                    dst_access_mask: vk::ACCESS_COLOR_ATTACHMENT_WRITE,
                    old_layout: vk::IMAGE_LAYOUT_TRANSFER_SRC_OPTIMAL,
                    new_layout: vk::IMAGE_LAYOUT_COLOR_ATTACHMENT_OPTIMAL,
                    image: t.image,
                    subresource_range: layer_range(0, 0),
                },
            },
        );
        assert(command::command_views(out@) =~= readback_commands(t, b.buffer));
        Ok(out)
    }

    /// Plans the mip chain of a texture from its base level. No commands means that there is nothing
    /// to do.
    pub fn generate_mipmaps(&self, h: TextureHandle) -> (r: Result<Vec<Command>, GpuError>)
        ensures
            match r {
                Ok(commands) => mipmap_fault(self@, h) is None && command::command_views(commands@)
                    == mipmap_commands(self@.base_layouts, self@.textures.value(h)),
                Err(e) => mipmap_fault(self@, h) == Some(e@),
            },
    {
        let t = match self.textures.get(h) {
            Some(t) => t,
            None => {
                return Err(
                    GpuError::Backend("generate_mipmaps: stale texture handle".to_owned()),
                );
            },
        };
        if !contains_flags(
            t.usage,
            vk::IMAGE_USAGE_TRANSFER_SRC | vk::IMAGE_USAGE_TRANSFER_DST,
        ) {
            return Err(missing_usage("texture", "TRANSFER_SRC | TRANSFER_DST"));
        }
        Ok(plan_mipmaps(&t, &self.base_layouts))
    }

    /// Notes that the commands of a mip chain have run: every layer of the base level is readable
    /// by shaders.
    pub fn mipmaps_generated(&mut self, h: TextureHandle)
        requires
            old(self)@.wf(),
        ensures
            final(self)@.wf(),
            final(self)@ == mipmaps_noted(old(self)@, h),
    {
        let ghost v = self@;
        if let Some(t) = self.textures.get(h) {
            if t.mip_levels >= 2 {
                self.base_layouts.note_all(t.image, vk::IMAGE_LAYOUT_SHADER_READ_ONLY_OPTIMAL);
            }
        }
        proof {
            assert(self@ =~= mipmaps_noted(v, h));
            lifetime::lemma_same_tables_wf(v, self@);
        }
    }

    /// Notes that the commands of an upload have run: the layer of the base level that it filled is
    /// readable by shaders.
    pub fn texture_uploaded(&mut self, upload: &Upload)
        requires
            old(self)@.wf(),
        ensures
            final(self)@.wf(),
            final(self)@ == upload_noted(old(self)@, *upload),
    {
        let ghost v = self@;
        if upload.level == 0 {
            self.base_layouts.note(
                upload.texture.image,
                upload.layer,
                vk::IMAGE_LAYOUT_SHADER_READ_ONLY_OPTIMAL,
            );
        }
        proof {
            assert(self@ =~= upload_noted(v, *upload));
            lifetime::lemma_same_tables_wf(v, self@);
        }
    }
}

/// Plans the commands of an upload, once its staging buffer holds the data.
pub fn plan_upload(upload: &Upload, staging: u64) -> (commands: Vec<Command>)
    requires
        upload.level < 32,
    ensures
        command::command_views(commands@) == upload_commands(
            upload.texture,
            upload.level,
            upload.layer,
            staging,
        ),
{
    let t = &upload.texture;
    let level: u32 = upload.level;
    let layer: u32 = upload.layer;
    let mut out: Vec<Command> = Vec::new();
    out.push(
        CommandOf::ImageBarrier {
            src_stages: vk::PIPELINE_STAGE_TOP_OF_PIPE,
            dst_stages: vk::PIPELINE_STAGE_TRANSFER,
            barrier: vk::ImageBarrier {
                src_access_mask: 0,
                dst_access_mask: vk::ACCESS_TRANSFER_WRITE,
                old_layout: vk::IMAGE_LAYOUT_UNDEFINED,
                new_layout: vk::IMAGE_LAYOUT_TRANSFER_DST_OPTIMAL,
                image: t.image,
                subresource_range: layer_range(level, layer),
            },
        },
    );
    out.push(
        CommandOf::CopyBufferToImage {
            buffer: staging,
            image: t.image,
            image_layout: vk::IMAGE_LAYOUT_TRANSFER_DST_OPTIMAL,
            region: BufferImageCopy {
                buffer_offset: 0,
                image_subresource: vk::SubresourceLayers {
                    aspect_mask: vk::IMAGE_ASPECT_COLOR,
                    mip_level: level,
                    base_array_layer: layer,
                    layer_count: 1,
                },
                image_extent: vk::Extent3D {
                    width: mip_size_at(t.extent.width, level),
                    height: mip_size_at(t.extent.height, level),
                    depth: mip_size_at(t.depth, level),
                },
            },
        },
    );
    out.push(
        CommandOf::ImageBarrier {
            src_stages: vk::PIPELINE_STAGE_TRANSFER,
            dst_stages: vk::PIPELINE_STAGE_FRAGMENT_SHADER,
            barrier: vk::ImageBarrier {
                src_access_mask: vk::ACCESS_TRANSFER_WRITE,
                dst_access_mask: vk::ACCESS_SHADER_READ,
                old_layout: vk::IMAGE_LAYOUT_TRANSFER_DST_OPTIMAL,
                new_layout: vk::IMAGE_LAYOUT_SHADER_READ_ONLY_OPTIMAL,
                image: t.image,
                subresource_range: layer_range(level, layer),
            },
        },
    );
    assert(command::command_views(out@) =~= upload_commands(*t, level, layer, staging));
    out
}

// ── Laws ───────────────────────────────────────────────────────────────────────

/// A mip chain has the sizes that uploads to its levels have: each level is half the one
/// before, rounded down, and at least one texel.
pub proof fn chain_matches_uploads(size: u32, level: u32)
    requires
        1 <= size <= 0x7fff_ffff,
        level < 32,
    ensures
        chain_size(size, level as int) == mip_size(size, level),
        chain_size(size, level as int) >= 1,
    decreases level,
{
    if level == 0 {
        assert(size >> 0u32 == size) by (bit_vector);
    } else {
        let prev = (level - 1) as u32;
        chain_matches_uploads(size, prev);
        assert(size >> level == (size >> prev) / 2) by (bit_vector)
            requires
                0 < level < 32,
                prev == level - 1,
        ;
        assert(size >> prev <= size) by (bit_vector)
            requires
                prev < 32,
        ;
    }
}

/// The commands for a mip chain: one for each layer of the base level, from the layout it is in,
/// three for each level that is read, with the scaling in the middle and the level readable by
/// shaders at the end, and one that makes the last level readable.
pub proof fn mip_chain_is_complete(
    base: Map<u64, Seq<i32>>,
    t: VulkanTexture,
    layer: int,
    level: int,
)
    requires
        t.mip_levels >= 2,
        0 <= layer < t.array_layers,
        0 <= level < t.mip_levels - 1,
    ensures
        ({
            let commands = mipmap_commands(base, t);
            let start = t.array_layers + 3 * level;
            &&& commands.len() == t.array_layers + 3 * (t.mip_levels - 1) + 1
            &&& commands[layer] == base_command(
                t,
                layer as u32,
                base_layouts::layout_of(base, t.image, layer),
            )
            &&& commands.subrange(start, start + 3) == level_commands(t, level as u32)
            &&& commands.last() == last_level_command(t)
        }),
{
    lemma_levels(t, t.mip_levels - 1, level);
    let start = t.array_layers + 3 * level;
    assert(mipmap_commands(base, t).subrange(start, start + 3) =~= levels_commands(
        t,
        t.mip_levels - 1,
    ).subrange(3 * level, 3 * level + 3));
}

proof fn lemma_levels(t: VulkanTexture, k: int, level: int)
    requires
        0 <= level < k,
    ensures
        levels_commands(t, k).len() == 3 * k,
        levels_commands(t, k).subrange(3 * level, 3 * level + 3) == level_commands(
            t,
            level as u32,
        ),
    decreases k,
{
    lemma_levels_len(t, k - 1);
    lemma_level_len(t, (k - 1) as u32);
    if level == k - 1 {
        assert(levels_commands(t, k).subrange(3 * level, 3 * level + 3) =~= level_commands(
            t,
            level as u32,
        ));
    } else {
        lemma_levels(t, k - 1, level);
        assert(levels_commands(t, k).subrange(3 * level, 3 * level + 3) =~= levels_commands(
            t,
            k - 1,
        ).subrange(3 * level, 3 * level + 3));
    }
}

proof fn lemma_levels_len(t: VulkanTexture, k: int)
    requires
        0 <= k,
    ensures
        levels_commands(t, k).len() == 3 * k,
    decreases k,
{
    if k > 0 {
        lemma_levels_len(t, k - 1);
        lemma_level_len(t, (k - 1) as u32);
    }
}

proof fn lemma_level_len(t: VulkanTexture, level: u32)
    ensures
        level_commands(t, level).len() == 3,
{
    reveal(level_commands);
}

/// Registering a texture makes dispatches that use its index acceptable, and destroying it
/// takes that back.
pub proof fn bound_until_destroyed(v: DeviceView, texture: TextureHandle, sampler: SamplerHandle)
    requires
        v.wf(),
        bindable(v, texture, sampler),
    ensures
        ({
            let bound = DeviceView {
                bound_textures: v.bound_textures.update(texture.slot() as int, true),
                ..v
            };
            let gone = lifetime::texture_destroyed(bound, texture);
            &&& crate::device::dispatch::texture_fault(bound, texture.slot()) is None
            &&& crate::device::dispatch::texture_fault(gone, texture.slot()) is Some
        }),
{
}

/// The image of a texture is as large as its description, in the format and with the uses that
/// it names; a volume has its depth and every other texture one slice, and levels and layers are
/// at least one. Only a cube can be viewed as one.
pub proof fn image_follows_description(desc: TextureDesc)
    ensures
        ({
            let i = texture_image(desc);
            &&& i.extent.width == desc.width
            &&& i.extent.height == desc.height
            &&& !(desc.dimension is D3) ==> i.extent.depth == 1
            &&& desc.dimension is D3 && desc.depth > 0 ==> i.extent.depth == desc.depth
            &&& i.extent.depth >= 1
            &&& desc.mip_levels > 0 ==> i.mip_levels == desc.mip_levels
            &&& desc.mip_levels == 0 ==> i.mip_levels == 1
            &&& desc.array_layers > 0 ==> i.array_layers == desc.array_layers
            &&& desc.array_layers == 0 ==> i.array_layers == 1
            &&& i.flags == 0x10 <==> desc.dimension is Cube
            &&& i.flags == 0 <==> !(desc.dimension is Cube)
            &&& i.image_type == vk::IMAGE_TYPE_3D <==> desc.dimension is D3
            &&& i.image_type == vk::IMAGE_TYPE_2D <==> !(desc.dimension is D3)
            &&& desc.format is Rgba8Unorm <==> i.format == vk::FORMAT_R8G8B8A8_UNORM
            &&& desc.format is Rgba8UnormSrgb <==> i.format == vk::FORMAT_R8G8B8A8_SRGB
            &&& desc.format is Bgra8Unorm <==> i.format == vk::FORMAT_B8G8R8A8_UNORM
            &&& desc.format is Bgra8UnormSrgb <==> i.format == vk::FORMAT_B8G8R8A8_SRGB
            &&& desc.format is R32Float <==> i.format == vk::FORMAT_R32_SFLOAT
            &&& desc.format is Depth32Float <==> i.format == vk::FORMAT_D32_SFLOAT
            &&& desc.format is Depth24PlusStencil8 <==> i.format == vk::FORMAT_D24_UNORM_S8_UINT
            &&& formats::has_bit(i.usage, vk::IMAGE_USAGE_SAMPLED) <==> formats::has_bit(
                desc.usage.bits,
                hal::TEXTURE_SAMPLED,
            )
            &&& formats::has_bit(i.usage, vk::IMAGE_USAGE_STORAGE) <==> formats::has_bit(
                desc.usage.bits,
                hal::TEXTURE_STORAGE,
            )
            &&& formats::has_bit(i.usage, vk::IMAGE_USAGE_COLOR_ATTACHMENT) <==> formats::has_bit(
                desc.usage.bits,
                hal::TEXTURE_RENDER_TARGET,
            )
            &&& formats::has_bit(i.usage, vk::IMAGE_USAGE_DEPTH_STENCIL_ATTACHMENT)
                <==> formats::has_bit(desc.usage.bits, hal::TEXTURE_DEPTH_STENCIL)
            &&& formats::has_bit(i.usage, vk::IMAGE_USAGE_TRANSFER_SRC) <==> formats::has_bit(
                desc.usage.bits,
                hal::TEXTURE_TRANSFER_SRC,
            )
            &&& formats::has_bit(i.usage, vk::IMAGE_USAGE_TRANSFER_DST) <==> formats::has_bit(
                desc.usage.bits,
                hal::TEXTURE_TRANSFER_DST,
            )
        }),
{
    formats::texture_usage_is_exact(desc.usage);
}

/// A cube texture is refused unless it has six layers; every other texture is accepted.
pub proof fn cubes_have_six_faces(desc: TextureDesc)
    ensures
        cube_fault(desc) <==> desc.dimension is Cube && desc.array_layers != 6,
{
}

/// A texture is viewed in its own format, from the first level and layer to the last, as what
/// it is: a cube, a volume, an array where it has more than one layer, or a plain image.
pub proof fn view_sees_all_of_the_image(desc: TextureDesc, image: u64)
    ensures
        ({
            let i = texture_image(desc);
            let w = texture_view(desc, image);
            let range = w.subresource_range;
            &&& w.image == image
            &&& w.format == i.format
            &&& range.aspect_mask == vk::IMAGE_ASPECT_COLOR
            &&& range.base_mip_level == 0
            &&& range.level_count == i.mip_levels
            &&& range.base_array_layer == 0
            &&& range.layer_count == i.array_layers
            &&& w.view_type == vk::IMAGE_VIEW_TYPE_CUBE <==> desc.dimension is Cube
            &&& w.view_type == vk::IMAGE_VIEW_TYPE_3D <==> desc.dimension is D3
            &&& w.view_type == vk::IMAGE_VIEW_TYPE_2D_ARRAY <==> desc.dimension is D2
                && desc.array_layers > 1
            &&& w.view_type == vk::IMAGE_VIEW_TYPE_2D <==> desc.dimension is D2
                && desc.array_layers <= 1
        }),
{
}

/// The entry of a texture remembers its objects and what its image was created with.
pub proof fn entry_remembers_the_image(desc: TextureDesc, image: u64, view: u64, memory: u64)
    ensures
        ({
            let i = texture_image(desc);
            let t = texture_entry(desc, image, view, memory);
            &&& t.image == image
            &&& t.view == view
            &&& t.memory == memory
            &&& t.format == i.format
            &&& t.extent.width == i.extent.width
            &&& t.extent.height == i.extent.height
            &&& t.depth == i.extent.depth
            &&& t.mip_levels == i.mip_levels
            &&& t.array_layers == i.array_layers
            &&& t.usage == i.usage
        }),
{
}

/// A sampler filters, addresses, compares and clamps as its description says, by name. It is
/// anisotropic where the description asks for more than one sample and the device can do it,
/// and compares exactly where a comparison is named.
pub proof fn sampler_follows_description(anisotropic: bool, desc: SamplerDesc)
    ensures
        ({
            let s = sampler_info(anisotropic, desc);
            &&& s.min_filter == vk::FILTER_LINEAR <==> desc.min_filter is Linear
            &&& s.min_filter == vk::FILTER_NEAREST <==> desc.min_filter is Nearest
            &&& s.mag_filter == vk::FILTER_LINEAR <==> desc.mag_filter is Linear
            &&& s.mag_filter == vk::FILTER_NEAREST <==> desc.mag_filter is Nearest
            &&& s.mipmap_mode == vk::SAMPLER_MIPMAP_MODE_LINEAR <==> desc.mip_filter is Linear
            &&& s.mipmap_mode == vk::SAMPLER_MIPMAP_MODE_NEAREST <==> desc.mip_filter is Nearest
            &&& s.address_mode == vk::SAMPLER_ADDRESS_MODE_CLAMP_TO_EDGE
                <==> desc.address is ClampToEdge
            &&& s.address_mode == vk::SAMPLER_ADDRESS_MODE_REPEAT <==> desc.address is Repeat
            &&& s.address_mode == vk::SAMPLER_ADDRESS_MODE_MIRRORED_REPEAT
                <==> desc.address is MirrorRepeat
            &&& s.border_color == vk::BORDER_COLOR_FLOAT_TRANSPARENT_BLACK
                <==> desc.border is TransparentBlack
            &&& s.border_color == vk::BORDER_COLOR_FLOAT_OPAQUE_BLACK
                <==> desc.border is OpaqueBlack
            &&& s.border_color == vk::BORDER_COLOR_FLOAT_OPAQUE_WHITE
                <==> desc.border is OpaqueWhite
            &&& s.anisotropy_enable <==> anisotropic && desc.anisotropy > 1
            &&& s.compare_enable <==> desc.compare is Some
            &&& desc.compare == Some(CompareFn::Never) <==> s.compare_op == vk::COMPARE_OP_NEVER
            &&& desc.compare == Some(CompareFn::Less) <==> s.compare_op == vk::COMPARE_OP_LESS
            &&& desc.compare == Some(CompareFn::Equal) <==> s.compare_op == vk::COMPARE_OP_EQUAL
            &&& desc.compare == Some(CompareFn::LessEqual) <==> s.compare_op
                == vk::COMPARE_OP_LESS_OR_EQUAL
            &&& desc.compare == Some(CompareFn::Greater) <==> s.compare_op
                == vk::COMPARE_OP_GREATER
            &&& desc.compare == Some(CompareFn::GreaterEqual) <==> s.compare_op
                == vk::COMPARE_OP_GREATER_OR_EQUAL
            &&& desc.compare == Some(CompareFn::NotEqual) <==> s.compare_op
                == vk::COMPARE_OP_NOT_EQUAL
            &&& desc.compare == Some(CompareFn::Always) || desc.compare is None <==> s.compare_op
                == vk::COMPARE_OP_ALWAYS
        }),
{
}

/// A texture is registered under its own slot, so that shaders find it by that index, and in
/// the second table, with its own view and the sampler that was named; it is read while it is
/// readable by shaders. Only live handles inside the table are registered, and only while
/// nothing is in flight.
pub proof fn texture_is_registered_at_its_slot(
    v: DeviceView,
    texture: TextureHandle,
    sampler: SamplerHandle,
)
    ensures
        ({
            let d = texture_descriptor(v, texture, sampler);
            &&& d.set == v.bindless.set
            &&& d.binding == 1
            &&& d.element == texture.slot()
            &&& d.sampler == v.samplers.value(sampler)
            &&& d.image_view == v.textures.value(texture).view
            &&& d.image_layout == vk::IMAGE_LAYOUT_SHADER_READ_ONLY_OPTIMAL
        }),
        bindable(v, texture, sampler) <==> v.textures.live(texture) && v.samplers.live(sampler)
            && texture.slot() < v.bindless.texture_capacity && v.in_flight == 0,
{
}

/// The size of a mip level is that of the level before, halved and rounded down, and at least
/// one; the first level has the size of the image.
pub proof fn mip_sizes_halve(size: u32, level: u32)
    requires
        level < 31,
    ensures
        size > 0 ==> mip_size(size, 0) == size,
        mip_size(size, level) >= 1,
        mip_size(size, (level + 1) as u32) == 1 || mip_size(size, (level + 1) as u32) == mip_size(
            size,
            level,
        ) / 2,
        mip_size(size, level) >= 2 ==> mip_size(size, (level + 1) as u32) == mip_size(size, level)
            / 2,
        1 <= size <= 0x7fff_ffff ==> chain_size(size, 0) == size,
        chain_size(size, level as int) >= 2 ==> chain_size(size, level + 1) == chain_size(
            size,
            level as int,
        ) / 2,
        chain_size(size, level as int) < 2 ==> chain_size(size, level + 1) == 1,
{
    let next = (level + 1) as u32;
    assert(size >> 0u32 == size) by (bit_vector);
    assert(size >> next == (size >> level) / 2) by (bit_vector)
        requires
            level < 31,
            next == level + 1,
    ;
}

/// An upload stages exactly the data, in memory that the host writes, for a copy out of it.
pub proof fn upload_stages_the_data(
    v: DeviceView,
    texture: TextureHandle,
    level: u32,
    layer: u32,
    data: Seq<u8>,
    r: Result<Upload, GpuError>,
)
    requires
        upload_planned(v, texture, level, layer, data, r),
    ensures
        r is Ok <==> v.textures.live(texture),
        r matches Ok(upload) ==> {
            &&& upload.texture == v.textures.value(texture)
            &&& upload.level == level
            &&& upload.layer == layer
            &&& upload.staging.size == data.len() as u64
            &&& upload.staging.usage.bits == 0x20
            &&& upload.staging.memory is Upload
        },
        r matches Err(e) ==> e@ == GpuErrorView::Backend(
            "upload_texture_data: stale texture handle"@,
        ),
{
}

/// An upload is one copy from the start of the staging buffer, tightly packed, to all of one
/// level and layer: the copy has the size of the level.
pub proof fn upload_fills_its_level(t: VulkanTexture, level: u32, layer: u32, staging: u64)
    ensures
        ({
            let c = upload_commands(t, level, layer, staging);
            &&& c.len() == 3
            &&& c[0] is ImageBarrier
            &&& c[2] is ImageBarrier
            &&& c[1] matches CommandOf::CopyBufferToImage { buffer, image, region, .. } && {
                &&& buffer == staging
                &&& image == t.image
                &&& region.buffer_offset == 0
                &&& region.image_subresource.aspect_mask == vk::IMAGE_ASPECT_COLOR
                &&& region.image_subresource.mip_level == level
                &&& region.image_subresource.base_array_layer == layer
                &&& region.image_subresource.layer_count == 1
                &&& region.image_extent.width == mip_size(t.extent.width, level)
                &&& region.image_extent.height == mip_size(t.extent.height, level)
                &&& region.image_extent.depth == mip_size(t.depth, level)
                &&& level == 0 && t.extent.width > 0 ==> region.image_extent.width
                    == t.extent.width
                &&& level == 0 && t.extent.height > 0 ==> region.image_extent.height
                    == t.extent.height
            }
        }),
{
    let w = t.extent.width;
    let h = t.extent.height;
    assert(w >> 0u32 == w && h >> 0u32 == h) by (bit_vector);
}

/// Reading back is one copy of all of the first level and layer to the start of the buffer.
pub proof fn readback_copies_the_image(t: VulkanTexture, target: u64)
    ensures
        ({
            let c = readback_commands(t, target);
            &&& c.len() == 3
            &&& c[0] is ImageBarrier
            &&& c[2] is ImageBarrier
            &&& c[1] matches CommandOf::CopyImageToBuffer { image, buffer, region, .. } && {
                &&& image == t.image
                &&& buffer == target
                &&& region.buffer_offset == 0
                &&& region.image_subresource.aspect_mask == vk::IMAGE_ASPECT_COLOR
                &&& region.image_subresource.mip_level == 0
                &&& region.image_subresource.base_array_layer == 0
                &&& region.image_subresource.layer_count == 1
                &&& region.image_extent.width == t.extent.width
                &&& region.image_extent.height == t.extent.height
                &&& region.image_extent.depth == 1
            }
        }),
{
}

/// Each level of a chain is scaled down, smoothly, from all of the level before to all of it,
/// in every layer: each size is half of the one it comes from, and at least one.
pub proof fn level_is_half_of_the_one_before(t: VulkanTexture, level: u32)
    requires
        level < u32::MAX,
    ensures
        ({
            let c = level_commands(t, level);
            let next = level + 1;
            &&& c.len() == 3
            &&& c[1] matches CommandOf::BlitImage { image, blit, filter, .. } && {
                let (from, to) = (blit.src_end, blit.dst_end);
                &&& image == t.image
                &&& filter == vk::FILTER_LINEAR
                &&& blit.src_subresource.aspect_mask == vk::IMAGE_ASPECT_COLOR
                &&& blit.src_subresource.mip_level == level
                &&& blit.src_subresource.base_array_layer == 0
                &&& blit.src_subresource.layer_count == t.array_layers
                &&& blit.dst_subresource.aspect_mask == vk::IMAGE_ASPECT_COLOR
                &&& blit.dst_subresource.mip_level == next
                &&& blit.dst_subresource.base_array_layer == 0
                &&& blit.dst_subresource.layer_count == t.array_layers
                &&& from.x >= 2 ==> to.x == from.x / 2
                &&& from.x < 2 ==> to.x == 1
                &&& from.y >= 2 ==> to.y == from.y / 2
                &&& from.y < 2 ==> to.y == 1
                &&& from.z >= 2 ==> to.z == from.z / 2
                &&& from.z < 2 ==> to.z == 1
                &&& level == 0 && t.extent.width <= 0x7fff_ffff ==> from.x == t.extent.width
                &&& level == 0 && t.extent.height <= 0x7fff_ffff ==> from.y == t.extent.height
                &&& level == 0 && t.depth <= 0x7fff_ffff ==> from.z == t.depth
            }
        }),
{
    reveal(level_commands);
}

/// What one level is scaled to is what the next is scaled from.
pub proof fn levels_follow_each_other(t: VulkanTexture, level: u32)
    requires
        level < u32::MAX - 1,
    ensures
        level_commands(t, level)[1] matches CommandOf::BlitImage { blit: one, .. } && (
        level_commands(t, (level + 1) as u32)[1] matches CommandOf::BlitImage { blit: two, .. }
            && one.dst_end == two.src_end && one.dst_subresource == two.src_subresource),
{
    reveal(level_commands);
}

/// A mip chain is refused exactly where the texture is dead, or cannot be copied both from and
/// to.
pub proof fn mip_chain_is_refused_iff(v: DeviceView, h: TextureHandle)
    ensures
        mipmap_fault(v, h) is None <==> v.textures.live(h) && formats::has_bit(
            v.textures.value(h).usage,
            vk::IMAGE_USAGE_TRANSFER_SRC,
        ) && formats::has_bit(v.textures.value(h).usage, vk::IMAGE_USAGE_TRANSFER_DST),
{
    let u = v.textures.value(h).usage;
    assert(u & (0x1u32 | 0x2u32) == 0x1u32 | 0x2u32 <==> u & 0x1 != 0 && u & 0x2 != 0)
        by (bit_vector);
}

/// A chain of one level needs no commands.
pub proof fn single_levels_need_no_chain(base: Map<u64, Seq<i32>>, t: VulkanTexture)
    requires
        t.mip_levels <= 1,
    ensures
        mipmap_commands(base, t).len() == 0,
{
}

} // verus!
