//! Commands that a command buffer is recorded with, and objects that are destroyed.
use vstd::prelude::*;

use crate::vk::{
    Extent2D, Extent3D, ImageBarrier, MemoryBarrier, Offset3D, SubresourceLayers, SubresourceRange,
};

verus! {

/// Four color components, or a depth in the first, as bits of IEEE 754 singles.
#[derive(Clone, Copy, PartialEq, Eq, Structural, Debug)]
pub struct ClearValue {
    pub r: u32,
    pub g: u32,
    pub b: u32,
    pub a: u32,
}

/// Copy between a tightly packed buffer range and one mip level of an image. The image offset
/// is the origin.
#[derive(Clone, Copy, PartialEq, Eq, Structural, Debug)]
pub struct BufferImageCopy {
    pub buffer_offset: u64,
    pub image_subresource: SubresourceLayers,
    pub image_extent: Extent3D,
}

/// Scaled copy between two mip levels of an image. Both regions begin at the origin.
#[derive(Clone, Copy, PartialEq, Eq, Structural, Debug)]
pub struct ImageBlit {
    pub src_subresource: SubresourceLayers,
    pub src_end: Offset3D,
    pub dst_subresource: SubresourceLayers,
    pub dst_end: Offset3D,
}

/// One recorded command. `B` holds bytes: `Vec<u8>` in a command to be recorded, `Seq<u8>` in
/// its mathematical form.
pub enum CommandOf<B> {
    /// Pipeline barrier with one global memory barrier.
    MemoryBarrier { src_stages: u32, dst_stages: u32, memory: MemoryBarrier },
    /// Pipeline barrier with one image barrier.
    ImageBarrier { src_stages: u32, dst_stages: u32, barrier: ImageBarrier },
    /// Pipeline barrier with two image barriers.
    ImageBarrierPair {
        src_stages: u32,
        dst_stages: u32,
        first: ImageBarrier,
        second: ImageBarrier,
    },
    CopyBuffer { src: u64, dst: u64, src_offset: u64, dst_offset: u64, size: u64 },
    CopyBufferToImage { buffer: u64, image: u64, image_layout: i32, region: BufferImageCopy },
    CopyImageToBuffer { image: u64, image_layout: i32, buffer: u64, region: BufferImageCopy },
    /// Blit from an image in one layout to the same image in another.
    BlitImage { image: u64, src_layout: i32, dst_layout: i32, blit: ImageBlit, filter: i32 },
    BindPipeline { bind_point: i32, pipeline: u64 },
    /// Binds one descriptor set as set 0, without dynamic offsets.
    BindDescriptorSet { bind_point: i32, layout: u64, set: u64 },
    /// Pushes constants at offset 0.
    PushConstants { layout: u64, stages: u32, bytes: B },
    Dispatch { x: u32, y: u32, z: u32 },
    /// Binds one vertex buffer from its start.
    BindVertexBuffer { slot: u32, buffer: u64 },
    /// Binds an index buffer from its start.
    BindIndexBuffer { buffer: u64, index_type: i32 },
    Draw { vertex_count: u32, instance_count: u32, first_vertex: u32, first_instance: u32 },
    /// Indexed draw with vertex offset 0.
    DrawIndexed { index_count: u32, instance_count: u32, first_index: u32, first_instance: u32 },
    EndRendering,
    /// Clears an image in the given layout.
    ClearColorImage { image: u64, image_layout: i32, color: ClearValue, range: SubresourceRange },
    /// Begins a render pass, from the origin to `area`, with its commands inline.
    BeginRenderPass { render_pass: u64, framebuffer: u64, area: Extent2D, clear: ClearValue },
    /// Sets viewport and scissor, from the origin to `area`, with depths from zero to one.
    SetViewport { area: Extent2D },
    /// Pushes width and height, converted to IEEE 754 singles, at offset 0.
    PushExtent { layout: u64, stages: u32, extent: Extent2D },
    EndRenderPass,
}

/// Command to be recorded.
pub type Command = CommandOf<Vec<u8>>;

/// Mathematical form of a [`Command`].
pub type CommandView = CommandOf<Seq<u8>>;

impl View for CommandOf<Vec<u8>> {
    type V = CommandOf<Seq<u8>>;

    open spec fn view(&self) -> CommandOf<Seq<u8>> {
        match *self {
            CommandOf::MemoryBarrier { src_stages, dst_stages, memory } => {
                CommandOf::MemoryBarrier { src_stages, dst_stages, memory }
            },
            CommandOf::ImageBarrier { src_stages, dst_stages, barrier } => {
                CommandOf::ImageBarrier { src_stages, dst_stages, barrier }
            },
            CommandOf::ImageBarrierPair { src_stages, dst_stages, first, second } => {
                CommandOf::ImageBarrierPair { src_stages, dst_stages, first, second }
            },
            CommandOf::CopyBuffer { src, dst, src_offset, dst_offset, size } => {
                CommandOf::CopyBuffer { src, dst, src_offset, dst_offset, size }
            },
            CommandOf::CopyBufferToImage { buffer, image, image_layout, region } => {
                CommandOf::CopyBufferToImage { buffer, image, image_layout, region }
            },
            CommandOf::CopyImageToBuffer { image, image_layout, buffer, region } => {
                CommandOf::CopyImageToBuffer { image, image_layout, buffer, region }
            },
            CommandOf::BlitImage { image, src_layout, dst_layout, blit, filter } => {
                CommandOf::BlitImage { image, src_layout, dst_layout, blit, filter }
            },
            CommandOf::BindPipeline { bind_point, pipeline } => CommandOf::BindPipeline {
                bind_point,
                pipeline,
            },
            CommandOf::BindDescriptorSet { bind_point, layout, set } => {
                CommandOf::BindDescriptorSet { bind_point, layout, set }
            },
            CommandOf::PushConstants { layout, stages, bytes } => CommandOf::PushConstants {
                layout,
                stages,
                bytes: bytes@,
            },
            CommandOf::Dispatch { x, y, z } => CommandOf::Dispatch { x, y, z },
            CommandOf::BindVertexBuffer { slot, buffer } => CommandOf::BindVertexBuffer {
                slot,
                buffer,
            },
            CommandOf::BindIndexBuffer { buffer, index_type } => CommandOf::BindIndexBuffer {
                buffer,
                index_type,
            },
            CommandOf::Draw { vertex_count, instance_count, first_vertex, first_instance } => {
                CommandOf::Draw { vertex_count, instance_count, first_vertex, first_instance }
            },
            CommandOf::DrawIndexed { index_count, instance_count, first_index, first_instance } => {
                CommandOf::DrawIndexed { index_count, instance_count, first_index, first_instance }
            },
            CommandOf::EndRendering => CommandOf::EndRendering,
            CommandOf::ClearColorImage { image, image_layout, color, range } => {
                CommandOf::ClearColorImage { image, image_layout, color, range }
            },
            CommandOf::BeginRenderPass { render_pass, framebuffer, area, clear } => {
                CommandOf::BeginRenderPass { render_pass, framebuffer, area, clear }
            },
            CommandOf::SetViewport { area } => CommandOf::SetViewport { area },
            CommandOf::PushExtent { layout, stages, extent } => CommandOf::PushExtent {
                layout,
                stages,
                extent,
            },
            CommandOf::EndRenderPass => CommandOf::EndRenderPass,
        }
    }
}

/// Commands in their mathematical form.
pub open spec fn command_views(commands: Seq<Command>) -> Seq<CommandView> {
    commands.map_values(|c: Command| c@)
}

/// Destruction of one Vulkan object, or the end of a mapping.
#[derive(Clone, Copy, PartialEq, Eq, Structural, Debug)]
pub enum Cleanup {
    UnmapMemory(u64),
    FreeMemory(u64),
    DestroyBuffer(u64),
    DestroyImageView(u64),
    DestroyImage(u64),
    DestroySampler(u64),
    DestroyShaderModule(u64),
    DestroyPipeline(u64),
    DestroyPipelineLayout(u64),
    DestroyPipelineCache(u64),
    DestroyDescriptorPool(u64),
    DestroyDescriptorSetLayout(u64),
    DestroyFence(u64),
    DestroySemaphore(u64),
    FreeCommandBuffer { pool: u64, cmd: u64 },
    DestroyCommandPool(u64),
    DestroyFramebuffer(u64),
    DestroyRenderPass(u64),
    DestroySwapchain(u64),
    DestroySurface(u64),
}

} // verus!
