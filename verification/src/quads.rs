//! What the surfaces that draw quads share: render pass, framebuffers, pipelines and errors.
use vstd::prelude::*;

use crate::command::Cleanup;
use crate::device::buffers::{unwind_one, Unwind, UnwindView};
use crate::device::formats::BlendAttachment;
use crate::device::pipelines::{BoundAttribute, PushRange, VertexBinding};
use crate::error::{GpuError, GpuErrorView, SurfaceError};
use crate::vk;

verus! {

/// Frames in flight of a surface that draws quads.
pub const MAX_FRAMES_IN_FLIGHT: usize = 2;

/// Bits of the single 1.0.
pub const ONE_BITS: u32 = 0x3f80_0000;

/// Checks that a queue family can present to a surface.
pub fn check_quad_support(supported: bool, surface: u64) -> (r: Result<(), Unwind>)
    ensures
        match r {
            Ok(_) => supported,
            Err(u) => !supported && u@ == (UnwindView {
                cleanup: seq![Cleanup::DestroySurface(surface)],
                error: GpuErrorView::Backend(
                    "selected queue family cannot present to this surface"@,
                ),
            }),
        },
{
    if supported {
        Ok(())
    } else {
        Err(
            unwind_one(
                Cleanup::DestroySurface(surface),
                GpuError::Backend(
                    "selected queue family cannot present to this surface".to_owned(),
                ),
            ),
        )
    }
}

/// Error of an acquire or present call: any failure but an outdated or lost surface counts as
/// exhausted memory.
pub open spec fn quad_surface_error(code: i32) -> SurfaceError {
    if code == vk::ERROR_OUT_OF_DATE_KHR {
        SurfaceError::Outdated
    } else if code == vk::ERROR_SURFACE_LOST_KHR {
        SurfaceError::Lost
    } else {
        SurfaceError::OutOfMemory
    }
}

/// Maps the result code of an acquire or present call.
pub fn map_quad_surface_err(code: i32) -> (e: GpuError)
    ensures
        e@ == GpuErrorView::Surface(quad_surface_error(code)),
{
    GpuError::Surface(
        if code == vk::ERROR_OUT_OF_DATE_KHR {
            SurfaceError::Outdated
        } else if code == vk::ERROR_SURFACE_LOST_KHR {
            SurfaceError::Lost
        } else {
            SurfaceError::OutOfMemory
        },
    )
}

/// Render pass with one color attachment and one subpass, which waits for earlier color output.
#[derive(Clone, Copy, PartialEq, Eq, Structural, Debug)]
pub struct RenderPassInfo {
    pub format: i32,
    pub samples: u32,
    pub load_op: i32,
    pub store_op: i32,
    pub stencil_load_op: i32,
    pub stencil_store_op: i32,
    pub initial_layout: i32,
    pub final_layout: i32,
    pub color_layout: i32,
    pub src_stages: u32,
    pub dst_stages: u32,
    pub src_access: u32,
    pub dst_access: u32,
}

/// Render pass that clears a swapchain image, draws, and leaves the image presentable.
pub open spec fn quad_render_pass(format: i32) -> RenderPassInfo {
    RenderPassInfo {
        format,
        samples: vk::SAMPLE_COUNT_1,
        load_op: vk::ATTACHMENT_LOAD_OP_CLEAR,
        store_op: vk::ATTACHMENT_STORE_OP_STORE,
        stencil_load_op: vk::ATTACHMENT_LOAD_OP_DONT_CARE,
        stencil_store_op: vk::ATTACHMENT_STORE_OP_DONT_CARE,
        initial_layout: vk::IMAGE_LAYOUT_UNDEFINED,
        final_layout: vk::IMAGE_LAYOUT_PRESENT_SRC_KHR,
        color_layout: vk::IMAGE_LAYOUT_COLOR_ATTACHMENT_OPTIMAL,
        src_stages: vk::PIPELINE_STAGE_COLOR_ATTACHMENT_OUTPUT,
        dst_stages: vk::PIPELINE_STAGE_COLOR_ATTACHMENT_OUTPUT,
        src_access: 0,
        dst_access: vk::ACCESS_COLOR_ATTACHMENT_WRITE,
    }
}

/// What the render pass is created with.
pub fn create_render_pass(format: i32) -> (info: RenderPassInfo)
    ensures
        info == quad_render_pass(format),
{
    RenderPassInfo {
        format,
        samples: vk::SAMPLE_COUNT_1,
        load_op: vk::ATTACHMENT_LOAD_OP_CLEAR,
        store_op: vk::ATTACHMENT_STORE_OP_STORE,
        stencil_load_op: vk::ATTACHMENT_LOAD_OP_DONT_CARE,
        stencil_store_op: vk::ATTACHMENT_STORE_OP_DONT_CARE,
        initial_layout: vk::IMAGE_LAYOUT_UNDEFINED,
        final_layout: vk::IMAGE_LAYOUT_PRESENT_SRC_KHR,
        color_layout: vk::IMAGE_LAYOUT_COLOR_ATTACHMENT_OPTIMAL,
        src_stages: vk::PIPELINE_STAGE_COLOR_ATTACHMENT_OUTPUT,
        dst_stages: vk::PIPELINE_STAGE_COLOR_ATTACHMENT_OUTPUT,
        src_access: 0,
        dst_access: vk::ACCESS_COLOR_ATTACHMENT_WRITE,
    }
}

/// Framebuffer of one layer over one image view.
#[derive(Clone, Copy, PartialEq, Eq, Structural, Debug)]
pub struct FramebufferInfo {
    pub render_pass: u64,
    pub view: u64,
    pub extent: vk::Extent2D,
}

/// What the framebuffers are created with, in the order of the views.
pub fn create_framebuffers(render_pass: u64, views: &Vec<u64>, extent: vk::Extent2D) -> (infos: Vec<
    FramebufferInfo,
>)
    ensures
        infos@ == views@.map_values(|view: u64| FramebufferInfo { render_pass, view, extent }),
{
    let mut infos: Vec<FramebufferInfo> = Vec::new();
    let n: usize = views.len();
    let mut i: usize = 0;
    while i < n
        invariant
            n == views.len(),
            i <= n,
            infos@ == views@.take(i as int).map_values(
                |view: u64| FramebufferInfo { render_pass, view, extent },
            ),
        decreases n - i,
    {
        infos.push(FramebufferInfo { render_pass, view: views[i], extent });
        i += 1;
        assert(infos@ =~= views@.take(i as int).map_values(
            |view: u64| FramebufferInfo { render_pass, view, extent },
        ));
    }
    assert(views@.take(n as int) =~= views@);
    infos
}

/// What a pipeline that draws quads is created with.
pub struct QuadPipelinePlan {
    pub bindings: Vec<VertexBinding>,
    pub attributes: Vec<BoundAttribute>,
    pub topology: i32,
    pub polygon_mode: i32,
    pub cull_mode: u32,
    pub samples: u32,
    pub front_face: i32,
    pub blend: BlendAttachment,
    pub push_constants: PushRange,
    /// Viewport and scissor are set when commands are recorded, so that the pipeline outlives a
    /// resize.
    pub dynamic_viewport: bool,
}

/// Destruction of framebuffers.
pub open spec fn framebuffers_cleanup(framebuffers: Seq<u64>) -> Seq<Cleanup> {
    framebuffers.map_values(|f: u64| Cleanup::DestroyFramebuffer(f))
}

/// Destruction of two shader modules, once the pipeline that uses them exists.
pub fn destroy_modules(vertex: u64, fragment: u64) -> (steps: Vec<Cleanup>)
    ensures
        steps@ == seq![
            Cleanup::DestroyShaderModule(vertex),
            Cleanup::DestroyShaderModule(fragment),
        ],
{
    let mut steps: Vec<Cleanup> = Vec::new();
    steps.push(Cleanup::DestroyShaderModule(vertex));
    steps.push(Cleanup::DestroyShaderModule(fragment));
    assert(steps@ =~= seq![
        Cleanup::DestroyShaderModule(vertex),
        Cleanup::DestroyShaderModule(fragment),
    ]);
    steps
}

pub(crate) fn push_framebuffers(steps: &mut Vec<Cleanup>, framebuffers: &Vec<u64>)
    ensures
        final(steps)@ == old(steps)@ + framebuffers_cleanup(framebuffers@),
{
    let ghost first = steps@;
    let n: usize = framebuffers.len();
    let mut i: usize = 0;
    while i < n
        invariant
            n == framebuffers.len(),
            i <= n,
            steps@ == first + framebuffers_cleanup(framebuffers@.take(i as int)),
        decreases n - i,
    {
        steps.push(Cleanup::DestroyFramebuffer(framebuffers[i]));
        i += 1;
        assert(steps@ =~= first + framebuffers_cleanup(framebuffers@.take(i as int)));
    }
    assert(framebuffers@.take(n as int) =~= framebuffers@);
}

// ── Laws ───────────────────────────────────────────────────────────────────────

/// A pass that draws quads takes an image whatever its layout, clears it, keeps what it draws,
/// and leaves it presentable; it waits for earlier color output before it writes.
pub proof fn quad_pass_leaves_image_presentable(format: i32)
    ensures
        ({
            let p = quad_render_pass(format);
            &&& p.format == format
            &&& p.samples == 1
            &&& p.initial_layout == vk::IMAGE_LAYOUT_UNDEFINED
            &&& p.color_layout == vk::IMAGE_LAYOUT_COLOR_ATTACHMENT_OPTIMAL
            &&& p.final_layout == vk::IMAGE_LAYOUT_PRESENT_SRC_KHR
            &&& p.load_op == vk::ATTACHMENT_LOAD_OP_CLEAR
            &&& p.store_op == vk::ATTACHMENT_STORE_OP_STORE
            &&& p.stencil_load_op == vk::ATTACHMENT_LOAD_OP_DONT_CARE
            &&& p.stencil_store_op == vk::ATTACHMENT_STORE_OP_DONT_CARE
            &&& p.src_stages == vk::PIPELINE_STAGE_COLOR_ATTACHMENT_OUTPUT
            &&& p.dst_stages == vk::PIPELINE_STAGE_COLOR_ATTACHMENT_OUTPUT
            &&& p.src_access == 0
            &&& p.dst_access == vk::ACCESS_COLOR_ATTACHMENT_WRITE
        }),
{
}

/// A failed acquire or present tells an outdated surface and a lost one apart, and takes any
/// other failure for exhausted memory.
pub proof fn quad_errors_are_told_apart(code: i32)
    ensures
        quad_surface_error(code) is Outdated <==> code == vk::ERROR_OUT_OF_DATE_KHR,
        quad_surface_error(code) is Lost <==> code == vk::ERROR_SURFACE_LOST_KHR,
        quad_surface_error(code) is OutOfMemory <==> code != vk::ERROR_OUT_OF_DATE_KHR && code
            != vk::ERROR_SURFACE_LOST_KHR,
{
}

/// Every framebuffer is destroyed, in order.
pub proof fn framebuffers_go(framebuffers: Seq<u64>, i: int)
    requires
        0 <= i < framebuffers.len(),
    ensures
        framebuffers_cleanup(framebuffers).len() == framebuffers.len(),
        framebuffers_cleanup(framebuffers)[i] == Cleanup::DestroyFramebuffer(framebuffers[i]),
{
}

} // verus!
