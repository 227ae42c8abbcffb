//! Swapchains and the surfaces over them.
use zengpu_vulkan::calls::{call_result, VkCall};
use zengpu_vulkan::command::{Cleanup, ClearValue, CommandOf};
use zengpu_vulkan::device::constants::ByteOrder;
use zengpu_vulkan::device::context;
use zengpu_vulkan::device::{Bindless, DeviceHandles, DeviceInfo, VulkanDevice};
use zengpu_vulkan::error::{GpuError, SurfaceError};
use zengpu_vulkan::hal::{
    DeviceLimits, Features, Format, MemoryUsage, PresentMode, SurfaceConfig,
};
use zengpu_vulkan::instance::Platform;
use zengpu_vulkan::quads;
use zengpu_vulkan::surface::{Acquire, VulkanSurface, FRAMES_IN_FLIGHT};
use zengpu_vulkan::swapchain;
use zengpu_vulkan::swapchain::{
    AcquireStep, BeginFrame, FrameObjects, PresentStep, SurfaceCapabilities, SurfaceFormat,
    Swapchain, SwapchainPlan, WindowSystem,
};
use zengpu_vulkan::swapchain_2d;
use zengpu_vulkan::swapchain_2d::{InstanceBuffer, RectInstance, Vulkan2dSurface, INITIAL_RECTS};
use zengpu_vulkan::swapchain_textured;
use zengpu_vulkan::swapchain_textured::{
    Placeholder, SurfaceFrame, TexturedObjects, VulkanTexturedSwapchain,
};
use zengpu_vulkan::swapchain::WindowSystem::{AppKit, Other, Wayland, Win32, Xcb};
use zengpu_vulkan::vk;

fn extent(width: u32, height: u32) -> vk::Extent2D {
    vk::Extent2D { width, height }
}

fn caps() -> SurfaceCapabilities {
    SurfaceCapabilities {
        min_image_count: 2,
        max_image_count: 0,
        current_extent: extent(u32::MAX, u32::MAX),
        min_image_extent: extent(1, 1),
        max_image_extent: extent(4096, 4096),
        current_transform: 1,
    }
}

fn format(format: i32, color_space: i32) -> SurfaceFormat {
    SurfaceFormat { format, color_space }
}

fn swapchain_of(frames: usize, images: u64, e: vk::Extent2D) -> Swapchain {
    let n = frames as u64;
    Swapchain::new(
        vk::FORMAT_B8G8R8A8_UNORM,
        vk::PRESENT_MODE_FIFO_KHR,
        frames,
        500,
        (0..images).map(|i| 600 + i).collect(),
        (0..images).map(|i| 700 + i).collect(),
        e,
        FrameObjects {
            context: device().context(),
            surface: 400,
            cmd_pool: 401,
            cmd_buffers: (0..n).map(|i| 410 + i).collect(),
            image_available: (0..n).map(|i| 420 + i).collect(),
            render_finished: (0..n).map(|i| 430 + i).collect(),
            in_flight: (0..n).map(|i| 440 + i).collect(),
        },
    )
}

fn device() -> VulkanDevice {
    VulkanDevice::new(
        DeviceInfo {
            handles: DeviceHandles {
                instance: 1,
                physical: 2,
                device: 3,
                queue: 4,
                queue_family: 0,
            },
            limits: DeviceLimits::default(),
            features: Features { bits: 0 },
            graphics: true,
            dual_src_blend: false,
            fill_mode_non_solid: false,
            sampler_anisotropy: false,
            pipeline_cache: 5,
        },
        vec![vk::MEMORY_PROPERTY_DEVICE_LOCAL],
        Bindless { layout: 6, pool: 7, set: 8, buffer_capacity: 4, texture_capacity: 4 },
    )
}

// ── Choices ────────────────────────────────────────────────────────────────────

#[test]
fn formats_without_conversion_are_preferred() {
    let srgb = format(vk::FORMAT_R8G8B8A8_SRGB, 0);
    let bgra = format(vk::FORMAT_B8G8R8A8_UNORM, 7);
    assert_eq!(swapchain::pick_format(&vec![srgb, bgra]).unwrap(), vk::FORMAT_B8G8R8A8_UNORM);
    assert_eq!(swapchain::pick_format(&vec![srgb]).unwrap(), vk::FORMAT_R8G8B8A8_SRGB);
    match swapchain::pick_format(&vec![]) {
        Err(GpuError::Backend(text)) => assert_eq!(text, "no surface formats"),
        _ => panic!("format made up"),
    }
}

#[test]
fn present_modes_fall_back_to_the_queue() {
    let modes = vec![vk::PRESENT_MODE_FIFO_KHR, vk::PRESENT_MODE_MAILBOX_KHR];
    let pick = swapchain::pick_present_mode;
    assert_eq!(pick(&modes, PresentMode::Mailbox), vk::PRESENT_MODE_MAILBOX_KHR);
    assert_eq!(pick(&modes, PresentMode::Immediate), vk::PRESENT_MODE_FIFO_KHR);
    assert_eq!(pick(&vec![], PresentMode::Fifo), vk::PRESENT_MODE_FIFO_KHR);
}

#[test]
fn swapchains_keep_within_the_surface() {
    let formats = vec![format(vk::FORMAT_B8G8R8A8_UNORM, 7)];
    let plan = |c: &SurfaceCapabilities, w: u32, h: u32| {
        swapchain::create_swapchain(c, &formats, 9, vk::FORMAT_B8G8R8A8_UNORM, 2, w, h, 8)
    };
    match plan(&caps(), 5000, 300) {
        SwapchainPlan::Create(info) => {
            assert_eq!(info.image_extent, extent(4096, 300));
            assert_eq!(info.min_image_count, 3);
            assert_eq!(info.image_color_space, 7);
            assert_eq!((info.surface, info.old_swapchain, info.present_mode), (9, 8, 2));
        }
        _ => panic!("empty swapchain"),
    }
    let fixed = SurfaceCapabilities {
        current_extent: extent(640, 480),
        max_image_count: 2,
        ..caps()
    };
    match plan(&fixed, 1, 1) {
        SwapchainPlan::Create(info) => {
            assert_eq!(info.image_extent, extent(640, 480));
            assert_eq!(info.min_image_count, 2);
        }
        _ => panic!("empty swapchain"),
    }
    let minimised = SurfaceCapabilities { current_extent: extent(0, 480), ..caps() };
    assert_eq!(plan(&minimised, 640, 480), SwapchainPlan::Empty(extent(0, 480)));
    let odd = SurfaceCapabilities { min_image_extent: extent(9, 9), max_image_extent: extent(8, 8), ..caps() };
    assert!(!odd.is_valid());
    assert!(caps().is_valid());
    match swapchain::create_swapchain(&caps(), &formats, 9, vk::FORMAT_R8G8B8A8_SRGB, 2, 4, 4, 0) {
        SwapchainPlan::Create(info) => {
            assert_eq!(info.image_color_space, vk::COLOR_SPACE_SRGB_NONLINEAR_KHR)
        }
        _ => panic!("empty swapchain"),
    }
}

#[test]
fn image_views_follow_the_images() {
    let infos = swapchain::create_image_views(&vec![3, 4], vk::FORMAT_B8G8R8A8_UNORM);
    assert_eq!(infos.len(), 2);
    assert_eq!(infos[1].image, 4);
    assert_eq!(infos[1].subresource_range.aspect_mask, vk::IMAGE_ASPECT_COLOR);
}

#[test]
fn presentation_is_checked_up_front() {
    assert!(swapchain::check_instance(true).is_ok());
    match swapchain::check_instance(false) {
        Err(GpuError::Backend(text)) => {
            assert_eq!(text, "Swapchain::new requires VulkanInstance::new_with_surface()")
        }
        _ => panic!("instance accepted"),
    }
    assert!(swapchain::check_present_support(Platform::MacOs, false, 3, 9).is_ok());
    match swapchain::check_present_support(Platform::Linux, false, 3, 9) {
        Err(u) => {
            assert_eq!(u.cleanup, [Cleanup::DestroySurface(9)]);
            assert!(matches!(u.error, GpuError::Backend(text)
                if text == "selected queue family 3 cannot present to this surface"));
        }
        Ok(_) => panic!("family accepted"),
    }
    match quads::check_quad_support(false, 9) {
        Err(u) => assert!(matches!(u.error, GpuError::Backend(text)
            if text == "selected queue family cannot present to this surface")),
        Ok(_) => panic!("family accepted"),
    }
}

#[test]
fn window_systems_match_their_platform() {
    let pick = swapchain::pick_surface_system;
    let text = |r: Result<WindowSystem, GpuError>| match r {
        Err(GpuError::Backend(text)) => text,
        _ => panic!("window accepted"),
    };
    assert_eq!(pick(Platform::Linux, Xcb, Xcb, true).unwrap(), Xcb);
    assert_eq!(pick(Platform::Linux, Wayland, Wayland, false).unwrap(), Wayland);
    assert_eq!(pick(Platform::Windows, Win32, Other, false).unwrap(), Win32);
    assert_eq!(pick(Platform::MacOs, AppKit, Other, false).unwrap(), AppKit);
    assert_eq!(
        text(pick(Platform::Linux, Xcb, Xcb, false)),
        "XCB display handle has no connection"
    );
    assert_eq!(
        text(pick(Platform::Linux, Xcb, Wayland, true)),
        "expected matching XCB or Wayland window/display handles on Linux"
    );
    assert_eq!(
        text(pick(Platform::Windows, Xcb, Xcb, true)),
        "expected Win32 window handle on Windows"
    );
    assert_eq!(
        text(pick(Platform::MacOs, Other, Other, true)),
        "expected AppKit window handle on macOS"
    );
    assert_eq!(text(pick(Platform::Other, Xcb, Xcb, true)), "unsupported surface platform");
}

// ── Frame cycle ────────────────────────────────────────────────────────────────

#[test]
fn frames_take_turns() {
    let mut s = swapchain_of(3, 4, extent(640, 480));
    for k in 0..7u64 {
        assert_eq!(s.begin_frame(), 440 + k % 3);
        let info = s.frame_waited(Ok(())).unwrap().unwrap();
        assert_eq!((info.swapchain, info.semaphore), (500, 420 + k % 3));
        match s.frame_acquired(Ok(2)).unwrap() {
            AcquireStep::Reset { fence, index } => assert_eq!((fence, index), (440 + k % 3, 2)),
            _ => panic!("rebuilt"),
        }
        let frame = s.frame_reset(2, Ok(())).unwrap();
        let current = match frame {
            BeginFrame::Image { current, index: 2 } => current,
            _ => panic!("no image"),
        };
        assert_eq!(s.cmd_buffer(current), 410 + k % 3);
        let submit = s.end_frame(&frame).unwrap();
        assert_eq!(submit.wait_semaphore, 420 + k % 3);
        assert_eq!(submit.signal_semaphore, 430 + k % 3);
        assert_eq!(submit.fence, 440 + k % 3);
        assert_eq!(submit.wait_stage, vk::PIPELINE_STAGE_COLOR_ATTACHMENT_OUTPUT);
        let present = s.frame_submitted(current, 2, Ok(())).unwrap();
        assert_eq!((present.wait_semaphore, present.swapchain, present.index), (430 + k % 3, 500, 2));
        assert_eq!(s.frame_presented(current, Ok(())).unwrap(), PresentStep::Done);
    }
}

#[test]
fn outdated_swapchains_are_rebuilt() {
    let mut s = swapchain_of(2, 3, extent(640, 480));
    assert_eq!(
        s.frame_acquired(Err(vk::ERROR_OUT_OF_DATE_KHR)).unwrap(),
        AcquireStep::Recreate { width: 640, height: 480 }
    );
    assert_eq!(
        s.frame_presented(0, Err(vk::ERROR_OUT_OF_DATE_KHR)).unwrap(),
        PresentStep::Recreate { width: 640, height: 480 }
    );
    assert_eq!(s.begin_frame(), 440);
    assert_eq!(
        s.retire(),
        [
            Cleanup::DestroyImageView(700),
            Cleanup::DestroyImageView(701),
            Cleanup::DestroyImageView(702),
            Cleanup::DestroySwapchain(500),
        ]
    );
    s.replace(501, vec![610], vec![710], extent(320, 200));
    s.frame_rebuilt(0);
    assert_eq!(s.begin_frame(), 441);
    assert_eq!(s.extent(), (320, 200));
    assert_eq!((s.images(), s.image_views(), s.image_count()), (vec![610], vec![710], 1));
    assert_eq!(s.format(), Format::Bgra8Unorm);
    assert_eq!((s.context().device(), s.context().queue()), (3, 4));
    assert!(s.context().is_device(&device()));
    match s.resize(&caps(), &vec![], 16, 16) {
        SwapchainPlan::Create(info) => {
            assert_eq!((info.surface, info.old_swapchain), (400, 501));
            assert_eq!(info.image_format, vk::FORMAT_B8G8R8A8_UNORM);
        }
        _ => panic!("empty swapchain"),
    }
}

#[test]
fn minimised_windows_skip_frames() {
    let s = swapchain_of(2, 0, extent(0, 480));
    assert!(s.frame_waited(Ok(())).unwrap().is_none());
    assert!(s.end_frame(&BeginFrame::Skip).is_none());
    assert!(s.end_frame(&BeginFrame::Recreated).is_none());
}

#[test]
fn frame_errors_are_told_apart() {
    let mut s = swapchain_of(2, 3, extent(640, 480));
    assert!(matches!(s.frame_waited(Err(vk::ERROR_DEVICE_LOST)), Err(GpuError::DeviceLost)));
    assert!(matches!(
        s.frame_acquired(Err(vk::ERROR_SURFACE_LOST_KHR)),
        Err(GpuError::Surface(SurfaceError::Lost))
    ));
    assert!(matches!(
        s.frame_presented(1, Err(vk::ERROR_OUT_OF_HOST_MEMORY)),
        Err(GpuError::Surface(SurfaceError::OutOfMemory))
    ));
    assert!(matches!(
        s.frame_submitted(0, 0, Err(vk::ERROR_OUT_OF_HOST_MEMORY)),
        Err(GpuError::OutOfMemory(MemoryUsage::Upload))
    ));
    let shown = ash::vk::Result::ERROR_INITIALIZATION_FAILED.to_string();
    let code = ash::vk::Result::ERROR_INITIALIZATION_FAILED.as_raw();
    match s.frame_acquired(Err(code)) {
        Err(GpuError::Backend(text)) => assert_eq!(text, format!("surface error: {shown}")),
        _ => panic!("other error"),
    }
    match s.frame_reset(0, Err(code)) {
        Err(GpuError::Backend(text)) => assert_eq!(text, format!("reset_fences: {shown}")),
        _ => panic!("other error"),
    }
    match call_result::<()>(VkCall::CreateSwapchain, Err(code)) {
        Err(GpuError::Backend(text)) => {
            assert_eq!(text, format!("vkCreateSwapchainKHR: {shown}"))
        }
        _ => panic!("other error"),
    }
    assert_eq!(call_result(VkCall::CreateFence, Ok(7)).unwrap(), 7);
}

#[test]
fn a_swapchain_is_destroyed_before_its_surface() {
    let steps = swapchain_of(1, 1, extent(4, 4)).destroy();
    assert_eq!(
        steps,
        [
            Cleanup::DestroyImageView(700),
            Cleanup::DestroySwapchain(500),
            Cleanup::FreeCommandBuffer { pool: 401, cmd: 410 },
            Cleanup::DestroyCommandPool(401),
            Cleanup::DestroySemaphore(420),
            Cleanup::DestroySemaphore(430),
            Cleanup::DestroyFence(440),
            Cleanup::DestroySurface(400),
        ]
    );
}

#[test]
fn one_shot_pools_are_always_destroyed() {
    let dev = device();
    let ctx = dev.context();
    assert_eq!(ctx.one_shot_submit(Ok(9)).unwrap(), 9);
    let pool = [Cleanup::DestroyCommandPool(9)];
    match context::one_shot_allocated(9, Err(-1)) {
        Err(u) => assert_eq!(u.cleanup, pool),
        Ok(_) => panic!("failure ignored"),
    }
    match context::one_shot_begun(9, Err(-1)) {
        Err(u) => assert_eq!(u.cleanup, pool),
        Ok(_) => panic!("failure ignored"),
    }
    match context::one_shot_recorded(9, Err(GpuError::Timeout)) {
        Err(u) => {
            assert_eq!(u.cleanup, pool);
            assert!(matches!(u.error, GpuError::Timeout));
        }
        Ok(_) => panic!("failure ignored"),
    }
    let (step, result) = context::one_shot_submitted(9, Ok(()));
    assert_eq!(step, pool[0]);
    assert!(result.is_ok());
    let (step, result) = context::one_shot_submitted(9, Err(vk::ERROR_DEVICE_LOST));
    assert_eq!(step, pool[0]);
    assert!(matches!(result, Err(GpuError::DeviceLost)));
    assert!(matches!(dev.wait_idle(Err(-1)), Err(GpuError::Backend(_))));
}

// ── Presentable surface ────────────────────────────────────────────────────────

#[test]
fn surface_targets_follow_the_images() {
    let mut dev = device();
    assert!(dev.has_room_for(8));
    let mut s = VulkanSurface::new(&mut dev, swapchain_of(FRAMES_IN_FLIGHT, 3, extent(64, 48)));
    assert_eq!(s.size(), (64, 48));
    let config = SurfaceConfig { width: 32, height: 16, present_mode: PresentMode::Mailbox };
    match s.configure(&caps(), &vec![], config) {
        SwapchainPlan::Create(info) => {
            assert_eq!(info.image_extent, extent(32, 16));
            assert_eq!(info.present_mode, vk::PRESENT_MODE_FIFO_KHR);
        }
        _ => panic!("empty swapchain"),
    }
    let frame = match s.acquire(&mut dev, BeginFrame::Image { current: 0, index: 2 }) {
        Acquire::Frame(frame) => frame,
        Acquire::Skip => panic!("skipped"),
    };
    let rt = dev.target(frame.target()).unwrap();
    assert_eq!((rt.image, rt.view, rt.layout), (602, 702, vk::IMAGE_LAYOUT_UNDEFINED));
    s.swapchain.replace(501, vec![610, 611], vec![710, 711], extent(32, 32));
    assert!(matches!(s.acquire(&mut dev, BeginFrame::Recreated), Acquire::Skip));
    assert!(dev.target(frame.target()).is_none());
    let next = match s.acquire(&mut dev, BeginFrame::Image { current: 1, index: 1 }) {
        Acquire::Frame(frame) => frame,
        Acquire::Skip => panic!("skipped"),
    };
    assert_eq!(dev.target(next.target()).unwrap().image, 611);
    assert!(matches!(s.acquire(&mut dev, BeginFrame::Skip), Acquire::Skip));
    let steps = s.destroy(&mut dev);
    assert_eq!(steps[0], Cleanup::DestroyImageView(710));
    assert!(dev.target(next.target()).is_none());
}

#[test]
fn presented_targets_are_presentable() {
    let mut dev = device();
    let mut s = VulkanSurface::new(&mut dev, swapchain_of(2, 3, extent(64, 48)));
    let frame = match s.acquire(&mut dev, BeginFrame::Image { current: 0, index: 0 }) {
        Acquire::Frame(frame) => frame,
        Acquire::Skip => panic!("skipped"),
    };
    dev.set_target_layout(frame.target(), vk::IMAGE_LAYOUT_COLOR_ATTACHMENT_OPTIMAL);
    let commands = s.present(&mut dev, &frame).unwrap();
    match commands[0] {
        CommandOf::ImageBarrier { src_stages, dst_stages, barrier } => {
            assert_eq!(src_stages, vk::PIPELINE_STAGE_COLOR_ATTACHMENT_OUTPUT);
            assert_eq!(dst_stages, vk::PIPELINE_STAGE_BOTTOM_OF_PIPE);
            assert_eq!(barrier.old_layout, vk::IMAGE_LAYOUT_COLOR_ATTACHMENT_OPTIMAL);
            assert_eq!(barrier.new_layout, vk::IMAGE_LAYOUT_PRESENT_SRC_KHR);
            assert_eq!(barrier.image, 600);
        }
        _ => panic!("no barrier"),
    }
    assert!(s.present(&mut dev, &frame).unwrap().is_empty());
}

#[test]
fn command_buffers_come_back_with_their_frame() {
    let mut dev = device();
    let mut s = VulkanSurface::new(&mut dev, swapchain_of(2, 3, extent(64, 48)));
    let _ = s.acquire(&mut dev, BeginFrame::Image { current: 0, index: 0 });
    s.presented(&mut dev, 0, 77, false);
    let _ = s.acquire(&mut dev, BeginFrame::Image { current: 1, index: 1 });
    assert_eq!(dev.acquire_cmd(), None);
    s.presented(&mut dev, 1, 78, true);
    let _ = s.acquire(&mut dev, BeginFrame::Image { current: 0, index: 2 });
    assert_eq!(dev.acquire_cmd(), Some(77));
    assert_eq!(dev.acquire_cmd(), None);
}

// ── Rectangles ─────────────────────────────────────────────────────────────────

fn order() -> ByteOrder {
    if 1u32.to_ne_bytes()[0] == 1 {
        ByteOrder::Little
    } else {
        ByteOrder::Big
    }
}

fn instance_buffer(n: u64, capacity: usize) -> InstanceBuffer {
    InstanceBuffer { buffer: 800 + n, memory: 810 + n, mapped: 820 + n, capacity }
}

fn painter() -> Vulkan2dSurface {
    Vulkan2dSurface::new(
        swapchain_of(2, 3, extent(64, 48)),
        vec![900, 901, 902],
        910,
        911,
        912,
        vec![instance_buffer(0, INITIAL_RECTS), instance_buffer(1, INITIAL_RECTS)],
    )
}

#[test]
fn instance_buffers_double() {
    let b = instance_buffer(0, INITIAL_RECTS);
    assert_eq!(b.ensure_capacity(256), None);
    assert_eq!(b.ensure_capacity(257), Some(512));
    assert_eq!(b.ensure_capacity(5000), Some(8192));
    assert_eq!(instance_buffer(0, 0).ensure_capacity(0), None);
    assert_eq!(instance_buffer(0, 0).ensure_capacity(3), Some(4));
    assert_eq!(instance_buffer(0, 3).ensure_capacity(4), Some(6));
    assert_eq!(swapchain_2d::alloc_mapped_vertex_buffer(512).size, 16384);
    assert_eq!(swapchain_2d::alloc_mapped_vertex_buffer(0).size, 32);
    let mut grown = b;
    let steps = grown.replace(1, 2, 3, 512);
    assert_eq!(grown, InstanceBuffer { buffer: 1, memory: 2, mapped: 3, capacity: 512 });
    assert_eq!(
        steps,
        [Cleanup::UnmapMemory(810), Cleanup::DestroyBuffer(800), Cleanup::FreeMemory(810)]
    );
}

#[test]
fn failed_instance_buffers_say_what_to_destroy() {
    let types = vec![vk::MEMORY_PROPERTY_DEVICE_LOCAL];
    match swapchain_2d::instance_memory_type(&types, 1, 0x1) {
        Err(u) => {
            assert_eq!(u.cleanup, [Cleanup::DestroyBuffer(1)]);
            assert!(matches!(u.error, GpuError::Backend(text)
                if text == "no host-visible memory for instances"));
        }
        Ok(_) => panic!("memory type found"),
    }
    let both = [Cleanup::DestroyBuffer(1), Cleanup::FreeMemory(2)];
    match swapchain_2d::instance_allocated(1, Err(-1)) {
        Err(u) => assert_eq!(u.cleanup, both[..1]),
        Ok(_) => panic!("failure ignored"),
    }
    match swapchain_2d::instance_bound(1, 2, Err(-1)) {
        Err(u) => assert_eq!(u.cleanup, both),
        Ok(_) => panic!("failure ignored"),
    }
    match swapchain_2d::instance_mapped(1, 2, Err(-1)) {
        Err(u) => assert_eq!(u.cleanup, both),
        Ok(_) => panic!("failure ignored"),
    }
}

#[test]
fn instances_lie_as_the_attributes_expect() {
    let bits = |v: [f32; 4]| v.map(f32::to_bits);
    let rects = [
        RectInstance { rect: bits([1.0, 2.0, 3.0, 4.0]), color: bits([0.25, 0.5, 0.75, 1.0]) },
        RectInstance { rect: bits([5.0, 6.0, 7.0, 8.0]), color: bits([1.0, 0.0, 0.0, 0.5]) },
    ];
    let mut memory = vec![0xEE; 96];
    swapchain_2d::upload(&mut memory, &rects, order());
    let floats: Vec<f32> =
        memory[..64].chunks_exact(4).map(|c| f32::from_ne_bytes(c.try_into().unwrap())).collect();
    assert_eq!(
        floats,
        [
            1.0, 2.0, 3.0, 4.0, 0.25, 0.5, 0.75, 1.0, 5.0, 6.0, 7.0, 8.0, 1.0, 0.0, 0.0, 0.5
        ]
    );
    assert_eq!(memory[64..], [0xEE; 32]);
    let plan = swapchain_2d::create_pipeline();
    assert_eq!(plan.topology, vk::PRIMITIVE_TOPOLOGY_TRIANGLE_LIST);
    assert_eq!((plan.polygon_mode, plan.cull_mode), (vk::POLYGON_MODE_FILL, vk::CULL_MODE_NONE));
    assert_eq!(plan.bindings[0].stride, 32);
    assert_eq!(plan.attributes[1].offset, 16);
    assert!(plan.blend.blend_enable && plan.dynamic_viewport);
}

#[test]
fn rectangles_are_drawn_in_one_pass() {
    let s = painter();
    let commands = s.record(1, 2, None, 5);
    assert_eq!(commands.len(), 7);
    match &commands[0] {
        CommandOf::BeginRenderPass { render_pass, framebuffer, area, clear } => {
            assert_eq!((*render_pass, *framebuffer), (910, 902));
            assert_eq!(*area, extent(64, 48));
            assert_eq!(*clear, ClearValue { r: 0, g: 0, b: 0, a: 1.0f32.to_bits() });
        }
        _ => panic!("no render pass"),
    }
    assert!(matches!(commands[1], CommandOf::BindPipeline { pipeline: 912, .. }));
    assert!(matches!(commands[3], CommandOf::BindVertexBuffer { slot: 0, buffer: 801 }));
    assert!(matches!(commands[4], CommandOf::PushExtent { layout: 911, .. }));
    assert!(matches!(
        commands[5],
        CommandOf::Draw { vertex_count: 6, instance_count: 5, .. }
    ));
    assert!(matches!(commands[6], CommandOf::EndRenderPass));
    assert_eq!(s.record(0, 0, None, 0).len(), 4);
}

#[test]
fn painter_frames_take_turns() {
    let mut s = painter();
    assert_eq!(s.present(), 440);
    assert!(s.present_waited(Ok(())).unwrap().is_some());
    assert!(matches!(
        s.present_acquired(Ok(1)),
        Ok(AcquireStep::Reset { fence: 440, index: 1 })
    ));
    assert_eq!(
        s.present_reset(1, Ok(())).unwrap(),
        BeginFrame::Image { current: 0, index: 1 }
    );
    assert_eq!(s.cmd_buffer(0), 410);
    assert_eq!(s.present_submit(0).fence, 440);
    assert_eq!(s.present_submitted(0, 1, Ok(())).unwrap().index, 1);
    assert_eq!(s.present_done(0, Ok(())).unwrap(), PresentStep::Done);
    assert_eq!(s.present(), 441);
    assert_eq!(
        s.present_done(1, Err(vk::ERROR_OUT_OF_DATE_KHR)).unwrap(),
        PresentStep::Recreate { width: 64, height: 48 }
    );
    assert_eq!(s.retire()[0], Cleanup::DestroyFramebuffer(900));
    s.replace(502, vec![620], vec![720], vec![920], extent(8, 8));
    s.present_rebuilt(1);
    assert_eq!(s.present(), 440);
    assert_eq!((s.size(), s.image_count()), ((8, 8), 1));
    let steps = s.instance_grown(0, 1, 2, 3, 512);
    assert_eq!(steps[1], Cleanup::DestroyBuffer(800));
    assert_eq!(s.instance_buffer(0).capacity, 512);
}

#[test]
fn painter_errors_are_backend_or_surface_errors() {
    let mut s = painter();
    assert!(matches!(s.present_waited(Err(vk::ERROR_DEVICE_LOST)), Err(GpuError::Backend(_))));
    assert!(matches!(
        s.present_acquired(Err(vk::ERROR_DEVICE_LOST)),
        Err(GpuError::Surface(SurfaceError::OutOfMemory))
    ));
    assert!(matches!(
        s.present_acquired(Err(vk::ERROR_OUT_OF_DATE_KHR)),
        Ok(AcquireStep::Recreate { .. })
    ));
    assert!(matches!(
        s.present_submitted(0, 0, Err(vk::ERROR_DEVICE_LOST)),
        Err(GpuError::Backend(_))
    ));
    assert!(matches!(
        s.present_done(0, Err(vk::ERROR_DEVICE_LOST)),
        Err(GpuError::Surface(SurfaceError::OutOfMemory))
    ));
}

#[test]
fn painters_are_rebuilt_after_a_resize_or_a_surface_loss() {
    for code in [vk::ERROR_OUT_OF_DATE_KHR, vk::ERROR_SURFACE_LOST_KHR] {
        let mut s = painter();
        let (width, height) = s.size();
        assert_eq!(
            s.present_acquired(Err(code)).unwrap(),
            AcquireStep::Recreate { width, height }
        );
        assert_eq!(
            s.present_done(0, Err(code)).unwrap(),
            PresentStep::Recreate { width, height }
        );
        s.replace(40, vec![41, 42], vec![43, 44], vec![45, 46], extent(width, height));
        let first = s.present();
        s.present_rebuilt(0);
        assert_ne!(s.present(), first);
        assert!(matches!(s.present_waited(Ok(())), Ok(Some(info)) if info.swapchain == 40));
    }
}

#[test]
fn a_painter_is_destroyed_from_the_inside() {
    let steps = painter().destroy();
    assert_eq!(steps[0], Cleanup::UnmapMemory(810));
    assert_eq!(steps[6], Cleanup::DestroyFramebuffer(900));
    assert_eq!(*steps.last().unwrap(), Cleanup::DestroySurface(400));
    assert!(steps.contains(&Cleanup::DestroyRenderPass(910)));
    assert_eq!(steps.len(), 6 + 3 + 3 + 1 + 2 + 4 + 6 + 1);
}

#[test]
fn quads_share_a_render_pass() {
    let info = quads::create_render_pass(vk::FORMAT_B8G8R8A8_UNORM);
    assert_eq!(info.initial_layout, vk::IMAGE_LAYOUT_UNDEFINED);
    assert_eq!(info.final_layout, vk::IMAGE_LAYOUT_PRESENT_SRC_KHR);
    let framebuffers = quads::create_framebuffers(7, &vec![1, 2], extent(3, 4));
    assert_eq!((framebuffers[1].render_pass, framebuffers[1].view), (7, 2));
    assert_eq!(
        quads::destroy_modules(1, 2),
        [Cleanup::DestroyShaderModule(1), Cleanup::DestroyShaderModule(2)]
    );
}

// ── Textured quad ──────────────────────────────────────────────────────────────

fn textured() -> VulkanTexturedSwapchain {
    VulkanTexturedSwapchain::new(TexturedObjects {
        surface: 1,
        swapchain: 2,
        images: vec![3, 4],
        image_views: vec![5, 6],
        extent: extent(64, 48),
        render_pass: 7,
        framebuffers: vec![8, 9],
        descriptor_pool: 10,
        descriptor_set_layout: 11,
        pipeline_layout: 12,
        pipeline: 13,
        cmd_pool: 14,
        cmd_buffers: vec![15, 16],
        image_available: vec![17, 18],
        render_finished: vec![19, 20],
        in_flight: vec![21, 22],
        placeholder: Placeholder { image: 23, view: 24, memory: 25, sampler: 26 },
    })
}

#[test]
fn textured_swapchains_prefer_srgb() {
    let plain = format(vk::FORMAT_B8G8R8A8_UNORM, 0);
    let wide = format(vk::FORMAT_B8G8R8A8_SRGB, 5);
    let srgb = format(vk::FORMAT_B8G8R8A8_SRGB, 0);
    let pick = swapchain_textured::pick_textured_format;
    assert_eq!(pick(&vec![plain, wide, srgb]).unwrap(), srgb);
    assert_eq!(pick(&vec![plain, wide]).unwrap(), plain);
    assert!(pick(&vec![]).is_err());
    let info = swapchain_textured::create_textured_swapchain(
        &caps(),
        &vec![srgb],
        &vec![],
        1,
        PresentMode::Mailbox,
        0,
        9,
    )
    .unwrap();
    assert_eq!(info.image_extent, extent(1, 9));
    assert_eq!(info.present_mode, vk::PRESENT_MODE_FIFO_KHR);
    assert_eq!(info.image_format, vk::FORMAT_B8G8R8A8_SRGB);
}

#[test]
fn placeholders_are_white() {
    assert_eq!(swapchain_textured::create_placeholder().extent.width, 1);
    let commands = swapchain_textured::plan_placeholder(5);
    let one = 1.0f32.to_bits();
    match &commands[1] {
        CommandOf::ClearColorImage { image, color, .. } => {
            assert_eq!(*image, 5);
            assert_eq!(*color, ClearValue { r: one, g: one, b: one, a: one });
        }
        _ => panic!("not cleared"),
    }
    match &commands[2] {
        CommandOf::ImageBarrier { barrier, .. } => {
            assert_eq!(barrier.new_layout, vk::IMAGE_LAYOUT_SHADER_READ_ONLY_OPTIMAL)
        }
        _ => panic!("not readable"),
    }
    let p = match swapchain_textured::placeholder_sampled(1, 2, 3, Ok(4)) {
        Ok(p) => p,
        Err(u) => panic!("{:?}", u.error),
    };
    assert_eq!(p, Placeholder { image: 1, view: 3, memory: 2, sampler: 4 });
}

#[test]
fn failed_placeholders_say_what_to_destroy() {
    let image = Cleanup::DestroyImage(1);
    let memory = Cleanup::FreeMemory(2);
    match swapchain_textured::placeholder_memory_type(&vec![], 1, 0) {
        Err(u) => assert_eq!(u.cleanup, [image]),
        Ok(_) => panic!("memory type found"),
    }
    match swapchain_textured::placeholder_allocated(1, Err(-2)) {
        Err(u) => {
            assert_eq!(u.cleanup, [image]);
            assert!(matches!(u.error, GpuError::Backend(text) if text == "placeholder OOM"));
        }
        Ok(_) => panic!("failure ignored"),
    }
    match swapchain_textured::placeholder_bound(1, 2, Err(-2)) {
        Err(u) => assert_eq!(u.cleanup, [image, memory]),
        Ok(_) => panic!("failure ignored"),
    }
    match swapchain_textured::placeholder_viewed(1, 2, Err(-2)) {
        Err(u) => assert_eq!(u.cleanup, [image, memory]),
        Ok(_) => panic!("failure ignored"),
    }
    match swapchain_textured::placeholder_sampled(1, 2, 3, Err(-2)) {
        Err(u) => assert_eq!(u.cleanup, [Cleanup::DestroyImageView(3), image, memory]),
        Ok(_) => panic!("failure ignored"),
    }
}

#[test]
fn every_slot_of_the_array_is_filled() {
    let writes = swapchain_textured::fill_bindless_slots(1, 2, 3);
    assert_eq!(writes.len(), 64);
    for (i, w) in writes.iter().enumerate() {
        assert_eq!((w.set, w.binding, w.element), (1, 0, i as u32));
        assert_eq!((w.image_view, w.sampler), (2, 3));
        assert_eq!(w.image_layout, vk::IMAGE_LAYOUT_SHADER_READ_ONLY_OPTIMAL);
    }
    let binding = swapchain_textured::create_bindless_descriptors();
    assert_eq!((binding.binding, binding.descriptor_count), (0, 64));
    match swapchain_textured::array_set_allocated(1, 2, Err(-1)) {
        Err(u) => assert_eq!(
            u.cleanup,
            [Cleanup::DestroyDescriptorPool(2), Cleanup::DestroyDescriptorSetLayout(1)]
        ),
        Ok(_) => panic!("failure ignored"),
    }
    match swapchain_textured::array_pool_created(1, Err(-1)) {
        Err(u) => assert_eq!(u.cleanup, [Cleanup::DestroyDescriptorSetLayout(1)]),
        Ok(_) => panic!("failure ignored"),
    }
}

#[test]
fn textured_surfaces_need_live_handles() {
    let mut dev = device();
    let sampler = dev.insert_sampler(31);
    let missing = zengpu_vulkan::device::TextureHandle::from_parts(0, 0);
    match dev.textured_slot(1, missing, sampler) {
        Err(GpuError::Backend(text)) => {
            assert_eq!(text, "create_textured_surface: stale TextureHandle")
        }
        _ => panic!("dead texture accepted"),
    }
}

#[test]
fn quads_are_recorded_once_per_image() {
    let lists =
        swapchain_textured::record_cmd_buffers(1, &vec![2, 3], 4, 5, 6, extent(64, 48));
    assert_eq!(lists.len(), 2);
    match &lists[1][0] {
        CommandOf::BeginRenderPass { framebuffer, clear, .. } => {
            assert_eq!(*framebuffer, 3);
            let dark = 0.02f32.to_bits();
            assert_eq!(
                *clear,
                ClearValue { r: dark, g: dark, b: dark, a: 1.0f32.to_bits() }
            );
        }
        _ => panic!("no render pass"),
    }
    match &lists[0][3] {
        CommandOf::PushConstants { bytes, .. } => assert_eq!(*bytes, 0u32.to_ne_bytes()),
        _ => panic!("no index pushed"),
    }
    assert!(matches!(lists[0][4], CommandOf::Draw { vertex_count: 4, instance_count: 1, .. }));
    let plan = swapchain_textured::create_textured_pipeline();
    assert_eq!(plan.topology, vk::PRIMITIVE_TOPOLOGY_TRIANGLE_STRIP);
    assert!(!plan.blend.blend_enable && !plan.dynamic_viewport);
    assert_eq!(plan.push_constants.size, 4);
}

#[test]
fn textured_frames_take_turns() {
    let mut s = textured();
    assert_eq!((s.size(), s.image_count()), ((64, 48), 2));
    for k in 0..4u64 {
        assert_eq!(s.acquire_frame(), 21 + k % 2);
        assert_eq!(s.acquire_waited(Ok(())).unwrap(), 21 + k % 2);
        assert_eq!(s.acquire_reset(Ok(())).unwrap().semaphore, 17 + k % 2);
        let frame = s.frame_acquired(Ok(1)).unwrap();
        let (cmd, submit) = s.present_frame(frame);
        assert_eq!((cmd, submit.fence), (16, 21 + k % 2));
        assert_eq!(s.frame_submitted(frame, Ok(())).unwrap().index, 1);
        s.frame_presented(Ok(())).unwrap();
    }
    assert!(matches!(
        s.frame_presented(Err(vk::ERROR_OUT_OF_DATE_KHR)),
        Err(GpuError::Surface(SurfaceError::Outdated))
    ));
    assert_eq!(s.acquire_frame(), 21);
    assert!(matches!(
        s.frame_acquired(Err(-1)),
        Err(GpuError::Surface(SurfaceError::OutOfMemory))
    ));
    assert!(matches!(s.acquire_waited(Err(-1)), Err(GpuError::Backend(_))));
    assert!(matches!(s.acquire_reset(Err(-1)), Err(GpuError::Backend(_))));
    let frame = SurfaceFrame { index: 0 };
    assert!(matches!(s.frame_submitted(frame, Err(-1)), Err(GpuError::Backend(_))));
    let steps = s.destroy();
    assert_eq!(steps[0], Cleanup::FreeCommandBuffer { pool: 14, cmd: 15 });
    assert_eq!(*steps.last().unwrap(), Cleanup::DestroySurface(1));
    assert_eq!(steps.len(), 2 + 6 + 9 + 2 + 1 + 2 + 2);
}
