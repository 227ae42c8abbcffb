//! Swapchain: choice of its properties, and the frame cycle.
//!
//! [`Swapchain`] holds the state of the surface, the swapchain with its images and views, the
//! command pool with one command buffer per frame in flight, and the sync objects. A frame goes
//! through stages, with one Vulkan call between any two: `begin_frame` names the fence to wait
//! for, `frame_waited` the image to acquire, `frame_acquired` what to do with the outcome, and
//! `frame_reset` yields the frame; `end_frame` says how to submit, `frame_submitted` how to
//! present, and `frame_presented` whether the swapchain is to be rebuilt before
//! `frame_rebuilt`.
use vstd::prelude::*;
use vstd::string::StringExecFns;

use crate::command::Cleanup;
use crate::device::buffers::{unwind_one, Unwind, UnwindView};
use crate::device::context::{ContextView, DeviceContext};
use crate::device::formats;
use crate::device::textures::ViewCreateInfo;
use crate::error;
use crate::error::{backend_error, map_surface_err, map_vk_err, GpuError, GpuErrorView};
use crate::hal::{Format, PresentMode};
use crate::instance::Platform;
use crate::search;
use crate::text;
use crate::vk;

verus! {

/// Result of beginning a frame.
#[derive(Clone, Copy, PartialEq, Eq, Structural, Debug)]
pub enum BeginFrame {
    /// Window is minimised (zero extent): skip this frame entirely.
    Skip,
    /// The swapchain was just rebuilt: the caller must rebuild what derives from its images,
    /// and skip this frame.
    Recreated,
    /// Normal frame: `current` selects what exists once per frame in flight, `index` the
    /// acquired swapchain image.
    Image { current: usize, index: u32 },
}

// ── Choices ────────────────────────────────────────────────────────────────────

/// Surface format on offer.
#[derive(Clone, Copy, PartialEq, Eq, Structural, Debug)]
pub struct SurfaceFormat {
    pub format: i32,
    pub color_space: i32,
}

/// Position of the first surface format with the given texel format.
pub open spec fn format_at(formats: Seq<SurfaceFormat>, format: i32) -> Option<int> {
    search::first_below(|i: int| formats[i].format == format, formats.len() as int)
}

/// Format of a swapchain: BGRA without sRGB conversion, so that color bytes pass through
/// unchanged, or else the first on offer.
pub open spec fn chosen_format(formats: Seq<SurfaceFormat>) -> Option<i32> {
    if formats.len() == 0 {
        None
    } else if format_at(formats, vk::FORMAT_B8G8R8A8_UNORM) is Some {
        Some(vk::FORMAT_B8G8R8A8_UNORM)
    } else {
        Some(formats[0].format)
    }
}

/// Color space that goes with a format.
pub open spec fn color_space_of(formats: Seq<SurfaceFormat>, format: i32) -> i32 {
    match format_at(formats, format) {
        Some(i) => formats[i].color_space,
        None => vk::COLOR_SPACE_SRGB_NONLINEAR_KHR,
    }
}

fn find_format(formats: &Vec<SurfaceFormat>, format: i32) -> (r: Option<usize>)
    ensures
        match r {
            Some(i) => format_at(formats@, format) == Some(i as int) && i < formats.len(),
            None => format_at(formats@, format) is None,
        },
{
    let ghost f = |i: int| formats@[i].format == format;
    let n: usize = formats.len();
    let mut i: usize = 0;
    while i < n
        invariant
            n == formats.len(),
            i <= n,
            f == (|i: int| formats@[i].format == format),
            forall|j: int| 0 <= j < i ==> !#[trigger] f(j),
        decreases n - i,
    {
        if formats[i].format == format {
            proof {
                search::lemma_is_first(f, n as int, i as int);
            }
            return Some(i);
        }
        assert(!f(i as int));
        i += 1;
    }
    proof {
        search::lemma_none_below(f, n as int);
    }
    None
}

/// Picks the format of a swapchain.
pub fn pick_format(formats: &Vec<SurfaceFormat>) -> (r: Result<i32, GpuError>)
    ensures
        match r {
            Ok(f) => chosen_format(formats@) == Some(f),
            Err(e) => chosen_format(formats@) is None && e@ == GpuErrorView::Backend(
                "no surface formats"@,
            ),
        },
{
    if formats.len() == 0 {
        return Err(GpuError::Backend("no surface formats".to_owned()));
    }
    match find_format(formats, vk::FORMAT_B8G8R8A8_UNORM) {
        Some(_) => Ok(vk::FORMAT_B8G8R8A8_UNORM),
        None => Ok(formats[0].format),
    }
}

/// Presentation mode: the one that is asked for if the surface offers it, else the queue that
/// every surface has.
pub open spec fn chosen_present_mode(modes: Seq<i32>, requested: PresentMode) -> i32 {
    if modes.contains(formats::vk_present_mode(requested)) {
        formats::vk_present_mode(requested)
    } else {
        vk::PRESENT_MODE_FIFO_KHR
    }
}

/// Picks the presentation mode.
pub fn pick_present_mode(modes: &Vec<i32>, requested: PresentMode) -> (mode: i32)
    ensures
        mode == chosen_present_mode(modes@, requested),
{
    let desired: i32 = formats::present_mode_to_vk(requested);
    let n: usize = modes.len();
    let mut i: usize = 0;
    while i < n
        invariant
            n == modes.len(),
            i <= n,
            desired == formats::vk_present_mode(requested),
            forall|j: int| 0 <= j < i ==> #[trigger] modes@[j] != desired,
        decreases n - i,
    {
        if modes[i] == desired {
            assert(modes@[i as int] == desired);
            return desired;
        }
        i += 1;
    }
    vk::PRESENT_MODE_FIFO_KHR
}

/// What a surface allows. A current width of `u32::MAX` leaves the extent to the swapchain.
#[derive(Clone, Copy, PartialEq, Eq, Structural, Debug)]
pub struct SurfaceCapabilities {
    pub min_image_count: u32,
    pub max_image_count: u32,
    pub current_extent: vk::Extent2D,
    pub min_image_extent: vk::Extent2D,
    pub max_image_extent: vk::Extent2D,
    pub current_transform: u32,
}

impl SurfaceCapabilities {
    /// The extents are in order where they matter, and another image can be asked for.
    pub open spec fn valid(self) -> bool {
        &&& self.min_image_count < u32::MAX
        &&& self.current_extent.width == u32::MAX ==> self.min_image_extent.width
            <= self.max_image_extent.width && self.min_image_extent.height
            <= self.max_image_extent.height
    }

    /// Whether the extents are in order where they matter, and another image can be asked for.
    pub fn is_valid(&self) -> (r: bool)
        ensures
            r == self.valid(),
    {
        self.min_image_count < u32::MAX && (self.current_extent.width != u32::MAX || (
        self.min_image_extent.width <= self.max_image_extent.width && self.min_image_extent.height
            <= self.max_image_extent.height))
    }
}

/// `n`, brought into the range from `lo` to `hi`.
pub open spec fn clamped(n: u32, lo: u32, hi: u32) -> u32 {
    if n < lo {
        lo
    } else if n > hi {
        hi
    } else {
        n
    }
}

fn clamp_u32(n: u32, lo: u32, hi: u32) -> (r: u32)
    requires
        lo <= hi,
    ensures
        r == clamped(n, lo, hi),
{
    if n < lo {
        lo
    } else if n > hi {
        hi
    } else {
        n
    }
}

/// Extent of a swapchain: that of the surface if it has one, else the wanted one as far as the
/// surface allows.
pub open spec fn swapchain_extent(caps: SurfaceCapabilities, width: u32, height: u32) -> vk::Extent2D {
    if caps.current_extent.width != u32::MAX {
        caps.current_extent
    } else {
        vk::Extent2D {
            width: clamped(width, caps.min_image_extent.width, caps.max_image_extent.width),
            height: clamped(height, caps.min_image_extent.height, caps.max_image_extent.height),
        }
    }
}

/// Number of images to ask for: one more than the surface needs, as far as it allows. A maximum
/// of zero is no maximum.
pub open spec fn swapchain_images(caps: SurfaceCapabilities) -> u32 {
    let wanted = (caps.min_image_count + 1) as u32;
    if caps.max_image_count > 0 && wanted > caps.max_image_count {
        caps.max_image_count
    } else {
        wanted
    }
}

pub open spec fn is_empty_extent(e: vk::Extent2D) -> bool {
    e.width == 0 || e.height == 0
}

/// What a swapchain is created with. Its images have one layer, are color attachments, belong to
/// one queue family at a time, are opaque, and may be clipped.
#[derive(Clone, Copy, PartialEq, Eq, Structural, Debug)]
pub struct SwapchainCreateInfo {
    pub surface: u64,
    pub min_image_count: u32,
    pub image_format: i32,
    pub image_color_space: i32,
    pub image_extent: vk::Extent2D,
    pub pre_transform: u32,
    pub present_mode: i32,
    pub old_swapchain: u64,
}

/// Decision on a new swapchain.
#[derive(Clone, Copy, PartialEq, Eq, Structural, Debug)]
pub enum SwapchainPlan {
    /// The window is minimised: there is no swapchain, and frames are skipped.
    Empty(vk::Extent2D),
    Create(SwapchainCreateInfo),
}

/// Decision on a new swapchain of the given format and mode.
pub open spec fn swapchain_plan(
    caps: SurfaceCapabilities,
    formats: Seq<SurfaceFormat>,
    surface: u64,
    format: i32,
    present_mode: i32,
    width: u32,
    height: u32,
    old_swapchain: u64,
) -> SwapchainPlan {
    let extent = swapchain_extent(caps, width, height);
    if is_empty_extent(extent) {
        SwapchainPlan::Empty(extent)
    } else {
        SwapchainPlan::Create(
            SwapchainCreateInfo {
                surface,
                min_image_count: swapchain_images(caps),
                image_format: format,
                image_color_space: color_space_of(formats, format),
                image_extent: extent,
                pre_transform: caps.current_transform,
                present_mode,
                old_swapchain,
            },
        )
    }
}

/// Picks the extent of a swapchain.
pub(crate) fn pick_extent(caps: &SurfaceCapabilities, width: u32, height: u32) -> (e: vk::Extent2D)
    requires
        caps.valid(),
    ensures
        e == swapchain_extent(*caps, width, height),
{
    if caps.current_extent.width != u32::MAX {
        caps.current_extent
    } else {
        vk::Extent2D {
            width: clamp_u32(width, caps.min_image_extent.width, caps.max_image_extent.width),
            height: clamp_u32(height, caps.min_image_extent.height, caps.max_image_extent.height),
        }
    }
}

/// Picks the number of images to ask for.
pub(crate) fn pick_image_count(caps: &SurfaceCapabilities) -> (n: u32)
    requires
        caps.valid(),
    ensures
        n == swapchain_images(*caps),
{
    let wanted: u32 = caps.min_image_count + 1;
    if caps.max_image_count > 0 && wanted > caps.max_image_count {
        caps.max_image_count
    } else {
        wanted
    }
}

/// Decides on a new swapchain.
pub fn create_swapchain(
    caps: &SurfaceCapabilities,
    formats: &Vec<SurfaceFormat>,
    surface: u64,
    format: i32,
    present_mode: i32,
    width: u32,
    height: u32,
    old_swapchain: u64,
) -> (plan: SwapchainPlan)
    requires
        caps.valid(),
    ensures
        plan == swapchain_plan(
            *caps,
            formats@,
            surface,
            format,
            present_mode,
            width,
            height,
            old_swapchain,
        ),
{
    let image_color_space: i32 = match find_format(formats, format) {
        Some(i) => formats[i].color_space,
        None => vk::COLOR_SPACE_SRGB_NONLINEAR_KHR,
    };
    let extent = pick_extent(caps, width, height);
    if extent.width == 0 || extent.height == 0 {
        return SwapchainPlan::Empty(extent);
    }
    SwapchainPlan::Create(
        SwapchainCreateInfo {
            surface,
            min_image_count: pick_image_count(caps),
            image_format: format,
            image_color_space,
            image_extent: extent,
            pre_transform: caps.current_transform,
            present_mode,
            old_swapchain,
        },
    )
}

/// View of one swapchain image.
pub open spec fn swapchain_view(image: u64, format: i32) -> ViewCreateInfo {
    ViewCreateInfo {
        image,
        view_type: vk::IMAGE_VIEW_TYPE_2D,
        format,
        subresource_range: vk::SubresourceRange {
            aspect_mask: vk::IMAGE_ASPECT_COLOR,
            base_mip_level: 0,
            level_count: 1,
            base_array_layer: 0,
            layer_count: 1,
        },
    }
}

/// What the views of the swapchain images are created with, in the order of the images.
pub fn create_image_views(images: &Vec<u64>, format: i32) -> (infos: Vec<ViewCreateInfo>)
    ensures
        infos@ == images@.map_values(|image: u64| swapchain_view(image, format)),
{
    let mut infos: Vec<ViewCreateInfo> = Vec::new();
    let n: usize = images.len();
    let mut i: usize = 0;
    while i < n
        invariant
            n == images.len(),
            i <= n,
            infos@ == images@.take(i as int).map_values(
                |image: u64| swapchain_view(image, format),
            ),
        decreases n - i,
    {
        infos.push(
            ViewCreateInfo {
                image: images[i],
                view_type: vk::IMAGE_VIEW_TYPE_2D,
                format,
                subresource_range: vk::SubresourceRange {
                    aspect_mask: vk::IMAGE_ASPECT_COLOR,
                    base_mip_level: 0,
                    level_count: 1,
                    base_array_layer: 0,
                    layer_count: 1,
                },
            },
        );
        i += 1;
        assert(infos@ =~= images@.take(i as int).map_values(
            |image: u64| swapchain_view(image, format),
        ));
    }
    assert(images@.take(n as int) =~= images@);
    infos
}

/// The extent and the number of images lie within what the surface allows.
pub proof fn swapchain_respects_surface(caps: SurfaceCapabilities, width: u32, height: u32)
    requires
        caps.valid(),
    ensures
        caps.current_extent.width == u32::MAX ==> {
            let e = swapchain_extent(caps, width, height);
            caps.min_image_extent.width <= e.width <= caps.max_image_extent.width
                && caps.min_image_extent.height <= e.height <= caps.max_image_extent.height
        },
        caps.max_image_count > 0 ==> swapchain_images(caps) <= caps.max_image_count,
        (caps.max_image_count == 0 || caps.min_image_count <= caps.max_image_count)
            ==> swapchain_images(caps) >= caps.min_image_count,
{
}

/// Checks that a swapchain can be made at all.
pub fn check_instance(surface_extensions: bool) -> (r: Result<(), GpuError>)
    ensures
        match r {
            Ok(_) => surface_extensions,
            Err(e) => !surface_extensions && e@ == GpuErrorView::Backend(
                "Swapchain::new requires VulkanInstance::new_with_surface()"@,
            ),
        },
{
    if surface_extensions {
        Ok(())
    } else {
        Err(
            GpuError::Backend(
                "Swapchain::new requires VulkanInstance::new_with_surface()".to_owned(),
            ),
        )
    }
}

pub open spec fn cannot_present_text(family: u32) -> Seq<char> {
    "selected queue family "@ + text::decimal_text(family as nat)
        + " cannot present to this surface"@
}

/// Checks that a queue family can present to a surface. On macOS the query is unreliable, and
/// the creation of the swapchain decides.
pub fn check_present_support(platform: Platform, supported: bool, family: u32, surface: u64) -> (r:
    Result<(), Unwind>)
    ensures
        match r {
            Ok(_) => supported || platform == Platform::MacOs,
            Err(u) => !supported && platform != Platform::MacOs && u@ == (UnwindView {
                cleanup: seq![Cleanup::DestroySurface(surface)],
                error: GpuErrorView::Backend(cannot_present_text(family)),
            }),
        },
{
    if supported || platform == Platform::MacOs {
        Ok(())
    } else {
        let mut message = "selected queue family ".to_owned();
        message.append(text::decimal(family as u64).as_str());
        message.append(" cannot present to this surface");
        Err(unwind_one(Cleanup::DestroySurface(surface), GpuError::Backend(message)))
    }
}

/// Kind of window handle and of display handle.
#[derive(Clone, Copy, PartialEq, Eq, Structural, Debug)]
pub enum WindowSystem {
    Win32,
    Xcb,
    Wayland,
    AppKit,
    Other,
}

/// Window system of the surface to create for a window and a display. Only one platform looks at
/// the display.
pub open spec fn surface_system(
    platform: Platform,
    window: WindowSystem,
    display: WindowSystem,
) -> Option<WindowSystem> {
    match platform {
        Platform::Windows => if window == WindowSystem::Win32 {
            Some(WindowSystem::Win32)
        } else {
            None
        },
        Platform::Linux => if window == display && (window == WindowSystem::Xcb || window
            == WindowSystem::Wayland) {
            Some(window)
        } else {
            None
        },
        Platform::MacOs => if window == WindowSystem::AppKit {
            Some(WindowSystem::AppKit)
        } else {
            None
        },
        Platform::Other => None,
    }
}

/// Message for a window that has no surface on a platform.
pub open spec fn no_surface_text(platform: Platform) -> Seq<char> {
    match platform {
        Platform::Windows => "expected Win32 window handle on Windows"@,
        Platform::Linux => "expected matching XCB or Wayland window/display handles on Linux"@,
        Platform::MacOs => "expected AppKit window handle on macOS"@,
        Platform::Other => "unsupported surface platform"@,
    }
}

/// Why a surface cannot be created. An XCB surface needs the connection to the display server.
pub open spec fn surface_fault(
    platform: Platform,
    window: WindowSystem,
    display: WindowSystem,
    connected: bool,
) -> Option<Seq<char>> {
    match surface_system(platform, window, display) {
        Some(s) => if s == WindowSystem::Xcb && !connected {
            Some("XCB display handle has no connection"@)
        } else {
            None
        },
        None => Some(no_surface_text(platform)),
    }
}

/// Picks the kind of surface to create.
pub fn pick_surface_system(
    platform: Platform,
    window: WindowSystem,
    display: WindowSystem,
    connected: bool,
) -> (r: Result<WindowSystem, GpuError>)
    ensures
        match r {
            Ok(s) => surface_fault(platform, window, display, connected) is None && surface_system(
                platform,
                window,
                display,
            ) == Some(s),
            Err(e) => e@ is Backend && surface_fault(platform, window, display, connected) == Some(
                e@->Backend_0,
            ),
        },
{
    match platform {
        Platform::Windows => if window == WindowSystem::Win32 {
            Ok(WindowSystem::Win32)
        } else {
            Err(GpuError::Backend("expected Win32 window handle on Windows".to_owned()))
        },
        Platform::Linux => if window == WindowSystem::Xcb && display == WindowSystem::Xcb {
            if connected {
                Ok(WindowSystem::Xcb)
            } else {
                Err(GpuError::Backend("XCB display handle has no connection".to_owned()))
            }
        } else if window == WindowSystem::Wayland && display == WindowSystem::Wayland {
            Ok(WindowSystem::Wayland)
        } else {
            Err(
                GpuError::Backend(
                    "expected matching XCB or Wayland window/display handles on Linux".to_owned(),
                ),
            )
        },
        Platform::MacOs => if window == WindowSystem::AppKit {
            Ok(WindowSystem::AppKit)
        } else {
            Err(GpuError::Backend("expected AppKit window handle on macOS".to_owned()))
        },
        Platform::Other => Err(GpuError::Backend("unsupported surface platform".to_owned())),
    }
}

// ── Frame cycle ────────────────────────────────────────────────────────────────

/// Objects that a swapchain keeps for its whole life: one command buffer, two semaphores and
/// one fence per frame in flight.
pub struct FrameObjects {
    pub context: DeviceContext,
    pub surface: u64,
    pub cmd_pool: u64,
    pub cmd_buffers: Vec<u64>,
    pub image_available: Vec<u64>,
    pub render_finished: Vec<u64>,
    pub in_flight: Vec<u64>,
}

/// State of a swapchain.
pub struct Swapchain {
    format: i32,
    present_mode: i32,
    frames_in_flight: usize,
    current: usize,
    swapchain: u64,
    images: Vec<u64>,
    image_views: Vec<u64>,
    extent: vk::Extent2D,
    objects: FrameObjects,
}

/// Contents of a [`Swapchain`].
#[verifier::ext_equal]
pub struct SwapchainView {
    pub format: i32,
    pub present_mode: i32,
    pub frames_in_flight: usize,
    pub current: usize,
    pub swapchain: u64,
    pub images: Seq<u64>,
    pub image_views: Seq<u64>,
    pub extent: vk::Extent2D,
    pub surface: u64,
    pub cmd_pool: u64,
    pub cmd_buffers: Seq<u64>,
    pub image_available: Seq<u64>,
    pub render_finished: Seq<u64>,
    pub in_flight: Seq<u64>,
    pub context: ContextView,
}

impl SwapchainView {
    /// The current frame is one of those in flight, each of which has its objects.
    pub open spec fn wf(self) -> bool {
        &&& self.current < self.frames_in_flight
        &&& self.cmd_buffers.len() == self.frames_in_flight
        &&& self.image_available.len() == self.frames_in_flight
        &&& self.render_finished.len() == self.frames_in_flight
        &&& self.in_flight.len() == self.frames_in_flight
    }

    /// The frame in flight after `current`, in turn.
    pub open spec fn next_frame(self, current: usize) -> usize {
        ((current + 1) % (self.frames_in_flight as int)) as usize
    }
}

/// Image to acquire, and the semaphore that tells when it is there.
#[derive(Clone, Copy, PartialEq, Eq, Structural, Debug)]
pub struct AcquireInfo {
    pub swapchain: u64,
    pub semaphore: u64,
}

/// What to do once an image was acquired.
#[derive(Clone, Copy, PartialEq, Eq, Structural, Debug)]
pub enum AcquireStep {
    /// Reset the fence of the frame, then use image `index`.
    Reset { fence: u64, index: u32 },
    /// Rebuild the swapchain at its size and skip the frame.
    Recreate { width: u32, height: u32 },
}

/// How a frame is submitted: after the image is there, and telling the presentation and the
/// fence when it is done.
#[derive(Clone, Copy, PartialEq, Eq, Structural, Debug)]
pub struct FrameSubmit {
    pub wait_semaphore: u64,
    pub wait_stage: u32,
    pub signal_semaphore: u64,
    pub fence: u64,
}

/// How a frame is presented.
#[derive(Clone, Copy, PartialEq, Eq, Structural, Debug)]
pub struct FramePresent {
    pub wait_semaphore: u64,
    pub swapchain: u64,
    pub index: u32,
}

/// What to do once a frame was presented.
#[derive(Clone, Copy, PartialEq, Eq, Structural, Debug)]
pub enum PresentStep {
    /// Go on with the next frame.
    Done,
    /// Rebuild the swapchain at its size, then go on with the next frame.
    Recreate { width: u32, height: u32 },
}

/// Fence that is waited for before the frame in flight `current` begins.
pub open spec fn awaited_fence(s: SwapchainView, current: usize) -> u64 {
    s.in_flight[current as int]
}

/// Image to acquire for the frame in flight `current`.
pub open spec fn acquired_by(s: SwapchainView, current: usize) -> AcquireInfo {
    AcquireInfo { swapchain: s.swapchain, semaphore: s.image_available[current as int] }
}

/// How the frame in flight `current` is submitted.
pub open spec fn submitted_by(s: SwapchainView, current: usize) -> FrameSubmit {
    FrameSubmit {
        wait_semaphore: s.image_available[current as int],
        wait_stage: vk::PIPELINE_STAGE_COLOR_ATTACHMENT_OUTPUT,
        signal_semaphore: s.render_finished[current as int],
        fence: s.in_flight[current as int],
    }
}

/// How the frame in flight `current` is presented, with image `index`.
pub open spec fn presented_by(s: SwapchainView, current: usize, index: u32) -> FramePresent {
    FramePresent {
        wait_semaphore: s.render_finished[current as int],
        swapchain: s.swapchain,
        index,
    }
}

impl View for Swapchain {
    type V = SwapchainView;

    closed spec fn view(&self) -> SwapchainView {
        SwapchainView {
            format: self.format,
            present_mode: self.present_mode,
            frames_in_flight: self.frames_in_flight,
            current: self.current,
            swapchain: self.swapchain,
            images: self.images@,
            image_views: self.image_views@,
            extent: self.extent,
            surface: self.objects.surface,
            cmd_pool: self.objects.cmd_pool,
            cmd_buffers: self.objects.cmd_buffers@,
            image_available: self.objects.image_available@,
            render_finished: self.objects.render_finished@,
            in_flight: self.objects.in_flight@,
            context: self.objects.context@,
        }
    }
}

impl Swapchain {
    /// Swapchain from its objects, at its first frame.
    pub fn new(
        format: i32,
        present_mode: i32,
        frames_in_flight: usize,
        swapchain: u64,
        images: Vec<u64>,
        image_views: Vec<u64>,
        extent: vk::Extent2D,
        objects: FrameObjects,
    ) -> (s: Self)
        requires
            frames_in_flight > 0,
            objects.cmd_buffers.len() == frames_in_flight,
            objects.image_available.len() == frames_in_flight,
            objects.render_finished.len() == frames_in_flight,
            objects.in_flight.len() == frames_in_flight,
        ensures
            s@.wf(),
            s@ == (SwapchainView {
                format,
                present_mode,
                frames_in_flight,
                current: 0,
                swapchain,
                images: images@,
                image_views: image_views@,
                extent,
                surface: objects.surface,
                cmd_pool: objects.cmd_pool,
                cmd_buffers: objects.cmd_buffers@,
                image_available: objects.image_available@,
                render_finished: objects.render_finished@,
                in_flight: objects.in_flight@,
                context: objects.context@,
            }),
    {
        Swapchain {
            format,
            present_mode,
            frames_in_flight,
            current: 0,
            swapchain,
            images,
            image_views,
            extent,
            objects,
        }
    }

    /// Raw handles of the device that the swapchain belongs to.
    pub fn context(&self) -> (ctx: DeviceContext)
        ensures
            ctx@ == self@.context,
    {
        self.objects.context.duplicate()
    }

    /// Format of the images. The Vulkan format must have a counterpart.
    pub fn format(&self) -> (f: Format)
        requires
            exists|g: Format| #[trigger] formats::vk_hal_format(g) == self@.format,
        ensures
            formats::vk_hal_format(f) == self@.format,
    {
        crate::from_vk_format(self.format).unwrap()
    }

    /// Vulkan format of the images.
    pub fn raw_format(&self) -> (f: i32)
        ensures
            f == self@.format,
    {
        self.format
    }

    /// Presentation mode.
    pub fn present_mode(&self) -> (mode: i32)
        ensures
            mode == self@.present_mode,
    {
        self.present_mode
    }

    /// The surface that frames are presented to.
    pub fn surface(&self) -> (surface: u64)
        ensures
            surface == self@.surface,
    {
        self.objects.surface
    }

    pub fn extent(&self) -> (r: (u32, u32))
        ensures
            r == (self@.extent.width, self@.extent.height),
    {
        (self.extent.width, self.extent.height)
    }

    /// The image views, in the order of the images.
    pub fn image_views(&self) -> (views: Vec<u64>)
        ensures
            views@ == self@.image_views,
    {
        copy_handles(&self.image_views)
    }

    pub fn image_count(&self) -> (n: usize)
        ensures
            n == self@.images.len(),
    {
        self.images.len()
    }

    /// The images.
    pub fn images(&self) -> (images: Vec<u64>)
        ensures
            images@ == self@.images,
    {
        copy_handles(&self.images)
    }

    /// Command buffer of a frame in flight.
    pub fn cmd_buffer(&self, current: usize) -> (cmd: u64)
        requires
            current < self@.cmd_buffers.len(),
        ensures
            cmd == self@.cmd_buffers[current as int],
    {
        self.objects.cmd_buffers[current]
    }

    /// Number of frames in flight.
    pub fn frames_in_flight(&self) -> (n: usize)
        ensures
            n == self@.frames_in_flight,
    {
        self.frames_in_flight
    }

    /// Fence to wait for before the next frame: the last use of its objects has then finished.
    pub fn begin_frame(&self) -> (fence: u64)
        requires
            self@.wf(),
        ensures
            fence == self@.in_flight[self@.current as int],
            fence == awaited_fence(self@, self@.current),
    {
        self.objects.in_flight[self.current]
    }

    /// Outcome of waiting for the fence: the image to acquire, or `None` to skip a frame of a
    /// minimised window.
    pub fn frame_waited(&self, result: Result<(), i32>) -> (r: Result<Option<AcquireInfo>, GpuError>)
        requires
            self@.wf(),
        ensures
            match (result, r) {
                (Ok(_), Ok(None)) => is_empty_extent(self@.extent),
                (Ok(_), Ok(Some(info))) => !is_empty_extent(self@.extent) && info == (AcquireInfo {
                    swapchain: self@.swapchain,
                    semaphore: self@.image_available[self@.current as int],
                }),
                (Err(code), Err(e)) => e@ == error::vk_error_view("wait_for_fences"@, code),
                _ => false,
            },
            r matches Ok(Some(info)) ==> info == acquired_by(self@, self@.current),
    {
        match result {
            Err(code) => Err(map_vk_err("wait_for_fences", code)),
            Ok(_) => if self.extent.width == 0 || self.extent.height == 0 {
                Ok(None)
            } else {
                Ok(
                    Some(
                        AcquireInfo {
                            swapchain: self.swapchain,
                            semaphore: self.objects.image_available[self.current],
                        },
                    ),
                )
            },
        }
    }

    /// Outcome of acquiring an image. An outdated swapchain is rebuilt.
    pub fn frame_acquired(&self, result: Result<u32, i32>) -> (r: Result<AcquireStep, GpuError>)
        requires
            self@.wf(),
        ensures
            match (result, r) {
                (Ok(i), Ok(step)) => step == (AcquireStep::Reset {
                    fence: self@.in_flight[self@.current as int],
                    index: i,
                }),
                (Err(code), Ok(step)) => code == vk::ERROR_OUT_OF_DATE_KHR && step
                    == (AcquireStep::Recreate {
                    width: self@.extent.width,
                    height: self@.extent.height,
                }),
                (Err(code), Err(e)) => code != vk::ERROR_OUT_OF_DATE_KHR && e@
                    == error::surface_error_view(code),
                _ => false,
            },
            r matches Ok(AcquireStep::Reset { fence, index }) ==> fence == awaited_fence(
                self@,
                self@.current,
            ),
    {
        match result {
            Ok(index) => Ok(
                AcquireStep::Reset { fence: self.objects.in_flight[self.current], index },
            ),
            Err(code) => if code == vk::ERROR_OUT_OF_DATE_KHR {
                Ok(
                    AcquireStep::Recreate {
                        width: self.extent.width,
                        height: self.extent.height,
                    },
                )
            } else {
                Err(map_surface_err(code))
            },
        }
    }

    /// Outcome of resetting the fence: the frame.
    pub fn frame_reset(&self, index: u32, result: Result<(), i32>) -> (r: Result<
        BeginFrame,
        GpuError,
    >)
        ensures
            match (result, r) {
                (Ok(_), Ok(frame)) => frame == (BeginFrame::Image {
                    current: self@.current,
                    index,
                }),
                (Err(code), Err(e)) => e@ == error::backend_failure("reset_fences"@, code),
                _ => false,
            },
    {
        match result {
            Ok(_) => Ok(BeginFrame::Image { current: self.current, index }),
            Err(code) => Err(backend_error("reset_fences", code)),
        }
    }

    /// How the frame in flight `current` is submitted.
    pub(crate) fn submit_info(&self, current: usize) -> (r: FrameSubmit)
        requires
            self@.wf(),
            current < self@.frames_in_flight,
        ensures
            r == (FrameSubmit {
                wait_semaphore: self@.image_available[current as int],
                wait_stage: vk::PIPELINE_STAGE_COLOR_ATTACHMENT_OUTPUT,
                signal_semaphore: self@.render_finished[current as int],
                fence: self@.in_flight[current as int],
            }),
            r == submitted_by(self@, current),
    {
        FrameSubmit {
            wait_semaphore: self.objects.image_available[current],
            wait_stage: vk::PIPELINE_STAGE_COLOR_ATTACHMENT_OUTPUT,
            signal_semaphore: self.objects.render_finished[current],
            fence: self.objects.in_flight[current],
        }
    }

    /// How a frame is submitted. A frame without an image is not submitted at all.
    pub fn end_frame(&self, frame: &BeginFrame) -> (r: Option<FrameSubmit>)
        requires
            self@.wf(),
            *frame matches BeginFrame::Image { current, .. } ==> current < self@.frames_in_flight,
        ensures
            r == (match *frame {
                BeginFrame::Image { current, index } => Some(
                    FrameSubmit {
                        wait_semaphore: self@.image_available[current as int],
                        wait_stage: vk::PIPELINE_STAGE_COLOR_ATTACHMENT_OUTPUT,
                        signal_semaphore: self@.render_finished[current as int],
                        fence: self@.in_flight[current as int],
                    },
                ),
                _ => None,
            }),
            *frame matches BeginFrame::Image { current, .. } ==> r == Some(
                submitted_by(self@, current),
            ),
    {
        match *frame {
            BeginFrame::Image { current, index } => Some(self.submit_info(current)),
            _ => None,
        }
    }

    /// Outcome of submitting a frame: how it is presented.
    pub fn frame_submitted(&self, current: usize, index: u32, result: Result<(), i32>) -> (r: Result<
        FramePresent,
        GpuError,
    >)
        requires
            self@.wf(),
            current < self@.frames_in_flight,
        ensures
            match (result, r) {
                (Ok(_), Ok(p)) => p == (FramePresent {
                    wait_semaphore: self@.render_finished[current as int],
                    swapchain: self@.swapchain,
                    index,
                }),
                (Err(code), Err(e)) => e@ == error::vk_error_view("queue_submit"@, code),
                _ => false,
            },
            r matches Ok(p) ==> p == presented_by(self@, current, index),
    {
        match result {
            Ok(_) => Ok(
                FramePresent {
                    wait_semaphore: self.objects.render_finished[current],
                    swapchain: self.swapchain,
                    index,
                },
            ),
            Err(code) => Err(map_vk_err("queue_submit", code)),
        }
    }

    /// Outcome of presenting a frame. Once it is presented, the next frame in flight is current.
    /// An outdated swapchain is rebuilt first.
    pub fn frame_presented(&mut self, current: usize, result: Result<(), i32>) -> (r: Result<
        PresentStep,
        GpuError,
    >)
        requires
            old(self)@.wf(),
            current < old(self)@.frames_in_flight,
        ensures
            final(self)@.wf(),
            match (result, r) {
                (Ok(_), Ok(step)) => step == PresentStep::Done && final(self)@ == advanced(
                    old(self)@,
                    current,
                ),
                (Err(code), Ok(step)) => code == vk::ERROR_OUT_OF_DATE_KHR && step
                    == (PresentStep::Recreate {
                    width: old(self)@.extent.width,
                    height: old(self)@.extent.height,
                }) && final(self)@ == old(self)@,
                (Err(code), Err(e)) => code != vk::ERROR_OUT_OF_DATE_KHR && e@
                    == error::surface_error_view(code) && final(self)@ == old(self)@,
                _ => false,
            },
    {
        match result {
            Ok(_) => {
                self.frame_rebuilt(current);
                Ok(PresentStep::Done)
            },
            Err(code) => if code == vk::ERROR_OUT_OF_DATE_KHR {
                Ok(
                    PresentStep::Recreate {
                        width: self.extent.width,
                        height: self.extent.height,
                    },
                )
            } else {
                Err(map_surface_err(code))
            },
        }
    }

    /// The swapchain was rebuilt after frame `current` was presented: the next frame in flight
    /// is current.
    pub fn frame_rebuilt(&mut self, current: usize)
        requires
            old(self)@.wf(),
            current < old(self)@.frames_in_flight,
        ensures
            final(self)@.wf(),
            final(self)@ == advanced(old(self)@, current),
    {
        let n: usize = self.frames_in_flight;
        proof {
            vstd::arithmetic::div_mod::lemma_mod_bound(current + 1, n as int);
            if current + 1 == n {
                vstd::arithmetic::div_mod::lemma_mod_self_0(n as int);
            } else {
                vstd::arithmetic::div_mod::lemma_small_mod((current + 1) as nat, n as nat);
            }
        }
        self.current = if current + 1 == n {
            0
        } else {
            current + 1
        };
    }

    /// Decides on a swapchain of another size, on the same surface, with the same format and
    /// presentation mode. The window may be minimised.
    pub fn resize(
        &self,
        caps: &SurfaceCapabilities,
        formats: &Vec<SurfaceFormat>,
        width: u32,
        height: u32,
    ) -> (plan: SwapchainPlan)
        requires
            caps.valid(),
        ensures
            plan == swapchain_plan(
                *caps,
                formats@,
                self@.surface,
                self@.format,
                self@.present_mode,
                width,
                height,
                self@.swapchain,
            ),
    {
        create_swapchain(
            caps,
            formats,
            self.objects.surface,
            self.format,
            self.present_mode,
            width,
            height,
            self.swapchain,
        )
    }

    /// What goes when the swapchain is rebuilt, once the new one exists: the old views and the
    /// old swapchain.
    pub fn retire(&self) -> (steps: Vec<Cleanup>)
        ensures
            steps@ == old_swapchain_cleanup(self@),
    {
        let mut steps = view_steps(&self.image_views);
        steps.push(Cleanup::DestroySwapchain(self.swapchain));
        steps
    }

    /// Puts a new swapchain in place of the old one. Surface, format, presentation mode and the
    /// frame cycle stay.
    pub fn replace(&mut self, swapchain: u64, images: Vec<u64>, image_views: Vec<u64>, extent: vk::Extent2D)
        requires
            old(self)@.wf(),
        ensures
            final(self)@.wf(),
            final(self)@ == (SwapchainView {
                swapchain,
                images: images@,
                image_views: image_views@,
                extent,
                ..old(self)@
            }),
    {
        self.swapchain = swapchain;
        self.images = images;
        self.image_views = image_views;
        self.extent = extent;
    }

    /// Appends the freeing of the command buffers.
    pub(crate) fn push_free_commands(&self, steps: &mut Vec<Cleanup>)
        requires
            self@.wf(),
        ensures
            final(steps)@ == old(steps)@ + free_commands(
                self@.cmd_pool,
                self@.cmd_buffers,
                self@.frames_in_flight as int,
            ),
    {
        let ghost first = steps@;
        let n: usize = self.frames_in_flight;
        let mut i: usize = 0;
        while i < n
            invariant
                n == self@.frames_in_flight,
                self@.wf(),
                i <= n,
                steps@ == first + free_commands(self@.cmd_pool, self@.cmd_buffers, i as int),
            decreases n - i,
        {
            steps.push(
                Cleanup::FreeCommandBuffer {
                    pool: self.objects.cmd_pool,
                    cmd: self.objects.cmd_buffers[i],
                },
            );
            i += 1;
            assert(steps@ =~= first + free_commands(self@.cmd_pool, self@.cmd_buffers, i as int));
        }
    }

    /// Appends the destruction of the sync objects.
    pub(crate) fn push_sync(&self, steps: &mut Vec<Cleanup>)
        requires
            self@.wf(),
        ensures
            final(steps)@ == old(steps)@ + sync_cleanup(self@, self@.frames_in_flight as int),
    {
        let ghost first = steps@;
        let n: usize = self.frames_in_flight;
        let mut j: usize = 0;
        while j < n
            invariant
                n == self@.frames_in_flight,
                self@.wf(),
                j <= n,
                steps@ == first + sync_cleanup(self@, j as int),
            decreases n - j,
        {
            steps.push(Cleanup::DestroySemaphore(self.objects.image_available[j]));
            steps.push(Cleanup::DestroySemaphore(self.objects.render_finished[j]));
            steps.push(Cleanup::DestroyFence(self.objects.in_flight[j]));
            j += 1;
            assert(steps@ =~= first + sync_cleanup(self@, j as int));
        }
    }

    /// Destruction of everything that the swapchain holds.
    pub fn destroy(self) -> (steps: Vec<Cleanup>)
        requires
            self@.wf(),
        ensures
            steps@ == swapchain_cleanup(self@),
    {
        let mut steps = self.retire();
        self.push_free_commands(&mut steps);
        steps.push(Cleanup::DestroyCommandPool(self.objects.cmd_pool));
        self.push_sync(&mut steps);
        steps.push(Cleanup::DestroySurface(self.objects.surface));
        assert(steps@ =~= swapchain_cleanup(self@));
        steps
    }

    /// The command pool.
    pub fn cmd_pool(&self) -> (pool: u64)
        ensures
            pool == self@.cmd_pool,
    {
        self.objects.cmd_pool
    }
}

/// Destruction of image views.
pub open spec fn views_cleanup(views: Seq<u64>) -> Seq<Cleanup> {
    views.map_values(|v: u64| Cleanup::DestroyImageView(v))
}

pub open spec fn old_swapchain_cleanup(s: SwapchainView) -> Seq<Cleanup> {
    views_cleanup(s.image_views).push(Cleanup::DestroySwapchain(s.swapchain))
}

pub open spec fn free_commands(pool: u64, cmds: Seq<u64>, k: int) -> Seq<Cleanup> {
    Seq::new(k as nat, |i: int| Cleanup::FreeCommandBuffer { pool, cmd: cmds[i] })
}

/// Destruction of the sync objects of the first `k` frames.
pub open spec fn sync_cleanup(s: SwapchainView, k: int) -> Seq<Cleanup>
    decreases k,
{
    if k <= 0 {
        Seq::empty()
    } else {
        sync_cleanup(s, k - 1) + seq![
            Cleanup::DestroySemaphore(s.image_available[k - 1]),
            Cleanup::DestroySemaphore(s.render_finished[k - 1]),
            Cleanup::DestroyFence(s.in_flight[k - 1]),
        ]
    }
}

/// Destruction of a swapchain: views, swapchain, command buffers and their pool, sync objects,
/// surface.
pub open spec fn swapchain_cleanup(s: SwapchainView) -> Seq<Cleanup> {
    (old_swapchain_cleanup(s) + free_commands(s.cmd_pool, s.cmd_buffers, s.frames_in_flight as int)).push(
        Cleanup::DestroyCommandPool(s.cmd_pool),
    ) + sync_cleanup(s, s.frames_in_flight as int).push(Cleanup::DestroySurface(s.surface))
}

pub(crate) fn view_steps(views: &Vec<u64>) -> (steps: Vec<Cleanup>)
    ensures
        steps@ == views_cleanup(views@),
{
    let mut steps: Vec<Cleanup> = Vec::new();
    let n: usize = views.len();
    let mut i: usize = 0;
    while i < n
        invariant
            n == views.len(),
            i <= n,
            steps@ == views_cleanup(views@.take(i as int)),
        decreases n - i,
    {
        steps.push(Cleanup::DestroyImageView(views[i]));
        i += 1;
        assert(steps@ =~= views_cleanup(views@.take(i as int)));
    }
    assert(views@.take(n as int) =~= views@);
    steps
}

fn copy_handles(handles: &Vec<u64>) -> (out: Vec<u64>)
    ensures
        out@ == handles@,
{
    let mut out: Vec<u64> = Vec::new();
    let n: usize = handles.len();
    let mut i: usize = 0;
    while i < n
        invariant
            n == handles.len(),
            i <= n,
            out@ == handles@.take(i as int),
        decreases n - i,
    {
        out.push(handles[i]);
        i += 1;
        assert(out@ =~= handles@.take(i as int));
    }
    assert(handles@.take(n as int) =~= handles@);
    out
}

/// Swapchain after frame `current` was presented.
pub open spec fn advanced(s: SwapchainView, current: usize) -> SwapchainView {
    SwapchainView { current: s.next_frame(current), ..s }
}

/// Swapchain after `k` frames were presented.
pub open spec fn after_frames(s: SwapchainView, k: nat) -> SwapchainView
    decreases k,
{
    if k == 0 {
        s
    } else {
        let t = after_frames(s, (k - 1) as nat);
        advanced(t, t.current)
    }
}

proof fn lemma_after_frames(s: SwapchainView, k: nat)
    requires
        s.wf(),
    ensures
        after_frames(s, k).wf(),
        after_frames(s, k) == (SwapchainView { current: after_frames(s, k).current, ..s }),
        after_frames(s, k).current == (s.current + k) % (s.frames_in_flight as int),
    decreases k,
{
    let n = s.frames_in_flight as int;
    if k == 0 {
        vstd::arithmetic::div_mod::lemma_small_mod(s.current as nat, n as nat);
    } else {
        lemma_after_frames(s, (k - 1) as nat);
        let before = s.current + k - 1;
        vstd::arithmetic::div_mod::lemma_mod_bound(before + 1, n);
        vstd::arithmetic::div_mod::lemma_mod_bound(before % n + 1, n);
        vstd::arithmetic::div_mod::lemma_add_mod_noop(before, 1, n);
        vstd::arithmetic::div_mod::lemma_add_mod_noop(before % n, 1, n);
        vstd::arithmetic::div_mod::lemma_mod_twice(before, n);
    }
}

/// Frames in flight take turns: the objects of a frame come into use again after exactly as many
/// frames as are in flight, and `begin_frame` then waits for the fence that the earlier use
/// signals. No frame in between uses them.
pub proof fn frames_take_turns(s: SwapchainView, j: nat)
    requires
        s.wf(),
        0 < j <= s.frames_in_flight,
    ensures
        after_frames(s, j).wf(),
        (after_frames(s, j).current == s.current) == (j == s.frames_in_flight),
        after_frames(s, j).in_flight == s.in_flight,
{
    let n = s.frames_in_flight as int;
    lemma_after_frames(s, j);
    let t = s.current + j;
    if t < n {
        vstd::arithmetic::div_mod::lemma_small_mod(t as nat, n as nat);
    } else {
        vstd::arithmetic::div_mod::lemma_mod_sub_multiples_vanish(t, n);
        if t - n < n {
            vstd::arithmetic::div_mod::lemma_small_mod((t - n) as nat, n as nat);
        } else {
            assert(false);
        }
    }
}

/// What one step of a frame hands on, the next takes up: the submission waits for the semaphore
/// that the acquired image signals, the presentation for the one that the submission signals,
/// and the next use of the frame for the fence of the submission. Image and swapchain stay the
/// same.
pub proof fn frame_is_handed_on(s: SwapchainView, current: usize, index: u32)
    requires
        s.wf(),
        current < s.frames_in_flight,
    ensures
        acquired_by(s, current).semaphore == submitted_by(s, current).wait_semaphore,
        submitted_by(s, current).signal_semaphore == presented_by(s, current, index).wait_semaphore,
        submitted_by(s, current).fence == awaited_fence(s, current),
        acquired_by(s, current).swapchain == s.swapchain,
        presented_by(s, current, index).swapchain == s.swapchain,
        presented_by(s, current, index).index == index,
        submitted_by(s, current).wait_stage == vk::PIPELINE_STAGE_COLOR_ATTACHMENT_OUTPUT,
        s.image_available.contains(acquired_by(s, current).semaphore),
        s.render_finished.contains(submitted_by(s, current).signal_semaphore),
        s.in_flight.contains(submitted_by(s, current).fence),
{
    assert(s.image_available[current as int] == acquired_by(s, current).semaphore);
    assert(s.render_finished[current as int] == submitted_by(s, current).signal_semaphore);
    assert(s.in_flight[current as int] == submitted_by(s, current).fence);
}

/// Frames in flight do not share their sync objects.
pub proof fn frames_do_not_share(s: SwapchainView, a: usize, b: usize)
    requires
        s.wf(),
        a < s.frames_in_flight,
        b < s.frames_in_flight,
        a != b,
        s.image_available.no_duplicates(),
        s.render_finished.no_duplicates(),
        s.in_flight.no_duplicates(),
    ensures
        acquired_by(s, a).semaphore != acquired_by(s, b).semaphore,
        submitted_by(s, a).signal_semaphore != submitted_by(s, b).signal_semaphore,
        submitted_by(s, a).fence != submitted_by(s, b).fence,
{
}

/// The frame after the last one is the first; any other frame is followed by the next higher.
/// Nothing but the current frame changes.
pub proof fn frames_follow_each_other(s: SwapchainView, current: usize)
    requires
        s.wf(),
        current < s.frames_in_flight,
    ensures
        current + 1 < s.frames_in_flight ==> advanced(s, current).current == current + 1,
        current + 1 == s.frames_in_flight ==> advanced(s, current).current == 0,
        advanced(s, current) == (SwapchainView { current: advanced(s, current).current, ..s }),
{
    if current + 1 == s.frames_in_flight {
        vstd::arithmetic::div_mod::lemma_mod_self_0(s.frames_in_flight as int);
    } else {
        vstd::arithmetic::div_mod::lemma_small_mod((current + 1) as nat, s.frames_in_flight as nat);
    }
}

/// A surface that offers BGRA without sRGB conversion gets it, whatever else it offers and in
/// which order; any other surface gets the first format it offers. Only a surface without
/// formats gets none.
pub proof fn bgra_is_preferred(offered: Seq<SurfaceFormat>)
    ensures
        chosen_format(offered) is None <==> offered.len() == 0,
        (exists|i: int|
            0 <= i < offered.len() && (#[trigger] offered[i]).format == vk::FORMAT_B8G8R8A8_UNORM)
            ==> chosen_format(offered) == Some(vk::FORMAT_B8G8R8A8_UNORM),
        offered.len() > 0 && (forall|i: int|
            0 <= i < offered.len() ==> (#[trigger] offered[i]).format
                != vk::FORMAT_B8G8R8A8_UNORM) ==> chosen_format(offered) == Some(offered[0].format),
{
    let f = |i: int| offered[i].format == vk::FORMAT_B8G8R8A8_UNORM;
    search::lemma_first_below(f, offered.len() as int);
    if exists|i: int|
        0 <= i < offered.len() && (#[trigger] offered[i]).format == vk::FORMAT_B8G8R8A8_UNORM {
        let i = choose|i: int|
            0 <= i < offered.len() && (#[trigger] offered[i]).format == vk::FORMAT_B8G8R8A8_UNORM;
        assert(f(i));
    }
}

/// The color space is the one that the surface offers first with the format, or the sRGB one
/// where the surface does not offer the format.
pub proof fn color_space_goes_with_format(offered: Seq<SurfaceFormat>, format: i32, i: int)
    ensures
        0 <= i < offered.len() && offered[i].format == format && (forall|j: int|
            0 <= j < i ==> (#[trigger] offered[j]).format != format) ==> color_space_of(
            offered,
            format,
        ) == offered[i].color_space,
        (forall|j: int| 0 <= j < offered.len() ==> (#[trigger] offered[j]).format != format)
            ==> color_space_of(offered, format) == vk::COLOR_SPACE_SRGB_NONLINEAR_KHR,
{
    let f = |j: int| offered[j].format == format;
    search::lemma_first_below(f, offered.len() as int);
    if 0 <= i < offered.len() && offered[i].format == format && (forall|j: int|
        0 <= j < i ==> (#[trigger] offered[j]).format != format) {
        assert forall|j: int| 0 <= j < i implies !#[trigger] f(j) by {
            assert(offered[j].format != format);
        }
        search::lemma_is_first(f, offered.len() as int, i);
    }
    if forall|j: int| 0 <= j < offered.len() ==> (#[trigger] offered[j]).format != format {
        assert forall|j: int| 0 <= j < offered.len() implies !#[trigger] f(j) by {
            assert(offered[j].format != format);
        }
        search::lemma_none_below(f, offered.len() as int);
    }
}

/// The presentation mode that is asked for is taken where the surface offers it. Otherwise
/// frames queue up.
pub proof fn present_mode_is_the_requested(modes: Seq<i32>)
    ensures
        chosen_present_mode(modes, PresentMode::Immediate) == vk::PRESENT_MODE_IMMEDIATE_KHR
            <==> modes.contains(vk::PRESENT_MODE_IMMEDIATE_KHR),
        chosen_present_mode(modes, PresentMode::Mailbox) == vk::PRESENT_MODE_MAILBOX_KHR
            <==> modes.contains(vk::PRESENT_MODE_MAILBOX_KHR),
        chosen_present_mode(modes, PresentMode::Fifo) == vk::PRESENT_MODE_FIFO_KHR,
        forall|m: PresentMode|
            #![trigger chosen_present_mode(modes, m)]
            modes.contains(chosen_present_mode(modes, m)) || chosen_present_mode(modes, m)
                == vk::PRESENT_MODE_FIFO_KHR,
        !modes.contains(vk::PRESENT_MODE_IMMEDIATE_KHR) ==> chosen_present_mode(
            modes,
            PresentMode::Immediate,
        ) == vk::PRESENT_MODE_FIFO_KHR,
        !modes.contains(vk::PRESENT_MODE_MAILBOX_KHR) ==> chosen_present_mode(
            modes,
            PresentMode::Mailbox,
        ) == vk::PRESENT_MODE_FIFO_KHR,
{
}

/// Distance between two sizes.
pub open spec fn apart(a: u32, b: u32) -> int {
    if a <= b {
        b - a
    } else {
        a - b
    }
}

/// The surface decides on the extent of its swapchain, unless it leaves it open. It is then the
/// wanted one where the surface allows that, and otherwise as near to it as any that it allows.
pub proof fn extent_is_nearest(caps: SurfaceCapabilities, width: u32, height: u32, other: vk::Extent2D)
    requires
        caps.valid(),
    ensures
        ({
            let e = swapchain_extent(caps, width, height);
            let least = caps.min_image_extent;
            let most = caps.max_image_extent;
            if caps.current_extent.width != u32::MAX {
                e == caps.current_extent
            } else {
                &&& least.width <= e.width <= most.width
                &&& least.height <= e.height <= most.height
                &&& least.width <= other.width <= most.width ==> apart(e.width, width) <= apart(
                    other.width,
                    width,
                )
                &&& least.height <= other.height <= most.height ==> apart(e.height, height)
                    <= apart(other.height, height)
            }
        }),
{
}

/// One image more than the surface needs is asked for, as long as it allows one more. Where it
/// does not, as many as it allows.
pub proof fn one_more_image_if_allowed(caps: SurfaceCapabilities)
    requires
        caps.valid(),
    ensures
        caps.max_image_count == 0 || caps.min_image_count < caps.max_image_count
            ==> swapchain_images(caps) == caps.min_image_count + 1,
        0 < caps.max_image_count <= caps.min_image_count ==> swapchain_images(caps)
            == caps.max_image_count,
{
}

/// A swapchain is created as the surface and the caller want it, unless a side of its extent is
/// zero.
pub proof fn swapchain_is_as_wanted(
    caps: SurfaceCapabilities,
    offered: Seq<SurfaceFormat>,
    surface: u64,
    format: i32,
    present_mode: i32,
    width: u32,
    height: u32,
    old_swapchain: u64,
)
    ensures
        ({
            let e = swapchain_extent(caps, width, height);
            match swapchain_plan(
                caps,
                offered,
                surface,
                format,
                present_mode,
                width,
                height,
                old_swapchain,
            ) {
                SwapchainPlan::Empty(extent) => extent == e && (e.width == 0 || e.height == 0),
                SwapchainPlan::Create(info) => {
                    &&& e.width > 0
                    &&& e.height > 0
                    &&& info.surface == surface
                    &&& info.min_image_count == swapchain_images(caps)
                    &&& info.image_format == format
                    &&& info.image_color_space == color_space_of(offered, format)
                    &&& info.image_extent == e
                    &&& info.pre_transform == caps.current_transform
                    &&& info.present_mode == present_mode
                    &&& info.old_swapchain == old_swapchain
                },
            }
        }),
{
}

/// Every image is seen whole, as a plain color image of the swapchain's format.
pub proof fn views_see_whole_images(image: u64, format: i32)
    ensures
        ({
            let w = swapchain_view(image, format);
            &&& w.image == image
            &&& w.format == format
            &&& w.view_type == vk::IMAGE_VIEW_TYPE_2D
            &&& w.subresource_range.aspect_mask == vk::IMAGE_ASPECT_COLOR
            &&& w.subresource_range.base_mip_level == 0
            &&& w.subresource_range.level_count == 1
            &&& w.subresource_range.base_array_layer == 0
            &&& w.subresource_range.layer_count == 1
        }),
{
}

/// Each platform has its window system; Linux has two, and needs window and display to agree.
/// The surface is of the window's own system, and only an XCB window needs a connection.
pub proof fn surface_is_of_the_window(
    platform: Platform,
    window: WindowSystem,
    display: WindowSystem,
    connected: bool,
)
    ensures
        surface_system(platform, window, display) is Some <==> ({
            ||| platform is Windows && window is Win32
            ||| platform is MacOs && window is AppKit
            ||| platform is Linux && window is Xcb && display is Xcb
            ||| platform is Linux && window is Wayland && display is Wayland
        }),
        surface_system(platform, window, display) is Some ==> surface_system(
            platform,
            window,
            display,
        ) == Some(window),
        surface_fault(platform, window, display, connected) is None <==> surface_system(
            platform,
            window,
            display,
        ) is Some && (window is Xcb ==> connected),
        surface_system(platform, window, display) is Some && window is Xcb && !connected
            ==> surface_fault(platform, window, display, connected) == Some(
            "XCB display handle has no connection"@,
        ),
        surface_system(platform, window, display) is None ==> surface_fault(
            platform,
            window,
            display,
            connected,
        ) == Some(
            if platform is Windows {
                "expected Win32 window handle on Windows"@
            } else if platform is Linux {
                "expected matching XCB or Wayland window/display handles on Linux"@
            } else if platform is MacOs {
                "expected AppKit window handle on macOS"@
            } else {
                "unsupported surface platform"@
            },
        ),
{
}

/// The sync objects of a frame go together.
pub proof fn lemma_sync_cleanup(s: SwapchainView, k: int, i: int)
    requires
        0 <= k,
    ensures
        sync_cleanup(s, k).len() == 3 * k,
        0 <= i < k ==> {
            let steps = sync_cleanup(s, k);
            &&& steps[3 * i] == Cleanup::DestroySemaphore(s.image_available[i])
            &&& steps[3 * i + 1] == Cleanup::DestroySemaphore(s.render_finished[i])
            &&& steps[3 * i + 2] == Cleanup::DestroyFence(s.in_flight[i])
        },
    decreases k,
{
    if k > 0 {
        lemma_sync_cleanup(s, k - 1, i);
    }
}

/// Destroying a swapchain destroys all that it holds and nothing else: first the views, then the
/// swapchain, the command buffers before their pool, the sync objects, and the surface last.
pub proof fn swapchain_goes_whole(s: SwapchainView, i: int, f: int)
    requires
        s.wf(),
        0 <= f < s.frames_in_flight,
    ensures
        ({
            let steps = swapchain_cleanup(s);
            let views = s.image_views.len() as int;
            let frames = s.frames_in_flight as int;
            &&& steps.len() == views + 4 * frames + 3
            &&& 0 <= i < views ==> steps[i] == Cleanup::DestroyImageView(s.image_views[i])
            &&& steps[views] == Cleanup::DestroySwapchain(s.swapchain)
            &&& steps[views + 1 + f] == (Cleanup::FreeCommandBuffer {
                pool: s.cmd_pool,
                cmd: s.cmd_buffers[f],
            })
            &&& steps[views + 1 + frames] == Cleanup::DestroyCommandPool(s.cmd_pool)
            &&& steps[views + 2 + frames + 3 * f] == Cleanup::DestroySemaphore(
                s.image_available[f],
            )
            &&& steps[views + 3 + frames + 3 * f] == Cleanup::DestroySemaphore(
                s.render_finished[f],
            )
            &&& steps[views + 4 + frames + 3 * f] == Cleanup::DestroyFence(s.in_flight[f])
            &&& steps.last() == Cleanup::DestroySurface(s.surface)
        }),
{
    lemma_sync_cleanup(s, s.frames_in_flight as int, f);
    let sync = sync_cleanup(s, s.frames_in_flight as int);
    let before = (old_swapchain_cleanup(s) + free_commands(
        s.cmd_pool,
        s.cmd_buffers,
        s.frames_in_flight as int,
    )).push(Cleanup::DestroyCommandPool(s.cmd_pool));
    let at = before.len() as int;
    assert(swapchain_cleanup(s)[at + 3 * f] == sync[3 * f]);
    assert(swapchain_cleanup(s)[at + 3 * f + 1] == sync[3 * f + 1]);
    assert(swapchain_cleanup(s)[at + 3 * f + 2] == sync[3 * f + 2]);
}

/// A rebuild destroys the old views and the old swapchain, in this order, and nothing else.
pub proof fn rebuild_retires_the_old(s: SwapchainView, i: int)
    ensures
        old_swapchain_cleanup(s).len() == s.image_views.len() + 1,
        0 <= i < s.image_views.len() ==> old_swapchain_cleanup(s)[i] == Cleanup::DestroyImageView(
            s.image_views[i],
        ),
        old_swapchain_cleanup(s).last() == Cleanup::DestroySwapchain(s.swapchain),
{
}

} // verus!
