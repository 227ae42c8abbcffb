//! Presentable surface: the images of a swapchain as render targets, and the command buffers of
//! the frames in flight.
//!
//! The caller goes through the stages of [`Swapchain`] and hands their outcome to
//! [`VulkanSurface::acquire`] and [`VulkanSurface::presented`].
use vstd::prelude::*;

use crate::command;
use crate::command::{Cleanup, Command, CommandOf, CommandView};
use crate::command_list;
use crate::device::base_layouts;
use crate::device::{DeviceView, TargetHandle, VulkanDevice, VulkanRenderTarget};
use crate::error::{GpuError, GpuErrorView};
use crate::hal::SurfaceConfig;
use crate::slot_map;
use crate::slot_map::{Handle, SlotStep, Slots};
use crate::swapchain;
use crate::swapchain::{
    BeginFrame, SurfaceCapabilities, SurfaceFormat, Swapchain, SwapchainPlan, SwapchainView,
};
use crate::vk;

verus! {

/// Frames in flight of a surface.
pub const FRAMES_IN_FLIGHT: usize = 2;

/// Swapchain image acquired for rendering, as a render target.
#[derive(Clone, Copy)]
pub struct VulkanFrame {
    state: BeginFrame,
    target: TargetHandle,
}

impl VulkanFrame {
    pub closed spec fn state_of(self) -> BeginFrame {
        self.state
    }

    pub closed spec fn target_of(self) -> TargetHandle {
        self.target
    }

    /// Handle for use as a color attachment.
    pub fn target(&self) -> (h: TargetHandle)
        ensures
            h == self.target_of(),
    {
        self.target
    }

    /// The frame of the swapchain.
    pub fn state(&self) -> (state: BeginFrame)
        ensures
            state == self.state_of(),
    {
        self.state
    }
}

/// Outcome of acquiring a frame.
#[derive(Clone, Copy)]
pub enum Acquire {
    /// There is nothing to render to now.
    Skip,
    Frame(VulkanFrame),
}

/// Presentable surface over a swapchain.
pub struct VulkanSurface {
    pub swapchain: Swapchain,
    /// One render target per swapchain image.
    targets: Vec<TargetHandle>,
    /// Command buffer submitted last for each frame in flight. It returns to the pool once the
    /// fence of its frame is known to be signaled.
    pending_cmd: Vec<Option<u64>>,
}

/// Contents of a [`VulkanSurface`].
#[verifier::ext_equal]
pub struct SurfaceView {
    pub swapchain: SwapchainView,
    pub targets: Seq<TargetHandle>,
    pub pending_cmd: Seq<Option<u64>>,
}

impl View for VulkanSurface {
    type V = SurfaceView;

    closed spec fn view(&self) -> SurfaceView {
        SurfaceView {
            swapchain: self.swapchain@,
            targets: self.targets@,
            pending_cmd: self.pending_cmd@,
        }
    }
}

impl SurfaceView {
    pub open spec fn wf(self) -> bool {
        &&& self.swapchain.wf()
        &&& self.pending_cmd.len() == self.swapchain.frames_in_flight
    }
}

// ── Targets ────────────────────────────────────────────────────────────────────

/// Number of images that have a view.
pub open spec fn viewed_images(s: SwapchainView) -> int {
    if s.images.len() <= s.image_views.len() {
        s.images.len() as int
    } else {
        s.image_views.len() as int
    }
}

/// Image `i` of a swapchain as a render target.
pub open spec fn image_target(s: SwapchainView, i: int) -> VulkanRenderTarget {
    VulkanRenderTarget {
        image: s.images[i],
        view: s.image_views[i],
        format: s.format,
        extent: s.extent,
        layout: vk::IMAGE_LAYOUT_UNDEFINED,
    }
}

/// Target table without the first `k` handles of a list.
pub open spec fn without_targets(
    m: Slots<VulkanRenderTarget>,
    list: Seq<TargetHandle>,
    k: int,
) -> Slots<VulkanRenderTarget>
    decreases k,
{
    if k <= 0 {
        m
    } else {
        let n = without_targets(m, list, k - 1);
        if n.live(list[k - 1]) {
            n.remove(list[k - 1].slot() as int)
        } else {
            n
        }
    }
}

/// Target table with the first `k` images of a swapchain.
pub open spec fn with_images(m: Slots<VulkanRenderTarget>, s: SwapchainView, k: int) -> Slots<
    VulkanRenderTarget,
>
    decreases k,
{
    if k <= 0 {
        m
    } else {
        with_images(m, s, k - 1).insert(image_target(s, k - 1))
    }
}

/// The target table with the images of the swapchain in place of `list`.
pub open spec fn rebuilt(m: Slots<VulkanRenderTarget>, list: Seq<TargetHandle>, s: SwapchainView) -> Slots<
    VulkanRenderTarget,
> {
    with_images(without_targets(m, list, list.len() as int), s, viewed_images(s))
}

/// `list` are the handles that the images of `s` got when they were entered in `m`.
pub open spec fn handles_of_images(
    m: Slots<VulkanRenderTarget>,
    s: SwapchainView,
    list: Seq<TargetHandle>,
) -> bool {
    forall|i: int|
        0 <= i < list.len() ==> (#[trigger] list[i]).slot() == with_images(m, s, i).next_index()
            && list[i].gen() == with_images(m, s, i).next_generation()
}

/// What rebuilding the targets does to a device and a surface.
pub open spec fn targets_rebuilt(
    v0: DeviceView,
    s0: SurfaceView,
    v: DeviceView,
    s: SurfaceView,
) -> bool {
    &&& v == (DeviceView {
        render_targets: rebuilt(v0.render_targets, s0.targets, s0.swapchain),
        ..v0
    })
    &&& s == (SurfaceView { targets: s.targets, ..s0 })
    &&& s.targets.len() == viewed_images(s0.swapchain)
    &&& handles_of_images(
        without_targets(v0.render_targets, s0.targets, s0.targets.len() as int),
        s0.swapchain,
        s.targets,
    )
}

proof fn lemma_without_targets(m: Slots<VulkanRenderTarget>, list: Seq<TargetHandle>, k: int)
    requires
        m.wf(),
        0 <= k <= list.len(),
    ensures
        without_targets(m, list, k).wf(),
        without_targets(m, list, k).room() >= m.room(),
    decreases k,
{
    if k > 0 {
        lemma_without_targets(m, list, k - 1);
        let n = without_targets(m, list, k - 1);
        let h = list[k - 1];
        if n.live(h) {
            slot_map::taken_out_is_expired(n, h);
            let r = n.remove(h.slot() as int);
            assert forall|j: int| 0 <= j < n.free.len() implies #[trigger] n.free[j] != h.slot() by {
                assert(n.entries[n.free[j] as int].state is Free);
            }
            assert forall|j: int| 0 <= j < r.free.len() implies (#[trigger] r.free[j])
                < r.entries.len() && r.entries[r.free[j] as int].state is Free by {
                if j < n.free.len() {
                    assert(r.free[j] == n.free[j]);
                }
            }
        }
    }
}

proof fn lemma_with_images(m: Slots<VulkanRenderTarget>, s: SwapchainView, k: int)
    requires
        m.wf(),
        0 <= k <= m.room(),
    ensures
        with_images(m, s, k).wf(),
        with_images(m, s, k).room() == m.room() - k,
    decreases k,
{
    if k > 0 {
        lemma_with_images(m, s, k - 1);
        slot_map::lemma_room(with_images(m, s, k - 1), image_target(s, k - 1));
    }
}

// ── Frames ─────────────────────────────────────────────────────────────────────

/// Transition of a target for presentation, unless it is ready for it.
pub open spec fn present_transition(rt: VulkanRenderTarget) -> Seq<CommandView> {
    if rt.layout == vk::IMAGE_LAYOUT_PRESENT_SRC_KHR {
        Seq::empty()
    } else {
        seq![
            CommandOf::ImageBarrier {
                src_stages: vk::PIPELINE_STAGE_COLOR_ATTACHMENT_OUTPUT,
                dst_stages: vk::PIPELINE_STAGE_BOTTOM_OF_PIPE,
                barrier: vk::ImageBarrier {
                    src_access_mask: vk::ACCESS_COLOR_ATTACHMENT_WRITE,
                    dst_access_mask: 0,
                    old_layout: rt.layout,
                    new_layout: vk::IMAGE_LAYOUT_PRESENT_SRC_KHR,
                    image: rt.image,
                    subresource_range: command_list::first_layer(vk::IMAGE_ASPECT_COLOR),
                },
            },
        ]
    }
}

/// Device after a target was made presentable. A dead handle is ignored.
pub open spec fn made_presentable(v: DeviceView, h: TargetHandle) -> DeviceView {
    if v.render_targets.live(h) {
        DeviceView {
            render_targets: v.render_targets.replace(
                h.slot() as int,
                command_list::in_layout(
                    v.render_targets.value(h),
                    vk::IMAGE_LAYOUT_PRESENT_SRC_KHR,
                ),
            ),
            base_layouts: base_layouts::noted(
                v.base_layouts,
                v.render_targets.value(h).image,
                0,
                vk::IMAGE_LAYOUT_PRESENT_SRC_KHR,
            ),
            ..v
        }
    } else {
        v
    }
}

/// Commands that make a target presentable.
pub open spec fn present_commands(v: DeviceView, h: TargetHandle) -> Seq<CommandView> {
    if v.render_targets.live(h) {
        present_transition(v.render_targets.value(h))
    } else {
        Seq::empty()
    }
}

/// Device after the command buffer that frame `current` used last is back in the pool.
pub open spec fn reclaimed(v: DeviceView, s: SurfaceView, current: int) -> DeviceView {
    match s.pending_cmd[current] {
        Some(cmd) => DeviceView { free_cmds: v.free_cmds.push(cmd), ..v },
        None => v,
    }
}

impl VulkanDevice {
    /// Makes a target ready for presentation, if it is not yet.
    pub fn transition_to_present(&mut self, target: TargetHandle) -> (commands: Vec<Command>)
        requires
            old(self)@.wf(),
        ensures
            final(self)@.wf(),
            final(self)@ == made_presentable(old(self)@, target),
            command::command_views(commands@) == present_commands(old(self)@, target),
    {
        let ghost v = self@;
        let mut commands: Vec<Command> = Vec::new();
        if let Some(rt) = self.target(target) {
            if rt.layout != vk::IMAGE_LAYOUT_PRESENT_SRC_KHR {
                commands.push(
                    CommandOf::ImageBarrier {
                        src_stages: vk::PIPELINE_STAGE_COLOR_ATTACHMENT_OUTPUT,
                        dst_stages: vk::PIPELINE_STAGE_BOTTOM_OF_PIPE,
                        barrier: vk::ImageBarrier {
                            src_access_mask: vk::ACCESS_COLOR_ATTACHMENT_WRITE,
                            dst_access_mask: 0,
                            old_layout: rt.layout,
                            new_layout: vk::IMAGE_LAYOUT_PRESENT_SRC_KHR,
                            image: rt.image,
                            subresource_range: vk::SubresourceRange {
                                aspect_mask: vk::IMAGE_ASPECT_COLOR,
                                base_mip_level: 0,
                                level_count: 1,
                                base_array_layer: 0,
                                layer_count: 1,
                            },
                        },
                    },
                );
            }
            self.set_target_layout(target, vk::IMAGE_LAYOUT_PRESENT_SRC_KHR);
        }
        assert(command::command_views(commands@) =~= present_commands(v, target));
        commands
    }
}

impl VulkanSurface {
    /// Surface over a swapchain; its images become render targets.
    pub fn new(dev: &mut VulkanDevice, swapchain: Swapchain) -> (s: Self)
        requires
            old(dev)@.wf(),
            swapchain@.wf(),
            swapchain@.frames_in_flight == FRAMES_IN_FLIGHT,
            old(dev)@.render_targets.room() >= swapchain@.images.len(),
        ensures
            final(dev)@.wf(),
            s@.wf(),
            targets_rebuilt(
                old(dev)@,
                (SurfaceView {
                    swapchain: swapchain@,
                    targets: Seq::empty(),
                    pending_cmd: seq![None, None],
                }),
                final(dev)@,
                s@,
            ),
    {
        let mut pending_cmd: Vec<Option<u64>> = Vec::new();
        pending_cmd.push(None);
        pending_cmd.push(None);
        let mut s = VulkanSurface { swapchain, targets: Vec::new(), pending_cmd };
        assert(s@ =~= SurfaceView {
            swapchain: swapchain@,
            targets: Seq::empty(),
            pending_cmd: seq![None, None],
        });
        s.rebuild_targets(dev);
        s
    }

    /// Drops the registered targets.
    fn drop_targets(&mut self, dev: &mut VulkanDevice)
        requires
            old(dev)@.wf(),
        ensures
            final(dev)@.wf(),
            final(dev)@ == (DeviceView {
                render_targets: without_targets(
                    old(dev)@.render_targets,
                    old(self)@.targets,
                    old(self)@.targets.len() as int,
                ),
                ..old(dev)@
            }),
            final(self)@ == (SurfaceView { targets: Seq::empty(), ..old(self)@ }),
    {
        let ghost v = dev@;
        let ghost list = self.targets@;
        let n: usize = self.targets.len();
        let mut i: usize = 0;
        while i < n
            invariant
                n == self.targets.len(),
                self.targets@ == list,
                i <= n,
                dev@.wf(),
                dev@ == (DeviceView {
                    render_targets: without_targets(v.render_targets, list, i as int),
                    ..v
                }),
            decreases n - i,
        {
            dev.unregister_render_target(self.targets[i]);
            i += 1;
            assert(dev@ =~= DeviceView {
                render_targets: without_targets(v.render_targets, list, i as int),
                ..v
            });
        }
        self.targets = Vec::new();
        assert(self@ =~= SurfaceView { targets: Seq::empty(), ..old(self)@ });
    }

    /// Registers the current images of the swapchain as render targets, in place of those
    /// registered before. Their layout is undefined.
    pub fn rebuild_targets(&mut self, dev: &mut VulkanDevice)
        requires
            old(dev)@.wf(),
            old(self)@.wf(),
            old(dev)@.render_targets.room() >= old(self)@.swapchain.images.len(),
        ensures
            final(dev)@.wf(),
            final(self)@.wf(),
            targets_rebuilt(old(dev)@, old(self)@, final(dev)@, final(self)@),
    {
        let ghost v = dev@;
        let ghost s = self@;
        let ghost m = without_targets(v.render_targets, s.targets, s.targets.len() as int);
        self.drop_targets(dev);
        let images = self.swapchain.images();
        let views = self.swapchain.image_views();
        let format: i32 = self.swapchain.raw_format();
        let (width, height) = self.swapchain.extent();
        let n: usize = if images.len() <= views.len() {
            images.len()
        } else {
            views.len()
        };
        proof {
            lemma_without_targets(v.render_targets, s.targets, s.targets.len() as int);
        }
        let mut i: usize = 0;
        while i < n
            invariant
                i <= n,
                n <= images.len(),
                n <= views.len(),
                images@ == s.swapchain.images,
                views@ == s.swapchain.image_views,
                format == s.swapchain.format,
                (vk::Extent2D { width, height }) == s.swapchain.extent,
                m.wf(),
                m.room() >= n,
                dev@.wf(),
                dev@ == (DeviceView {
                    render_targets: with_images(m, s.swapchain, i as int),
                    ..v
                }),
                self@ == (SurfaceView { targets: self@.targets, ..s }),
                self@.targets.len() == i,
                handles_of_images(m, s.swapchain, self@.targets),
            decreases n - i,
        {
            proof {
                lemma_with_images(m, s.swapchain, i as int);
                slot_map::lemma_room(dev@.render_targets, image_target(s.swapchain, i as int));
            }
            let ghost before = self@.targets;
            let h = dev.register_target(
                VulkanRenderTarget {
                    image: images[i],
                    view: views[i],
                    format,
                    extent: vk::Extent2D { width, height },
                    layout: vk::IMAGE_LAYOUT_UNDEFINED,
                },
            );
            self.targets.push(h);
            assert(self@.targets =~= before.push(h));
            i += 1;
            assert(dev@ =~= DeviceView {
                render_targets: with_images(m, s.swapchain, i as int),
                ..v
            });
            assert(self@ =~= SurfaceView { targets: self@.targets, ..s });
        }
    }

    /// Size of the surface.
    pub fn size(&self) -> (r: (u32, u32))
        ensures
            r == (self@.swapchain.extent.width, self@.swapchain.extent.height),
    {
        self.swapchain.extent()
    }

    /// Decides on a swapchain of the configured size. The presentation mode stays as it is.
    pub fn configure(
        &self,
        caps: &SurfaceCapabilities,
        formats: &Vec<SurfaceFormat>,
        config: SurfaceConfig,
    ) -> (plan: SwapchainPlan)
        requires
            caps.valid(),
        ensures
            plan == swapchain::swapchain_plan(
                *caps,
                formats@,
                self@.swapchain.surface,
                self@.swapchain.format,
                self@.swapchain.present_mode,
                config.width,
                config.height,
                self@.swapchain.swapchain,
            ),
    {
        self.resize(caps, formats, config.width, config.height)
    }

    /// Decides on a swapchain of another size. Once it is in place, the targets are rebuilt.
    pub fn resize(
        &self,
        caps: &SurfaceCapabilities,
        formats: &Vec<SurfaceFormat>,
        width: u32,
        height: u32,
    ) -> (plan: SwapchainPlan)
        requires
            caps.valid(),
        ensures
            plan == swapchain::swapchain_plan(
                *caps,
                formats@,
                self@.swapchain.surface,
                self@.swapchain.format,
                self@.swapchain.present_mode,
                width,
                height,
                self@.swapchain.swapchain,
            ),
    {
        self.swapchain.resize(caps, formats, width, height)
    }

    /// Acquires a frame, given the outcome of beginning one. The wait for its fence has shown
    /// that the submission before on the same frame in flight is complete, so that its command
    /// buffer can be reused. After a rebuild the targets are rebuilt and the frame is skipped.
    pub fn acquire(&mut self, dev: &mut VulkanDevice, frame: BeginFrame) -> (r: Acquire)
        requires
            old(dev)@.wf(),
            old(self)@.wf(),
            match frame {
                BeginFrame::Skip => true,
                BeginFrame::Recreated => old(dev)@.render_targets.room()
                    >= old(self)@.swapchain.images.len(),
                BeginFrame::Image { current, index } => current
                    < old(self)@.swapchain.frames_in_flight && index < old(self)@.targets.len(),
            },
        ensures
            final(dev)@.wf(),
            final(self)@.wf(),
            match frame {
                BeginFrame::Skip => r is Skip && final(dev)@ == old(dev)@ && final(self)@
                    == old(self)@,
                BeginFrame::Recreated => r is Skip && targets_rebuilt(
                    old(dev)@,
                    old(self)@,
                    final(dev)@,
                    final(self)@,
                ),
                BeginFrame::Image { current, index } => final(dev)@ == reclaimed(
                    old(dev)@,
                    old(self)@,
                    current as int,
                ) && final(self)@ == (SurfaceView {
                    pending_cmd: old(self)@.pending_cmd.update(current as int, None),
                    ..old(self)@
                }) && r is Frame && r->Frame_0.state_of() == frame && r->Frame_0.target_of()
                    == old(self)@.targets[index as int],
            },
    {
        match frame {
            BeginFrame::Skip => Acquire::Skip,
            BeginFrame::Recreated => {
                self.rebuild_targets(dev);
                Acquire::Skip
            },
            BeginFrame::Image { current, index } => {
                let ghost v = dev@;
                let ghost s = self@;
                if let Some(cmd) = self.pending_cmd[current] {
                    dev.release_cmd(cmd);
                }
                self.pending_cmd.set(current, None);
                assert(self@ =~= SurfaceView {
                    pending_cmd: s.pending_cmd.update(current as int, None),
                    ..s
                });
                Acquire::Frame(
                    VulkanFrame { state: frame, target: self.targets[index as usize] },
                )
            },
        }
    }

    /// Begins to present a frame: its target is made presentable by commands at the end of the
    /// recorded list.
    pub fn present(&self, dev: &mut VulkanDevice, frame: &VulkanFrame) -> (r: Result<
        Vec<Command>,
        GpuError,
    >)
        requires
            old(dev)@.wf(),
        ensures
            final(dev)@.wf(),
            match r {
                Ok(commands) => frame.state_of() is Image && final(dev)@ == made_presentable(
                    old(dev)@,
                    frame.target_of(),
                ) && command::command_views(commands@) == present_commands(
                    old(dev)@,
                    frame.target_of(),
                ),
                Err(e) => !(frame.state_of() is Image) && final(dev)@ == old(dev)@ && e@
                    == GpuErrorView::Backend(
                    "VulkanSurface::present called with a non-Image frame"@,
                ),
            },
    {
        match frame.state {
            BeginFrame::Image { current, index } => Ok(dev.transition_to_present(frame.target)),
            _ => Err(
                GpuError::Backend(
                    "VulkanSurface::present called with a non-Image frame".to_owned(),
                ),
            ),
        }
    }

    /// A frame has been presented with command buffer `cmd`, and the swapchain was rebuilt if
    /// `recreated`.
    pub fn presented(&mut self, dev: &mut VulkanDevice, current: usize, cmd: u64, recreated: bool)
        requires
            old(dev)@.wf(),
            old(self)@.wf(),
            current < old(self)@.swapchain.frames_in_flight,
            recreated ==> old(dev)@.render_targets.room() >= old(self)@.swapchain.images.len(),
        ensures
            final(dev)@.wf(),
            final(self)@.wf(),
            recreated ==> targets_rebuilt(
                old(dev)@,
                submitted(old(self)@, current as int, cmd),
                final(dev)@,
                final(self)@,
            ),
            !recreated ==> final(dev)@ == old(dev)@ && final(self)@ == submitted(
                old(self)@,
                current as int,
                cmd,
            ),
    {
        let ghost s = self@;
        self.pending_cmd.set(current, Some(cmd));
        assert(self@ =~= submitted(s, current as int, cmd));
        if recreated {
            self.rebuild_targets(dev);
        }
    }

    /// Drops the targets and destroys the swapchain.
    pub fn destroy(self, dev: &mut VulkanDevice) -> (steps: Vec<Cleanup>)
        requires
            old(dev)@.wf(),
            self@.wf(),
        ensures
            final(dev)@.wf(),
            final(dev)@ == (DeviceView {
                render_targets: without_targets(
                    old(dev)@.render_targets,
                    self@.targets,
                    self@.targets.len() as int,
                ),
                ..old(dev)@
            }),
            steps@ == swapchain::swapchain_cleanup(self@.swapchain),
    {
        let mut surface = self;
        surface.drop_targets(dev);
        surface.swapchain.destroy()
    }
}

/// Surface after frame `current` was submitted with command buffer `cmd`.
pub open spec fn submitted(s: SurfaceView, current: int, cmd: u64) -> SurfaceView {
    SurfaceView { pending_cmd: s.pending_cmd.update(current, Some(cmd)), ..s }
}

// ── Laws ───────────────────────────────────────────────────────────────────────

/// The command buffer of a presented frame returns to the pool when the same frame in flight is
/// acquired again, and not before: acquiring another frame leaves it pending.
pub proof fn command_buffer_comes_back(v: DeviceView, s: SurfaceView, current: int, other: int, cmd: u64)
    requires
        s.wf(),
        0 <= current < s.pending_cmd.len(),
        0 <= other < s.pending_cmd.len(),
        current != other,
    ensures
        reclaimed(v, submitted(s, current, cmd), current) == (DeviceView {
            free_cmds: v.free_cmds.push(cmd),
            ..v
        }),
        submitted(s, current, cmd).pending_cmd.update(other, None)[current] == Some(cmd),
{
}

/// After a rebuild, target `i` of the surface is a live render target for image `i`.
pub proof fn targets_follow_images(
    v0: DeviceView,
    s0: SurfaceView,
    v: DeviceView,
    s: SurfaceView,
    i: int,
)
    requires
        v0.wf(),
        v0.render_targets.room() >= s0.swapchain.images.len(),
        targets_rebuilt(v0, s0, v, s),
        0 <= i < s.targets.len(),
    ensures
        v.render_targets.live(s.targets[i]),
        v.render_targets.value(s.targets[i]) == image_target(s.swapchain, i),
{
    let m = without_targets(v0.render_targets, s0.targets, s0.targets.len() as int);
    lemma_without_targets(v0.render_targets, s0.targets, s0.targets.len() as int);
    lemma_with_images(m, s0.swapchain, i);
    slot_map::lemma_room(with_images(m, s0.swapchain, i), image_target(s0.swapchain, i));
    let h = s.targets[i];
    let t = with_images(m, s0.swapchain, i);
    assert(with_images(m, s0.swapchain, i + 1) == t.insert(image_target(s0.swapchain, i)));
    if t.free.len() > 0 {
        assert(t.free[t.free.len() - 1] == h.slot());
    }
    lemma_later_images(m, s0.swapchain, h, i + 1, viewed_images(s0.swapchain));
}

proof fn lemma_later_images(
    m: Slots<VulkanRenderTarget>,
    s: SwapchainView,
    h: TargetHandle,
    i: int,
    k: int,
)
    requires
        m.wf(),
        0 <= i <= k <= m.room(),
        with_images(m, s, i).live(h) || with_images(m, s, i).expired(h),
    ensures
        with_images(m, s, k).live(h) == with_images(m, s, i).live(h),
        with_images(m, s, k).live(h) || with_images(m, s, k).expired(h),
        with_images(m, s, i).live(h) ==> with_images(m, s, k).value(h) == with_images(m, s, i).value(
            h,
        ),
    decreases k,
{
    if i < k {
        lemma_later_images(m, s, h, i, k - 1);
        lemma_with_images(m, s, k - 1);
        let t = with_images(m, s, k - 1);
        slot_map::lemma_room(t, image_target(s, k - 1));
        slot_map::insert_is_fresh(t, image_target(s, k - 1), h);
        if t.expired(h) {
            slot_map::expired_for_ever(t, SlotStep::Insert(image_target(s, k - 1)), h);
        }
    } else if with_images(m, s, i).expired(h) {
        slot_map::expired_is_not_live(with_images(m, s, i), h);
    }
}

/// A target that a surface had before a rebuild is dead after it.
pub proof fn old_targets_are_dead(
    v0: DeviceView,
    s0: SurfaceView,
    v: DeviceView,
    s: SurfaceView,
    i: int,
)
    requires
        v0.wf(),
        v0.render_targets.room() >= s0.swapchain.images.len(),
        targets_rebuilt(v0, s0, v, s),
        0 <= i < s0.targets.len(),
        v0.render_targets.live(s0.targets[i]) || v0.render_targets.expired(s0.targets[i]),
    ensures
        !v.render_targets.live(s0.targets[i]),
{
    let n = s0.targets.len() as int;
    let m = without_targets(v0.render_targets, s0.targets, n);
    let h = s0.targets[i];
    lemma_without_targets(v0.render_targets, s0.targets, n);
    lemma_removed(v0.render_targets, s0.targets, i, n);
    slot_map::expired_is_not_live(m, h);
    lemma_later_images(m, s0.swapchain, h, 0, viewed_images(s0.swapchain));
}

proof fn lemma_removed(m: Slots<VulkanRenderTarget>, list: Seq<TargetHandle>, i: int, k: int)
    requires
        m.wf(),
        0 <= i < list.len(),
        0 <= k <= list.len(),
        m.live(list[i]) || m.expired(list[i]),
    ensures
        without_targets(m, list, k).live(list[i]) || without_targets(m, list, k).expired(list[i]),
        i < k ==> without_targets(m, list, k).expired(list[i]),
    decreases k,
{
    let h = list[i];
    if k > 0 {
        lemma_removed(m, list, i, k - 1);
        lemma_without_targets(m, list, k - 1);
        let n = without_targets(m, list, k - 1);
        let g = list[k - 1];
        if n.live(g) {
            slot_map::taken_out_is_expired(n, g);
            if n.expired(h) {
                slot_map::expired_for_ever(n, SlotStep::Remove(g.slot() as int), h);
            } else if g.slot() != h.slot() {
                slot_map::other_slots_are_kept(n, g.slot() as int, n.value(g), h);
            } else {
                Handle::lemma_parts(g, h);
            }
        }
    }
}

/// Every image with a view becomes a target: as many as there are of both.
pub proof fn images_with_views_count(s: SwapchainView)
    ensures
        viewed_images(s) <= s.images.len(),
        viewed_images(s) <= s.image_views.len(),
        viewed_images(s) == s.images.len() || viewed_images(s) == s.image_views.len(),
{
}

/// A target shows its own image through its own view, has the format and the extent of the
/// swapchain, and makes no claim on the layout of a new image.
pub proof fn target_shows_its_image(s: SwapchainView, i: int)
    requires
        0 <= i < viewed_images(s),
    ensures
        ({
            let rt = image_target(s, i);
            &&& rt.image == s.images[i]
            &&& rt.view == s.image_views[i]
            &&& rt.format == s.format
            &&& rt.extent.width == s.extent.width
            &&& rt.extent.height == s.extent.height
            &&& rt.layout == vk::IMAGE_LAYOUT_UNDEFINED
        }),
{
}

/// Presenting moves a live target from whatever layout it is in to the one for presentation,
/// after all color output, and records that it is there; the rest of the target and of the
/// device stays. A target that is there already needs no command, so a second call records
/// nothing.
pub proof fn presented_target_is_presentable(v: DeviceView, h: TargetHandle)
    requires
        v.wf(),
    ensures
        ({
            let n = made_presentable(v, h);
            let rt = v.render_targets.value(h);
            let now = n.render_targets.value(h);
            let commands = present_commands(v, h);
            &&& n == (DeviceView {
                render_targets: n.render_targets,
                base_layouts: n.base_layouts,
                ..v
            })
            &&& present_commands(n, h).len() == 0
            &&& !v.render_targets.live(h) ==> n == v && commands.len() == 0
            &&& v.render_targets.live(h) ==> {
                &&& n.render_targets.live(h)
                &&& now.layout == vk::IMAGE_LAYOUT_PRESENT_SRC_KHR
                &&& now.image == rt.image
                &&& now.view == rt.view
                &&& now.format == rt.format
                &&& now.extent == rt.extent
                &&& commands.len() == 0 <==> rt.layout == vk::IMAGE_LAYOUT_PRESENT_SRC_KHR
                &&& commands.len() > 0 ==> commands.len() == 1 && is_presenting(commands[0], rt)
            }
        }),
{
}

/// A command that waits for color output to an image and leaves it presentable.
pub open spec fn is_presenting(c: CommandView, rt: VulkanRenderTarget) -> bool {
    match c {
        CommandOf::ImageBarrier { src_stages, dst_stages, barrier } => {
            &&& src_stages == vk::PIPELINE_STAGE_COLOR_ATTACHMENT_OUTPUT
            &&& dst_stages == vk::PIPELINE_STAGE_BOTTOM_OF_PIPE
            &&& barrier.src_access_mask == vk::ACCESS_COLOR_ATTACHMENT_WRITE
            &&& barrier.dst_access_mask == 0
            &&& barrier.old_layout == rt.layout
            &&& barrier.new_layout == vk::IMAGE_LAYOUT_PRESENT_SRC_KHR
            &&& barrier.image == rt.image
            &&& barrier.subresource_range.aspect_mask == vk::IMAGE_ASPECT_COLOR
            &&& barrier.subresource_range.base_mip_level == 0
            &&& barrier.subresource_range.level_count == 1
            &&& barrier.subresource_range.base_array_layer == 0
            &&& barrier.subresource_range.layer_count == 1
        },
        _ => false,
    }
}

/// The layout noted for the base layer of a presented image is the one for presentation, where
/// it is noted at all; no other image and no other target is touched.
pub proof fn presenting_touches_one_target(
    v: DeviceView,
    h: TargetHandle,
    other: TargetHandle,
    image: u64,
    layer: int,
)
    requires
        v.wf(),
        v.render_targets.live(h),
    ensures
        ({
            let n = made_presentable(v, h);
            let shown = v.render_targets.value(h).image;
            &&& other.slot() != h.slot() ==> n.render_targets.live(other) == v.render_targets.live(
                other,
            )
            &&& other.slot() != h.slot() && v.render_targets.live(other)
                ==> n.render_targets.value(other) == v.render_targets.value(other)
            &&& v.base_layouts.contains_key(shown) && v.base_layouts[shown].len() > 0
                ==> base_layouts::layout_of(n.base_layouts, shown, 0)
                == vk::IMAGE_LAYOUT_PRESENT_SRC_KHR
            &&& image != shown || layer != 0 ==> base_layouts::layout_of(
                n.base_layouts,
                image,
                layer,
            ) == base_layouts::layout_of(v.base_layouts, image, layer)
        }),
{
}

} // verus!
