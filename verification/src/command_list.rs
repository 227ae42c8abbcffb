//! Recording of render passes and draws.
//!
//! Render passes use dynamic rendering, which makes no layout transitions of its own: the
//! command list tracks the layout of each render target and emits the barriers.
use vstd::prelude::*;

use crate::command;
use crate::command::{ClearValue, Command, CommandOf, CommandView};
use crate::device::base_layouts;
use crate::device::constants;
use crate::device::constants::{Bindings, BindingsView, ByteOrder};
use crate::device::{
    BufferHandle, DeviceView, PipelineHandle, TargetHandle, VulkanDevice, VulkanPipeline,
    VulkanRenderTarget,
};
use crate::slot_map::Slots;
use crate::vk;

verus! {

/// Maximum color attachments in a single render pass.
pub const MAX_COLOR_ATTACHMENTS: usize = 4;

/// What happens to the contents of an attachment when a pass begins.
#[derive(Clone, Copy, PartialEq, Eq, Structural, Debug)]
pub enum LoadOp {
    Clear(ClearValue),
    Load,
    DontCare,
}

/// Color attachment of a render pass.
#[derive(Clone, Copy)]
pub struct ColorAttachment {
    pub target: TargetHandle,
    pub load: LoadOp,
    pub store: bool,
    /// The image is made readable by shaders when the pass ends.
    pub sample_after: bool,
}

/// Depth attachment of a render pass.
#[derive(Clone, Copy)]
pub struct DepthAttachment {
    pub target: TargetHandle,
    pub load: LoadOp,
    pub store: bool,
}

/// Attachments of a render pass.
pub struct RenderPassDesc {
    pub color: Vec<ColorAttachment>,
    pub depth: Option<DepthAttachment>,
}

/// Attachment as it is handed to the driver.
#[derive(Clone, Copy, PartialEq, Eq, Structural, Debug)]
pub struct RenderingAttachment {
    pub image_view: u64,
    pub image_layout: i32,
    pub load_op: i32,
    pub store_op: i32,
    pub clear: ClearValue,
}

/// Render pass as it is handed to the driver, after the transitions. It covers the area from
/// the origin to `extent`, and one layer.
pub struct RenderPassPlan {
    pub transitions: Vec<Command>,
    pub extent: vk::Extent2D,
    pub color: Vec<RenderingAttachment>,
    pub depth: Option<RenderingAttachment>,
}

pub open spec fn no_clear() -> ClearValue {
    ClearValue { r: 0, g: 0, b: 0, a: 0 }
}

/// Load operation and clear value of a color attachment.
pub open spec fn vk_color_load(load: LoadOp) -> (i32, ClearValue) {
    match load {
        LoadOp::Clear(c) => (vk::ATTACHMENT_LOAD_OP_CLEAR, c),
        LoadOp::Load => (vk::ATTACHMENT_LOAD_OP_LOAD, no_clear()),
        LoadOp::DontCare => (vk::ATTACHMENT_LOAD_OP_DONT_CARE, no_clear()),
    }
}

/// Load operation and clear value of a depth attachment: the depth is the first component, and
/// the stencil is cleared to zero.
pub open spec fn vk_depth_load(load: LoadOp) -> (i32, ClearValue) {
    match load {
        LoadOp::Clear(c) => (
            vk::ATTACHMENT_LOAD_OP_CLEAR,
            ClearValue { r: c.r, g: 0, b: 0, a: 0 },
        ),
        LoadOp::Load => (vk::ATTACHMENT_LOAD_OP_LOAD, no_clear()),
        LoadOp::DontCare => (vk::ATTACHMENT_LOAD_OP_DONT_CARE, no_clear()),
    }
}

pub open spec fn vk_store(store: bool) -> i32 {
    if store {
        vk::ATTACHMENT_STORE_OP_STORE
    } else {
        vk::ATTACHMENT_STORE_OP_DONT_CARE
    }
}

/// First level and layer of an aspect.
pub open spec fn first_layer(aspect: u32) -> vk::SubresourceRange {
    vk::SubresourceRange {
        aspect_mask: aspect,
        base_mip_level: 0,
        level_count: 1,
        base_array_layer: 0,
        layer_count: 1,
    }
}

/// Transition of an image to a color attachment, unless it is one already.
pub open spec fn color_transition(image: u64, old: i32) -> Seq<CommandView> {
    if old == vk::IMAGE_LAYOUT_COLOR_ATTACHMENT_OPTIMAL {
        Seq::empty()
    } else {
        seq![
            CommandOf::ImageBarrier {
                src_stages: vk::PIPELINE_STAGE_TOP_OF_PIPE,
                dst_stages: vk::PIPELINE_STAGE_COLOR_ATTACHMENT_OUTPUT,
                barrier: vk::ImageBarrier {
                    src_access_mask: 0,
                    dst_access_mask: vk::ACCESS_COLOR_ATTACHMENT_WRITE,
                    old_layout: old,
                    new_layout: vk::IMAGE_LAYOUT_COLOR_ATTACHMENT_OPTIMAL,
                    image,
                    subresource_range: first_layer(vk::IMAGE_ASPECT_COLOR),
                },
            },
        ]
    }
}

/// Transition of an image to a depth attachment, unless it is one already.
pub open spec fn depth_transition(image: u64, old: i32) -> Seq<CommandView> {
    if old == vk::IMAGE_LAYOUT_DEPTH_ATTACHMENT_OPTIMAL {
        Seq::empty()
    } else {
        seq![
            CommandOf::ImageBarrier {
                src_stages: vk::PIPELINE_STAGE_TOP_OF_PIPE,
                dst_stages: vk::PIPELINE_STAGE_EARLY_FRAGMENT_TESTS,
                barrier: vk::ImageBarrier {
                    src_access_mask: 0,
                    dst_access_mask: vk::ACCESS_DEPTH_STENCIL_ATTACHMENT_WRITE,
                    old_layout: old,
                    new_layout: vk::IMAGE_LAYOUT_DEPTH_ATTACHMENT_OPTIMAL,
                    image,
                    subresource_range: first_layer(vk::IMAGE_ASPECT_DEPTH),
                },
            },
        ]
    }
}

/// Transition of a rendered image to one that fragment shaders read, unless it is one already.
pub open spec fn sample_transition(image: u64, old: i32) -> Seq<CommandView> {
    if old == vk::IMAGE_LAYOUT_SHADER_READ_ONLY_OPTIMAL {
        Seq::empty()
    } else {
        seq![
            CommandOf::ImageBarrier {
                src_stages: vk::PIPELINE_STAGE_COLOR_ATTACHMENT_OUTPUT,
                dst_stages: vk::PIPELINE_STAGE_FRAGMENT_SHADER,
                barrier: vk::ImageBarrier {
                    src_access_mask: vk::ACCESS_COLOR_ATTACHMENT_WRITE,
                    dst_access_mask: vk::ACCESS_SHADER_READ,
                    old_layout: old,
                    new_layout: vk::IMAGE_LAYOUT_SHADER_READ_ONLY_OPTIMAL,
                    image,
                    subresource_range: first_layer(vk::IMAGE_ASPECT_COLOR),
                },
            },
        ]
    }
}

/// Attachment that refers to no image, in place of a dead target.
pub open spec fn no_attachment() -> RenderingAttachment {
    RenderingAttachment {
        image_view: 0,
        image_layout: vk::IMAGE_LAYOUT_UNDEFINED,
        load_op: vk::ATTACHMENT_LOAD_OP_LOAD,
        store_op: vk::ATTACHMENT_STORE_OP_STORE,
        clear: no_clear(),
    }
}

pub open spec fn color_rendering(rt: VulkanRenderTarget, att: ColorAttachment) -> RenderingAttachment {
    RenderingAttachment {
        image_view: rt.view,
        image_layout: vk::IMAGE_LAYOUT_COLOR_ATTACHMENT_OPTIMAL,
        load_op: vk_color_load(att.load).0,
        store_op: vk_store(att.store),
        clear: vk_color_load(att.load).1,
    }
}

pub open spec fn depth_rendering(rt: VulkanRenderTarget, att: DepthAttachment) -> RenderingAttachment {
    RenderingAttachment {
        image_view: rt.view,
        image_layout: vk::IMAGE_LAYOUT_DEPTH_ATTACHMENT_OPTIMAL,
        load_op: vk_depth_load(att.load).0,
        store_op: vk_store(att.store),
        clear: vk_depth_load(att.load).1,
    }
}

/// Progress of beginning a render pass.
#[verifier::ext_equal]
pub struct PassState {
    pub targets: Slots<VulkanRenderTarget>,
    pub commands: Seq<CommandView>,
    pub color: Seq<RenderingAttachment>,
    pub extent: vk::Extent2D,
    pub sampled: Seq<TargetHandle>,
}

/// Start of a render pass.
pub open spec fn pass_start(targets: Slots<VulkanRenderTarget>) -> PassState {
    PassState {
        targets,
        commands: Seq::empty(),
        color: Seq::empty(),
        extent: vk::Extent2D { width: 0, height: 0 },
        sampled: Seq::empty(),
    }
}

/// Target with another layout.
pub open spec fn in_layout(rt: VulkanRenderTarget, layout: i32) -> VulkanRenderTarget {
    VulkanRenderTarget { layout, ..rt }
}

/// Adds a color attachment: its image is brought to its layout, and the pass takes its size.
pub open spec fn add_color(s: PassState, att: ColorAttachment) -> PassState {
    if s.targets.live(att.target) {
        let rt = s.targets.value(att.target);
        PassState {
            targets: s.targets.replace(
                att.target.slot() as int,
                in_layout(rt, vk::IMAGE_LAYOUT_COLOR_ATTACHMENT_OPTIMAL),
            ),
            commands: s.commands + color_transition(rt.image, rt.layout),
            color: s.color.push(color_rendering(rt, att)),
            extent: rt.extent,
            sampled: if att.sample_after {
                s.sampled.push(att.target)
            } else {
                s.sampled
            },
        }
    } else {
        PassState { color: s.color.push(no_attachment()), ..s }
    }
}

/// After the first `k` color attachments.
pub open spec fn pass_colors(
    targets: Slots<VulkanRenderTarget>,
    atts: Seq<ColorAttachment>,
    k: int,
) -> PassState
    decreases k,
{
    if k <= 0 {
        pass_start(targets)
    } else {
        add_color(pass_colors(targets, atts, k - 1), atts[k - 1])
    }
}

/// Number of color attachments that a pass uses.
pub open spec fn color_count(n: nat) -> int {
    if n <= MAX_COLOR_ATTACHMENTS {
        n as int
    } else {
        MAX_COLOR_ATTACHMENTS as int
    }
}

/// Depth attachment of a pass, if its target is live.
pub open spec fn pass_depth(s: PassState, depth: Option<DepthAttachment>) -> Option<
    RenderingAttachment,
> {
    match depth {
        Some(d) => if s.targets.live(d.target) {
            Some(depth_rendering(s.targets.value(d.target), d))
        } else {
            None
        },
        None => None,
    }
}

/// Adds the depth attachment: its image is brought to its layout, and the pass takes its size.
pub open spec fn add_depth(s: PassState, depth: Option<DepthAttachment>) -> PassState {
    match depth {
        Some(d) => if s.targets.live(d.target) {
            let rt = s.targets.value(d.target);
            PassState {
                targets: s.targets.replace(
                    d.target.slot() as int,
                    in_layout(rt, vk::IMAGE_LAYOUT_DEPTH_ATTACHMENT_OPTIMAL),
                ),
                commands: s.commands + depth_transition(rt.image, rt.layout),
                extent: rt.extent,
                ..s
            }
        } else {
            s
        },
        None => s,
    }
}

/// Layouts of base levels after the first `k` color attachments.
pub open spec fn colored_base(
    targets: Slots<VulkanRenderTarget>,
    base: Map<u64, Seq<i32>>,
    atts: Seq<ColorAttachment>,
    k: int,
) -> Map<u64, Seq<i32>>
    decreases k,
{
    if k <= 0 {
        base
    } else {
        let prev = colored_base(targets, base, atts, k - 1);
        let now = pass_colors(targets, atts, k - 1).targets;
        let h = atts[k - 1].target;
        if now.live(h) {
            base_layouts::noted(
                prev,
                now.value(h).image,
                0,
                vk::IMAGE_LAYOUT_COLOR_ATTACHMENT_OPTIMAL,
            )
        } else {
            prev
        }
    }
}

/// Layouts of base levels after the depth attachment.
pub open spec fn depth_base(
    targets: Slots<VulkanRenderTarget>,
    base: Map<u64, Seq<i32>>,
    depth: Option<DepthAttachment>,
) -> Map<u64, Seq<i32>> {
    match depth {
        Some(d) => if targets.live(d.target) {
            base_layouts::noted(
                base,
                targets.value(d.target).image,
                0,
                vk::IMAGE_LAYOUT_DEPTH_ATTACHMENT_OPTIMAL,
            )
        } else {
            base
        },
        None => base,
    }
}

/// Layouts of base levels when a pass begins.
pub open spec fn pass_base(
    targets: Slots<VulkanRenderTarget>,
    base: Map<u64, Seq<i32>>,
    atts: Seq<ColorAttachment>,
    k: int,
    depth: Option<DepthAttachment>,
) -> Map<u64, Seq<i32>> {
    depth_base(
        pass_colors(targets, atts, k).targets,
        colored_base(targets, base, atts, k),
        depth,
    )
}

/// Layouts of base levels after the first `k` of `sampled` were made readable by shaders.
pub open spec fn sampled_base(
    targets: Slots<VulkanRenderTarget>,
    base: Map<u64, Seq<i32>>,
    sampled: Seq<TargetHandle>,
    k: int,
) -> Map<u64, Seq<i32>>
    decreases k,
{
    if k <= 0 {
        base
    } else {
        let prev = sampled_base(targets, base, sampled, k - 1);
        let now = sampled_after(targets, sampled, k - 1).0;
        let h = sampled[k - 1];
        if now.live(h) {
            base_layouts::noted(
                prev,
                now.value(h).image,
                0,
                vk::IMAGE_LAYOUT_SHADER_READ_ONLY_OPTIMAL,
            )
        } else {
            prev
        }
    }
}

/// Targets and commands after the first `k` of `sampled` were made readable by shaders.
pub open spec fn sampled_after(
    targets: Slots<VulkanRenderTarget>,
    sampled: Seq<TargetHandle>,
    k: int,
) -> (Slots<VulkanRenderTarget>, Seq<CommandView>)
    decreases k,
{
    if k <= 0 {
        (targets, Seq::empty())
    } else {
        let (prev, commands) = sampled_after(targets, sampled, k - 1);
        let h = sampled[k - 1];
        if prev.live(h) {
            let rt = prev.value(h);
            (
                prev.replace(
                    h.slot() as int,
                    in_layout(rt, vk::IMAGE_LAYOUT_SHADER_READ_ONLY_OPTIMAL),
                ),
                commands + sample_transition(rt.image, rt.layout),
            )
        } else {
            (prev, commands)
        }
    }
}

fn color_load_op(load: LoadOp) -> (r: (i32, ClearValue))
    ensures
        r == vk_color_load(load),
{
    match load {
        LoadOp::Clear(c) => (vk::ATTACHMENT_LOAD_OP_CLEAR, c),
        LoadOp::Load => (vk::ATTACHMENT_LOAD_OP_LOAD, ClearValue { r: 0, g: 0, b: 0, a: 0 }),
        LoadOp::DontCare => (
            vk::ATTACHMENT_LOAD_OP_DONT_CARE,
            ClearValue { r: 0, g: 0, b: 0, a: 0 },
        ),
    }
}

fn depth_load_op(load: LoadOp) -> (r: (i32, ClearValue))
    ensures
        r == vk_depth_load(load),
{
    match load {
        LoadOp::Clear(c) => (
            vk::ATTACHMENT_LOAD_OP_CLEAR,
            ClearValue { r: c.r, g: 0, b: 0, a: 0 },
        ),
        LoadOp::Load => (vk::ATTACHMENT_LOAD_OP_LOAD, ClearValue { r: 0, g: 0, b: 0, a: 0 }),
        LoadOp::DontCare => (
            vk::ATTACHMENT_LOAD_OP_DONT_CARE,
            ClearValue { r: 0, g: 0, b: 0, a: 0 },
        ),
    }
}

fn store_op(store: bool) -> (r: i32)
    ensures
        r == vk_store(store),
{
    if store {
        vk::ATTACHMENT_STORE_OP_STORE
    } else {
        vk::ATTACHMENT_STORE_OP_DONT_CARE
    }
}

fn layer_of(aspect: u32) -> (r: vk::SubresourceRange)
    ensures
        r == first_layer(aspect),
{
    vk::SubresourceRange {
        aspect_mask: aspect,
        base_mip_level: 0,
        level_count: 1,
        base_array_layer: 0,
        layer_count: 1,
    }
}

fn transition_color(out: &mut Vec<Command>, image: u64, old_layout: i32)
    ensures
        command::command_views(final(out)@) == command::command_views(old(out)@)
            + color_transition(image, old_layout),
{
    if old_layout != vk::IMAGE_LAYOUT_COLOR_ATTACHMENT_OPTIMAL {
        out.push(
            CommandOf::ImageBarrier {
                src_stages: vk::PIPELINE_STAGE_TOP_OF_PIPE,
                dst_stages: vk::PIPELINE_STAGE_COLOR_ATTACHMENT_OUTPUT,
                barrier: vk::ImageBarrier {
                    src_access_mask: 0,
                    dst_access_mask: vk::ACCESS_COLOR_ATTACHMENT_WRITE,
                    old_layout,
                    new_layout: vk::IMAGE_LAYOUT_COLOR_ATTACHMENT_OPTIMAL,
                    image,
                    subresource_range: layer_of(vk::IMAGE_ASPECT_COLOR),
                },
            },
        );
    }
    assert(command::command_views(out@) =~= command::command_views(old(out)@) + color_transition(
        image,
        old_layout,
    ));
}

fn transition_depth(out: &mut Vec<Command>, image: u64, old_layout: i32)
    ensures
        command::command_views(final(out)@) == command::command_views(old(out)@)
            + depth_transition(image, old_layout),
{
    if old_layout != vk::IMAGE_LAYOUT_DEPTH_ATTACHMENT_OPTIMAL {
        out.push(
            CommandOf::ImageBarrier {
                src_stages: vk::PIPELINE_STAGE_TOP_OF_PIPE,
                dst_stages: vk::PIPELINE_STAGE_EARLY_FRAGMENT_TESTS,
                barrier: vk::ImageBarrier {
                    src_access_mask: 0,
                    dst_access_mask: vk::ACCESS_DEPTH_STENCIL_ATTACHMENT_WRITE,
                    old_layout,
                    new_layout: vk::IMAGE_LAYOUT_DEPTH_ATTACHMENT_OPTIMAL,
                    image,
                    subresource_range: layer_of(vk::IMAGE_ASPECT_DEPTH),
                },
            },
        );
    }
    assert(command::command_views(out@) =~= command::command_views(old(out)@) + depth_transition(
        image,
        old_layout,
    ));
}

fn transition_sampled(out: &mut Vec<Command>, image: u64, old_layout: i32)
    ensures
        command::command_views(final(out)@) == command::command_views(old(out)@)
            + sample_transition(image, old_layout),
{
    if old_layout != vk::IMAGE_LAYOUT_SHADER_READ_ONLY_OPTIMAL {
        out.push(
            CommandOf::ImageBarrier {
                src_stages: vk::PIPELINE_STAGE_COLOR_ATTACHMENT_OUTPUT,
                dst_stages: vk::PIPELINE_STAGE_FRAGMENT_SHADER,
                barrier: vk::ImageBarrier {
                    src_access_mask: vk::ACCESS_COLOR_ATTACHMENT_WRITE,
                    dst_access_mask: vk::ACCESS_SHADER_READ,
                    old_layout,
                    new_layout: vk::IMAGE_LAYOUT_SHADER_READ_ONLY_OPTIMAL,
                    image,
                    subresource_range: layer_of(vk::IMAGE_ASPECT_COLOR),
                },
            },
        );
    }
    assert(command::command_views(out@) =~= command::command_views(old(out)@) + sample_transition(
        image,
        old_layout,
    ));
}

/// Recorder of a command buffer. It names the buffer, the bindless descriptor set, the layout
/// of the graphics pipeline that is bound, and the targets to make readable when the render
/// pass ends.
pub struct VulkanCommandList {
    cmd: u64,
    bindless_set: u64,
    current_layout: Option<u64>,
    sampled: Vec<TargetHandle>,
}

/// Contents of a [`VulkanCommandList`].
pub struct CommandListView {
    pub cmd: u64,
    pub bindless_set: u64,
    pub current_layout: Option<u64>,
    pub sampled: Seq<TargetHandle>,
}

impl View for VulkanCommandList {
    type V = CommandListView;

    closed spec fn view(&self) -> CommandListView {
        CommandListView {
            cmd: self.cmd,
            bindless_set: self.bindless_set,
            current_layout: self.current_layout,
            sampled: self.sampled@,
        }
    }
}

impl VulkanCommandList {
    /// Command list around a command buffer that has been begun.
    pub fn new(dev: &VulkanDevice, cmd: u64) -> (list: Self)
        ensures
            list@.cmd == cmd,
            list@.bindless_set == dev@.bindless.set,
            list@.current_layout is None,
            list@.sampled.len() == 0,
    {
        VulkanCommandList {
            cmd,
            bindless_set: dev.bindless_set(),
            current_layout: None,
            sampled: Vec::new(),
        }
    }

    /// The command buffer.
    pub fn raw(&self) -> (cmd: u64)
        ensures
            cmd == self@.cmd,
    {
        self.cmd
    }

    /// Begins a render pass. Attachments past the maximum are ignored; a dead color target
    /// leaves its place empty, and a dead depth target leaves the pass without depth.
    pub fn begin_render_pass(&mut self, dev: &mut VulkanDevice, desc: &RenderPassDesc) -> (plan:
        RenderPassPlan)
        requires
            old(dev)@.wf(),
        ensures
            final(dev)@.wf(),
            ({
                let colors = pass_colors(
                    old(dev)@.render_targets,
                    desc.color@,
                    color_count(desc.color@.len()),
                );
                let all = add_depth(colors, desc.depth);
                &&& command::command_views(plan.transitions@) == all.commands
                &&& plan.extent == all.extent
                &&& plan.color@ == all.color
                &&& plan.depth == pass_depth(colors, desc.depth)
                &&& final(self)@.sampled == all.sampled
                &&& final(dev)@ == (DeviceView {
                    render_targets: all.targets,
                    base_layouts: pass_base(
                        old(dev)@.render_targets,
                        old(dev)@.base_layouts,
                        desc.color@,
                        color_count(desc.color@.len()),
                        desc.depth,
                    ),
                    ..old(dev)@
                })
            }),
            final(self)@.cmd == old(self)@.cmd,
            final(self)@.bindless_set == old(self)@.bindless_set,
            final(self)@.current_layout == old(self)@.current_layout,
    {
        let ghost v = dev@;
        let mut transitions: Vec<Command> = Vec::new();
        let mut color: Vec<RenderingAttachment> = Vec::new();
        let mut sampled: Vec<TargetHandle> = Vec::new();
        let mut extent = vk::Extent2D { width: 0, height: 0 };
        let count: usize = if desc.color.len() <= MAX_COLOR_ATTACHMENTS {
            desc.color.len()
        } else {
            MAX_COLOR_ATTACHMENTS
        };
        let mut i: usize = 0;
        proof {
            assert(command::command_views(transitions@) =~= Seq::<CommandView>::empty());
            assert(dev@ =~= DeviceView {
                render_targets: pass_colors(v.render_targets, desc.color@, 0).targets,
                ..v
            });
        }
        while i < count
            invariant
                count == color_count(desc.color@.len()),
                count <= desc.color@.len(),
                i <= count,
                v.wf(),
                dev@.wf(),
                dev@ == (DeviceView {
                    render_targets: pass_colors(
                        v.render_targets,
                        desc.color@,
                        i as int,
                    ).targets,
                    base_layouts: colored_base(
                        v.render_targets,
                        v.base_layouts,
                        desc.color@,
                        i as int,
                    ),
                    ..v
                }),
                ({
                    let s = pass_colors(v.render_targets, desc.color@, i as int);
                    &&& command::command_views(transitions@) == s.commands
                    &&& color@ == s.color
                    &&& extent == s.extent
                    &&& sampled@ == s.sampled
                }),
            decreases count - i,
        {
            let att = desc.color[i];
            match dev.target(att.target) {
                Some(rt) => {
                    transition_color(&mut transitions, rt.image, rt.layout);
                    dev.set_target_layout(
                        att.target,
                        vk::IMAGE_LAYOUT_COLOR_ATTACHMENT_OPTIMAL,
                    );
                    let (load_op, clear) = color_load_op(att.load);
                    color.push(
                        RenderingAttachment {
                            image_view: rt.view,
                            image_layout: vk::IMAGE_LAYOUT_COLOR_ATTACHMENT_OPTIMAL,
                            load_op,
                            store_op: store_op(att.store),
                            clear,
                        },
                    );
                    extent = rt.extent;
                    if att.sample_after {
                        sampled.push(att.target);
                    }
                },
                None => {
                    color.push(
                        RenderingAttachment {
                            image_view: 0,
                            image_layout: vk::IMAGE_LAYOUT_UNDEFINED,
                            load_op: vk::ATTACHMENT_LOAD_OP_LOAD,
                            store_op: vk::ATTACHMENT_STORE_OP_STORE,
                            clear: ClearValue { r: 0, g: 0, b: 0, a: 0 },
                        },
                    );
                },
            }
            i += 1;
        }
        let mut depth: Option<RenderingAttachment> = None;
        if let Some(att) = desc.depth {
            if let Some(rt) = dev.target(att.target) {
                transition_depth(&mut transitions, rt.image, rt.layout);
                dev.set_target_layout(att.target, vk::IMAGE_LAYOUT_DEPTH_ATTACHMENT_OPTIMAL);
                let (load_op, clear) = depth_load_op(att.load);
                depth =
                Some(
                    RenderingAttachment {
                        image_view: rt.view,
                        image_layout: vk::IMAGE_LAYOUT_DEPTH_ATTACHMENT_OPTIMAL,
                        load_op,
                        store_op: store_op(att.store),
                        clear,
                    },
                );
                extent = rt.extent;
            }
        }
        self.sampled = sampled;
        RenderPassPlan { transitions, extent, color, depth }
    }

    /// Binds a graphics pipeline and the bindless descriptor set. A dead handle, or a compute
    /// pipeline, leaves the current binding unchanged.
    pub fn set_pipeline(&mut self, dev: &VulkanDevice, pipeline: PipelineHandle) -> (commands: Vec<
        Command,
    >)
        ensures
            ({
                let usable = dev@.pipelines.live(pipeline) && dev@.pipelines.value(
                    pipeline,
                ) is Graphics;
                let (p, l) = dev@.pipelines.value(pipeline).parts();
                &&& command::command_views(commands@) == (if usable {
                    seq![
                        CommandOf::BindPipeline {
                            bind_point: vk::PIPELINE_BIND_POINT_GRAPHICS,
                            pipeline: p,
                        },
                        CommandOf::BindDescriptorSet {
                            bind_point: vk::PIPELINE_BIND_POINT_GRAPHICS,
                            layout: l,
                            set: old(self)@.bindless_set,
                        },
                    ]
                } else {
                    Seq::<CommandView>::empty()
                })
                &&& final(self)@ == (CommandListView {
                    current_layout: if usable {
                        Some(l)
                    } else {
                        old(self)@.current_layout
                    },
                    ..old(self)@
                })
            }),
            command::command_views(commands@) == bound_by(
                dev@,
                pipeline,
                old(self)@.bindless_set,
            ),
            final(self)@.current_layout == layout_after(dev@, pipeline, old(self)@.current_layout),
    {
        let mut out: Vec<Command> = Vec::new();
        let ghost usable = dev@.pipelines.live(pipeline) && dev@.pipelines.value(
            pipeline,
        ) is Graphics;
        if let Some(VulkanPipeline::Graphics { layout, pipeline: vk_pipeline }) = dev.pipeline(
            pipeline,
        ) {
            out.push(
                CommandOf::BindPipeline {
                    bind_point: vk::PIPELINE_BIND_POINT_GRAPHICS,
                    pipeline: vk_pipeline,
                },
            );
            out.push(
                CommandOf::BindDescriptorSet {
                    bind_point: vk::PIPELINE_BIND_POINT_GRAPHICS,
                    layout,
                    set: self.bindless_set,
                },
            );
            self.current_layout = Some(layout);
            assert(command::command_views(out@) =~= seq![
                CommandOf::BindPipeline {
                    bind_point: vk::PIPELINE_BIND_POINT_GRAPHICS,
                    pipeline: vk_pipeline,
                },
                CommandOf::BindDescriptorSet {
                    bind_point: vk::PIPELINE_BIND_POINT_GRAPHICS,
                    layout,
                    set: old(self)@.bindless_set,
                },
            ]);
        } else {
            assert(command::command_views(out@) =~= Seq::<CommandView>::empty());
        }
        out
    }

    /// Pushes the constants of a draw: buffer indices, texture indices and scalars, as far as
    /// they fit. `None` without a pipeline or without constants.
    pub fn bind(&self, bindings: &Bindings, order: ByteOrder) -> (r: Option<Command>)
        ensures
            ({
                let words = constants::fitting_words(constants::graphics_words(bindings@));
                match r {
                    Some(c) => self@.current_layout is Some && words.len() > 0 && c@
                        == (CommandOf::PushConstants {
                        layout: self@.current_layout->Some_0,
                        stages: vk::SHADER_STAGE_VERTEX | vk::SHADER_STAGE_FRAGMENT,
                        bytes: constants::words_bytes(order, words),
                    }),
                    None => self@.current_layout is None || words.len() == 0,
                }
            }),
            (match r {
                Some(c) => Some(c@),
                None => None,
            }) == pushed_by(self@.current_layout, bindings@, order),
    {
        match self.current_layout {
            None => None,
            Some(layout) => {
                let bytes = constants::pack_graphics_constants(bindings, order);
                proof {
                    constants::words_bytes_len(
                        order,
                        constants::fitting_words(constants::graphics_words(bindings@)),
                    );
                }
                if bytes.len() == 0 {
                    None
                } else {
                    Some(
                        CommandOf::PushConstants {
                            layout,
                            stages: vk::SHADER_STAGE_VERTEX | vk::SHADER_STAGE_FRAGMENT,
                            bytes,
                        },
                    )
                }
            },
        }
    }

    /// Binds a vertex buffer. A dead handle is ignored.
    pub fn set_vertex_buffer(&self, dev: &VulkanDevice, slot: u32, buffer: BufferHandle) -> (r:
        Option<Command>)
        ensures
            match r {
                Some(c) => dev@.buffers.live(buffer) && c@ == (CommandView::BindVertexBuffer {
                    slot,
                    buffer: dev@.buffers.value(buffer).buffer,
                }),
                None => !dev@.buffers.live(buffer),
            },
            (match r {
                Some(c) => Some(c@),
                None => None,
            }) == vertices_of(dev@, slot, buffer),
    {
        match dev.buffer(buffer) {
            Some(b) => Some(CommandOf::BindVertexBuffer { slot, buffer: b.buffer }),
            None => None,
        }
    }

    /// Binds an index buffer of 32-bit indices. A dead handle is ignored.
    pub fn set_index_buffer(&self, dev: &VulkanDevice, buffer: BufferHandle) -> (r: Option<Command>)
        ensures
            match r {
                Some(c) => dev@.buffers.live(buffer) && c@ == (CommandView::BindIndexBuffer {
                    buffer: dev@.buffers.value(buffer).buffer,
                    index_type: vk::INDEX_TYPE_UINT32,
                }),
                None => !dev@.buffers.live(buffer),
            },
            (match r {
                Some(c) => Some(c@),
                None => None,
            }) == indices_of(dev@, buffer),
    {
        match dev.buffer(buffer) {
            Some(b) => Some(
                CommandOf::BindIndexBuffer {
                    buffer: b.buffer,
                    index_type: vk::INDEX_TYPE_UINT32,
                },
            ),
            None => None,
        }
    }

    /// Draws the vertices and instances of two ranges, each from its start to before its end.
    pub fn draw(
        &self,
        vertex_start: u32,
        vertex_end: u32,
        instance_start: u32,
        instance_end: u32,
    ) -> (c: Command)
        requires
            vertex_start <= vertex_end,
            instance_start <= instance_end,
        ensures
            c@ == (CommandView::Draw {
                vertex_count: (vertex_end - vertex_start) as u32,
                instance_count: (instance_end - instance_start) as u32,
                first_vertex: vertex_start,
                first_instance: instance_start,
            }),
            c@ == draw_of(vertex_start, vertex_end, instance_start, instance_end),
    {
        CommandOf::Draw {
            vertex_count: vertex_end - vertex_start,
            instance_count: instance_end - instance_start,
            first_vertex: vertex_start,
            first_instance: instance_start,
        }
    }

    /// Draws the indices and instances of two ranges, each from its start to before its end.
    pub fn draw_indexed(
        &self,
        index_start: u32,
        index_end: u32,
        instance_start: u32,
        instance_end: u32,
    ) -> (c: Command)
        requires
            index_start <= index_end,
            instance_start <= instance_end,
        ensures
            c@ == (CommandView::DrawIndexed {
                index_count: (index_end - index_start) as u32,
                instance_count: (instance_end - instance_start) as u32,
                first_index: index_start,
                first_instance: instance_start,
            }),
            c@ == indexed_draw_of(index_start, index_end, instance_start, instance_end),
    {
        CommandOf::DrawIndexed {
            index_count: index_end - index_start,
            instance_count: instance_end - instance_start,
            first_index: index_start,
            first_instance: instance_start,
        }
    }

    /// Ends the render pass and makes the attachments that asked for it readable by shaders.
    pub fn end_render_pass(&mut self, dev: &mut VulkanDevice) -> (commands: Vec<Command>)
        requires
            old(dev)@.wf(),
        ensures
            final(dev)@.wf(),
            ({
                let (targets, barriers) = sampled_after(
                    old(dev)@.render_targets,
                    old(self)@.sampled,
                    old(self)@.sampled.len() as int,
                );
                &&& command::command_views(commands@) == seq![
                    CommandOf::EndRendering,
                ] + barriers
                &&& final(dev)@ == (DeviceView {
                    render_targets: targets,
                    base_layouts: sampled_base(
                        old(dev)@.render_targets,
                        old(dev)@.base_layouts,
                        old(self)@.sampled,
                        old(self)@.sampled.len() as int,
                    ),
                    ..old(dev)@
                })
            }),
            final(self)@ == (CommandListView { sampled: Seq::empty(), ..old(self)@ }),
    {
        let ghost v = dev@;
        let ghost list = self.sampled@;
        let mut out: Vec<Command> = Vec::new();
        out.push(CommandOf::EndRendering);
        let n: usize = self.sampled.len();
        let mut i: usize = 0;
        proof {
            assert(command::command_views(out@) =~= seq![CommandOf::EndRendering] + sampled_after(
                v.render_targets,
                list,
                0,
            ).1);
            assert(dev@ =~= DeviceView {
                render_targets: sampled_after(v.render_targets, list, 0).0,
                ..v
            });
        }
        while i < n
            invariant
                n == self.sampled@.len(),
                list == self.sampled@,
                self@ == old(self)@,
                i <= n,
                v.wf(),
                dev@.wf(),
                dev@ == (DeviceView {
                    render_targets: sampled_after(v.render_targets, list, i as int).0,
                    base_layouts: sampled_base(
                        v.render_targets,
                        v.base_layouts,
                        list,
                        i as int,
                    ),
                    ..v
                }),
                command::command_views(out@) == seq![CommandOf::EndRendering] + sampled_after(
                    v.render_targets,
                    list,
                    i as int,
                ).1,
            decreases n - i,
        {
            let h = self.sampled[i];
            if let Some(rt) = dev.target(h) {
                transition_sampled(&mut out, rt.image, rt.layout);
                dev.set_target_layout(h, vk::IMAGE_LAYOUT_SHADER_READ_ONLY_OPTIMAL);
            }
            i += 1;
            assert(command::command_views(out@) =~= seq![CommandOf::EndRendering] + sampled_after(
                v.render_targets,
                list,
                i as int,
            ).1);
        }
        self.sampled = Vec::new();
        assert(self@.sampled =~= Seq::empty());
        out
    }
}

// ── Commands ───────────────────────────────────────────────────────────────────

/// Commands that bind a graphics pipeline and the bindless descriptor set.
pub open spec fn bound_by(v: DeviceView, h: PipelineHandle, set: u64) -> Seq<CommandView> {
    if v.pipelines.live(h) && v.pipelines.value(h) is Graphics {
        let (pipeline, layout) = v.pipelines.value(h).parts();
        seq![
            CommandOf::BindPipeline { bind_point: vk::PIPELINE_BIND_POINT_GRAPHICS, pipeline },
            CommandOf::BindDescriptorSet {
                bind_point: vk::PIPELINE_BIND_POINT_GRAPHICS,
                layout,
                set,
            },
        ]
    } else {
        Seq::empty()
    }
}

/// Pipeline layout that is current after a pipeline was bound.
pub open spec fn layout_after(v: DeviceView, h: PipelineHandle, before: Option<u64>) -> Option<u64> {
    if v.pipelines.live(h) && v.pipelines.value(h) is Graphics {
        Some(v.pipelines.value(h).parts().1)
    } else {
        before
    }
}

/// Command that pushes the constants of a draw, if there is a pipeline and anything to push.
pub open spec fn pushed_by(layout: Option<u64>, bindings: BindingsView, order: ByteOrder) -> Option<
    CommandView,
> {
    let words = constants::fitting_words(constants::graphics_words(bindings));
    if layout is None || words.len() == 0 {
        None
    } else {
        Some(
            CommandOf::PushConstants {
                layout: layout->0,
                stages: vk::SHADER_STAGE_VERTEX | vk::SHADER_STAGE_FRAGMENT,
                bytes: constants::words_bytes(order, words),
            },
        )
    }
}

/// Command that binds a live vertex buffer.
pub open spec fn vertices_of(v: DeviceView, slot: u32, h: BufferHandle) -> Option<CommandView> {
    if v.buffers.live(h) {
        Some(CommandOf::BindVertexBuffer { slot, buffer: v.buffers.value(h).buffer })
    } else {
        None
    }
}

/// Command that binds a live index buffer.
pub open spec fn indices_of(v: DeviceView, h: BufferHandle) -> Option<CommandView> {
    if v.buffers.live(h) {
        Some(
            CommandOf::BindIndexBuffer {
                buffer: v.buffers.value(h).buffer,
                index_type: vk::INDEX_TYPE_UINT32,
            },
        )
    } else {
        None
    }
}

/// Command that draws a range of vertices in a range of instances.
pub open spec fn draw_of(
    vertex_start: u32,
    vertex_end: u32,
    instance_start: u32,
    instance_end: u32,
) -> CommandView {
    CommandOf::Draw {
        vertex_count: (vertex_end - vertex_start) as u32,
        instance_count: (instance_end - instance_start) as u32,
        first_vertex: vertex_start,
        first_instance: instance_start,
    }
}

/// Command that draws a range of indices in a range of instances.
pub open spec fn indexed_draw_of(
    index_start: u32,
    index_end: u32,
    instance_start: u32,
    instance_end: u32,
) -> CommandView {
    CommandOf::DrawIndexed {
        index_count: (index_end - index_start) as u32,
        instance_count: (instance_end - instance_start) as u32,
        first_index: index_start,
        first_instance: instance_start,
    }
}

// ── Laws ───────────────────────────────────────────────────────────────────────

/// A command draws vertex or index `n` of instance `i`.
pub open spec fn draws(c: CommandView, indexed: bool, n: int, i: int) -> bool {
    match c {
        CommandOf::Draw { vertex_count, instance_count, first_vertex, first_instance } => {
            &&& !indexed
            &&& first_vertex <= n < first_vertex + vertex_count
            &&& first_instance <= i < first_instance + instance_count
        },
        CommandOf::DrawIndexed { index_count, instance_count, first_index, first_instance } => {
            &&& indexed
            &&& first_index <= n < first_index + index_count
            &&& first_instance <= i < first_instance + instance_count
        },
        _ => false,
    }
}

/// A draw draws exactly the vertices, or the indices, of its range, in exactly the instances of
/// its other range.
pub proof fn ranges_are_drawn(start: u32, end: u32, first: u32, last: u32, n: int, i: int)
    requires
        start <= end,
        first <= last,
    ensures
        draw_of(start, end, first, last) is Draw,
        indexed_draw_of(start, end, first, last) is DrawIndexed,
        draws(draw_of(start, end, first, last), false, n, i) <==> start <= n < end && first <= i
            < last,
        draws(indexed_draw_of(start, end, first, last), true, n, i) <==> start <= n < end && first
            <= i < last,
{
}

/// A live graphics pipeline is bound for graphics, with the bindless set under its own layout,
/// which is current from now on. Anything else binds nothing and leaves the layout as it was.
pub proof fn graphics_pipeline_is_bound(v: DeviceView, h: PipelineHandle, set: u64, before: Option<u64>)
    ensures
        ({
            let c = bound_by(v, h, set);
            let now = layout_after(v, h, before);
            if v.pipelines.live(h) {
                match v.pipelines.value(h) {
                    VulkanPipeline::Graphics { layout, pipeline } => {
                        &&& c.len() == 2
                        &&& now == Some(layout)
                        &&& c[0] matches CommandOf::BindPipeline { bind_point, pipeline: p }
                            && bind_point == vk::PIPELINE_BIND_POINT_GRAPHICS && p == pipeline
                        &&& c[1] matches CommandOf::BindDescriptorSet {
                            bind_point,
                            layout: l,
                            set: b,
                        } && bind_point == vk::PIPELINE_BIND_POINT_GRAPHICS && l == layout && b
                            == set
                    },
                    _ => c.len() == 0 && now == before,
                }
            } else {
                c.len() == 0 && now == before
            }
        }),
{
}

/// Constants are pushed where there is a pipeline and at least one word of them: to its layout,
/// for both shader stages of a draw.
pub proof fn constants_go_to_both_stages(layout: Option<u64>, bindings: BindingsView, order: ByteOrder)
    ensures
        ({
            let words = constants::fitting_words(constants::graphics_words(bindings));
            match pushed_by(layout, bindings, order) {
                Some(c) => layout is Some && words.len() > 0 && (
                c matches CommandOf::PushConstants { layout: l, stages, bytes } && l == layout->0
                    && stages == vk::SHADER_STAGE_VERTEX + vk::SHADER_STAGE_FRAGMENT && bytes.len()
                    == 4 * words.len() && bytes == constants::words_bytes(order, words)),
                None => layout is None || words.len() == 0,
            }
        }),
{
    constants::words_bytes_len(
        order,
        constants::fitting_words(constants::graphics_words(bindings)),
    );
    assert(0x1u32 | 0x10u32 == 0x11) by (bit_vector);
}

/// A live buffer is bound for vertices in the slot that is asked for, or for indices of four
/// bytes each. A dead one is not bound at all.
pub proof fn live_buffers_are_bound(v: DeviceView, slot: u32, h: BufferHandle)
    ensures
        v.buffers.live(h) <==> vertices_of(v, slot, h) is Some,
        v.buffers.live(h) <==> indices_of(v, h) is Some,
        v.buffers.live(h) ==> (vertices_of(v, slot, h)->0 matches CommandOf::BindVertexBuffer {
            slot: s,
            buffer,
        } && s == slot && buffer == v.buffers.value(h).buffer),
        v.buffers.live(h) ==> (indices_of(v, h)->0 matches CommandOf::BindIndexBuffer {
            buffer,
            index_type,
        } && buffer == v.buffers.value(h).buffer && index_type == vk::INDEX_TYPE_UINT32),
{
}

/// Beginning a pass keeps every target, and each live color attachment of the pass is tracked
/// as a color attachment before the depth attachment is looked at.
pub proof fn color_targets_are_attachments(
    targets: Slots<VulkanRenderTarget>,
    atts: Seq<ColorAttachment>,
    k: int,
    i: int,
    h: TargetHandle,
)
    requires
        0 <= i < k <= atts.len(),
        targets.live(atts[i].target),
    ensures
        pass_colors(targets, atts, k).targets.live(h) == targets.live(h),
        pass_colors(targets, atts, k).targets.value(atts[i].target).layout
            == vk::IMAGE_LAYOUT_COLOR_ATTACHMENT_OPTIMAL,
    decreases k,
{
    lemma_pass_keeps_targets(targets, atts, k, h);
    lemma_pass_keeps_targets(targets, atts, k - 1, atts[i].target);
    lemma_pass_keeps_targets(targets, atts, k - 1, atts[k - 1].target);
    if i < k - 1 {
        color_targets_are_attachments(targets, atts, k - 1, i, h);
    }
}

proof fn lemma_pass_keeps_targets(
    targets: Slots<VulkanRenderTarget>,
    atts: Seq<ColorAttachment>,
    k: int,
    h: TargetHandle,
)
    requires
        0 <= k <= atts.len(),
    ensures
        pass_colors(targets, atts, k).targets.live(h) == targets.live(h),
        pass_colors(targets, atts, k).targets.entries.len() == targets.entries.len(),
    decreases k,
{
    if k > 0 {
        lemma_pass_keeps_targets(targets, atts, k - 1, h);
    }
}

/// Ending a pass hands the attachments that asked for it over to shaders: each of them that is
/// live is tracked as readable by shaders, the layout that a bindless texture descriptor
/// declares.
pub proof fn sampled_targets_are_readable(
    targets: Slots<VulkanRenderTarget>,
    sampled: Seq<TargetHandle>,
    k: int,
    i: int,
)
    requires
        0 <= i < k <= sampled.len(),
        targets.live(sampled[i]),
    ensures
        sampled_after(targets, sampled, k).0.live(sampled[i]),
        sampled_after(targets, sampled, k).0.value(sampled[i]).layout
            == vk::IMAGE_LAYOUT_SHADER_READ_ONLY_OPTIMAL,
    decreases k,
{
    lemma_sampling_keeps_targets(targets, sampled, k - 1, sampled[i]);
    if i < k - 1 {
        sampled_targets_are_readable(targets, sampled, k - 1, i);
    }
}

proof fn lemma_sampling_keeps_targets(
    targets: Slots<VulkanRenderTarget>,
    sampled: Seq<TargetHandle>,
    k: int,
    h: TargetHandle,
)
    requires
        0 <= k <= sampled.len(),
    ensures
        sampled_after(targets, sampled, k).0.live(h) == targets.live(h),
    decreases k,
{
    if k > 0 {
        lemma_sampling_keeps_targets(targets, sampled, k - 1, h);
    }
}

/// A color attachment is rendered to through the view of its target while it is a color
/// attachment. It is cleared to the given color, loaded or neither, and stored or not, as its
/// description says. The place of a dead target is left empty, and there is one place for each
/// attachment.
pub proof fn color_attachment_follows_description(
    targets: Slots<VulkanRenderTarget>,
    atts: Seq<ColorAttachment>,
    k: int,
    i: int,
)
    requires
        0 <= i < k <= atts.len(),
    ensures
        ({
            let all = pass_colors(targets, atts, k).color;
            let a = all[i];
            let load = atts[i].load;
            &&& all.len() == k
            &&& targets.live(atts[i].target) ==> {
                &&& a.image_view == targets.value(atts[i].target).view
                &&& a.image_layout == vk::IMAGE_LAYOUT_COLOR_ATTACHMENT_OPTIMAL
                &&& a.load_op == vk::ATTACHMENT_LOAD_OP_CLEAR <==> load is Clear
                &&& a.load_op == vk::ATTACHMENT_LOAD_OP_LOAD <==> load is Load
                &&& a.load_op == vk::ATTACHMENT_LOAD_OP_DONT_CARE <==> load is DontCare
                &&& load matches LoadOp::Clear(c) ==> a.clear == c
                &&& a.store_op == vk::ATTACHMENT_STORE_OP_STORE <==> atts[i].store
                &&& a.store_op == vk::ATTACHMENT_STORE_OP_DONT_CARE <==> !atts[i].store
            }
            &&& !targets.live(atts[i].target) ==> a.image_view == 0 && a.image_layout
                == vk::IMAGE_LAYOUT_UNDEFINED
        }),
    decreases k,
{
    lemma_pass_keeps_targets(targets, atts, k - 1, atts[i].target);
    if targets.live(atts[i].target) {
        lemma_pass_keeps_views(targets, atts, k - 1, atts[i].target);
    }
    if i < k - 1 {
        color_attachment_follows_description(targets, atts, k - 1, i);
    } else {
        lemma_color_places(targets, atts, k - 1);
    }
}

proof fn lemma_color_places(targets: Slots<VulkanRenderTarget>, atts: Seq<ColorAttachment>, k: int)
    requires
        0 <= k <= atts.len(),
    ensures
        pass_colors(targets, atts, k).color.len() == k,
    decreases k,
{
    if k > 0 {
        lemma_color_places(targets, atts, k - 1);
    }
}

proof fn lemma_pass_keeps_views(
    targets: Slots<VulkanRenderTarget>,
    atts: Seq<ColorAttachment>,
    k: int,
    h: TargetHandle,
)
    requires
        0 <= k <= atts.len(),
        targets.live(h),
    ensures
        ({
            let before = targets.value(h);
            let now = pass_colors(targets, atts, k).targets.value(h);
            &&& now.image == before.image
            &&& now.view == before.view
            &&& now.format == before.format
            &&& now.extent == before.extent
        }),
    decreases k,
{
    if k > 0 {
        lemma_pass_keeps_views(targets, atts, k - 1, h);
        lemma_pass_keeps_targets(targets, atts, k - 1, h);
        lemma_pass_keeps_targets(targets, atts, k - 1, atts[k - 1].target);
    }
}

/// The depth attachment is rendered to through the view of its target while it is a depth
/// attachment; it is cleared to the depth that is given in the first component. A dead target
/// leaves the pass without depth.
pub proof fn depth_attachment_follows_description(s: PassState, d: DepthAttachment)
    ensures
        pass_depth(s, None) is None,
        pass_depth(s, Some(d)) is Some <==> s.targets.live(d.target),
        pass_depth(s, Some(d)) matches Some(a) ==> {
            &&& a.image_view == s.targets.value(d.target).view
            &&& a.image_layout == vk::IMAGE_LAYOUT_DEPTH_ATTACHMENT_OPTIMAL
            &&& a.load_op == vk::ATTACHMENT_LOAD_OP_CLEAR <==> d.load is Clear
            &&& a.load_op == vk::ATTACHMENT_LOAD_OP_LOAD <==> d.load is Load
            &&& a.load_op == vk::ATTACHMENT_LOAD_OP_DONT_CARE <==> d.load is DontCare
            &&& d.load matches LoadOp::Clear(c) ==> a.clear.r == c.r && a.clear.g == 0
            &&& a.store_op == vk::ATTACHMENT_STORE_OP_STORE <==> d.store
            &&& a.store_op == vk::ATTACHMENT_STORE_OP_DONT_CARE <==> !d.store
        },
{
}

/// A pass covers the area of its depth target, or of its last live color target where it has
/// none.
pub proof fn pass_covers_its_targets(
    targets: Slots<VulkanRenderTarget>,
    atts: Seq<ColorAttachment>,
    k: int,
    depth: Option<DepthAttachment>,
    last: int,
)
    requires
        0 <= last < k <= atts.len(),
        targets.live(atts[last].target),
        forall|i: int| last < i < k ==> !targets.live((#[trigger] atts[i]).target),
    ensures
        ({
            let s = add_depth(pass_colors(targets, atts, k), depth);
            match depth {
                Some(d) => if targets.live(d.target) {
                    s.extent == targets.value(d.target).extent
                } else {
                    s.extent == targets.value(atts[last].target).extent
                },
                None => s.extent == targets.value(atts[last].target).extent,
            }
        }),
{
    lemma_pass_extent(targets, atts, k, last);
    if let Some(d) = depth {
        lemma_pass_keeps_targets(targets, atts, k, d.target);
        if targets.live(d.target) {
            lemma_pass_keeps_views(targets, atts, k, d.target);
        }
    }
}

proof fn lemma_pass_extent(
    targets: Slots<VulkanRenderTarget>,
    atts: Seq<ColorAttachment>,
    k: int,
    last: int,
)
    requires
        0 <= last < k <= atts.len(),
        targets.live(atts[last].target),
        forall|i: int| last < i < k ==> !targets.live((#[trigger] atts[i]).target),
    ensures
        pass_colors(targets, atts, k).extent == targets.value(atts[last].target).extent,
    decreases k,
{
    lemma_pass_keeps_targets(targets, atts, k - 1, atts[k - 1].target);
    if last < k - 1 {
        lemma_pass_extent(targets, atts, k - 1, last);
    } else {
        lemma_pass_keeps_views(targets, atts, k - 1, atts[last].target);
    }
}

/// A pass uses its first four color attachments, and all of them where there are no more.
pub proof fn pass_uses_four_colors(n: nat)
    ensures
        color_count(n) <= n,
        color_count(n) <= 4,
        color_count(n) == n || color_count(n) == 4,
{
}

/// The targets that are made readable when a pass ends are the live color targets of the pass
/// that asked for it, and no others.
pub proof fn sampled_are_those_that_asked(
    targets: Slots<VulkanRenderTarget>,
    atts: Seq<ColorAttachment>,
    k: int,
    depth: Option<DepthAttachment>,
    h: TargetHandle,
)
    requires
        0 <= k <= atts.len(),
    ensures
        add_depth(pass_colors(targets, atts, k), depth).sampled.contains(h) <==> exists|i: int|
            0 <= i < k && (#[trigger] atts[i]).target == h && atts[i].sample_after && targets.live(h),
    decreases k,
{
    let now = pass_colors(targets, atts, k).sampled;
    assert(add_depth(pass_colors(targets, atts, k), depth).sampled == now);
    if k > 0 {
        sampled_are_those_that_asked(targets, atts, k - 1, depth, h);
        let before = pass_colors(targets, atts, k - 1).sampled;
        assert(add_depth(pass_colors(targets, atts, k - 1), depth).sampled == before);
        let last = atts[k - 1];
        lemma_pass_keeps_targets(targets, atts, k - 1, last.target);
        if now.contains(h) {
            let j = choose|j: int| 0 <= j < now.len() && now[j] == h;
            if j < before.len() {
                assert(before[j] == h);
                assert(before.contains(h));
                let i = choose|i: int|
                    0 <= i < k - 1 && (#[trigger] atts[i]).target == h && atts[i].sample_after
                        && targets.live(h);
                assert(atts[i].target == h);
            } else {
                assert(atts[k - 1].target == h);
            }
        }
        if exists|i: int|
            0 <= i < k && (#[trigger] atts[i]).target == h && atts[i].sample_after && targets.live(
                h,
            ) {
            let i = choose|i: int|
                0 <= i < k && (#[trigger] atts[i]).target == h && atts[i].sample_after
                    && targets.live(h);
            if i < k - 1 {
                assert(before.contains(h));
                let j = choose|j: int| 0 <= j < before.len() && before[j] == h;
                assert(now[j] == h);
            } else {
                assert(now[before.len() as int] == h);
            }
        }
    }
}

/// An image is brought to the layout that it is rendered to or sampled in unless it is there:
/// from the layout that it is in, before the stage that uses it, for the access that this stage
/// makes, and over its first level and layer. Sampling waits for what was rendered.
pub proof fn transitions_are_exact(img: u64, old: i32)
    ensures
        color_transition(img, old).len() == 0 <==> old
            == vk::IMAGE_LAYOUT_COLOR_ATTACHMENT_OPTIMAL,
        color_transition(img, old).len() <= 1,
        color_transition(img, old).len() == 1 ==> (color_transition(
            img,
            old,
        )[0] matches CommandOf::ImageBarrier { dst_stages, barrier, .. } && barrier.image == img
            && barrier.old_layout == old && barrier.new_layout
            == vk::IMAGE_LAYOUT_COLOR_ATTACHMENT_OPTIMAL && dst_stages
            == vk::PIPELINE_STAGE_COLOR_ATTACHMENT_OUTPUT && barrier.dst_access_mask
            == vk::ACCESS_COLOR_ATTACHMENT_WRITE && is_first_layer(
            barrier.subresource_range,
            vk::IMAGE_ASPECT_COLOR,
        )),
        depth_transition(img, old).len() == 0 <==> old
            == vk::IMAGE_LAYOUT_DEPTH_ATTACHMENT_OPTIMAL,
        depth_transition(img, old).len() <= 1,
        depth_transition(img, old).len() == 1 ==> (depth_transition(
            img,
            old,
        )[0] matches CommandOf::ImageBarrier { dst_stages, barrier, .. } && barrier.image == img
            && barrier.old_layout == old && barrier.new_layout
            == vk::IMAGE_LAYOUT_DEPTH_ATTACHMENT_OPTIMAL && dst_stages
            == vk::PIPELINE_STAGE_EARLY_FRAGMENT_TESTS && barrier.dst_access_mask
            == vk::ACCESS_DEPTH_STENCIL_ATTACHMENT_WRITE && is_first_layer(
            barrier.subresource_range,
            vk::IMAGE_ASPECT_DEPTH,
        )),
        sample_transition(img, old).len() == 0 <==> old
            == vk::IMAGE_LAYOUT_SHADER_READ_ONLY_OPTIMAL,
        sample_transition(img, old).len() <= 1,
        sample_transition(img, old).len() == 1 ==> (sample_transition(
            img,
            old,
        )[0] matches CommandOf::ImageBarrier { src_stages, dst_stages, barrier } && barrier.image
            == img && barrier.old_layout == old && barrier.new_layout
            == vk::IMAGE_LAYOUT_SHADER_READ_ONLY_OPTIMAL && src_stages
            == vk::PIPELINE_STAGE_COLOR_ATTACHMENT_OUTPUT && barrier.src_access_mask
            == vk::ACCESS_COLOR_ATTACHMENT_WRITE && dst_stages
            == vk::PIPELINE_STAGE_FRAGMENT_SHADER && barrier.dst_access_mask
            == vk::ACCESS_SHADER_READ && is_first_layer(
            barrier.subresource_range,
            vk::IMAGE_ASPECT_COLOR,
        )),
{
}

/// The range is the first level and layer of an aspect, and nothing more.
pub open spec fn is_first_layer(range: vk::SubresourceRange, aspect: u32) -> bool {
    &&& range.aspect_mask == aspect
    &&& range.base_mip_level == 0
    &&& range.level_count == 1
    &&& range.base_array_layer == 0
    &&& range.layer_count == 1
}

/// A pass without any live target covers nothing.
pub proof fn empty_pass_covers_nothing(
    targets: Slots<VulkanRenderTarget>,
    atts: Seq<ColorAttachment>,
    k: int,
)
    requires
        0 <= k <= atts.len(),
        forall|i: int| 0 <= i < k ==> !targets.live((#[trigger] atts[i]).target),
    ensures
        pass_colors(targets, atts, k).extent.width == 0,
        pass_colors(targets, atts, k).extent.height == 0,
        pass_colors(targets, atts, k).commands.len() == 0,
        pass_colors(targets, atts, k).targets == targets,
    decreases k,
{
    if k > 0 {
        empty_pass_covers_nothing(targets, atts, k - 1);
        assert(!targets.live(atts[k - 1].target));
    }
}

proof fn lemma_sampling_keeps_images(
    targets: Slots<VulkanRenderTarget>,
    sampled: Seq<TargetHandle>,
    k: int,
    h: TargetHandle,
)
    requires
        0 <= k <= sampled.len(),
        targets.live(h),
    ensures
        sampled_after(targets, sampled, k).0.live(h),
        sampled_after(targets, sampled, k).0.value(h).image == targets.value(h).image,
    decreases k,
{
    if k > 0 {
        lemma_sampling_keeps_images(targets, sampled, k - 1, h);
        lemma_sampling_keeps_targets(targets, sampled, k - 1, sampled[k - 1]);
    }
}

/// When a pass has begun, the base level of every texture that it renders to is noted as a color
/// attachment, and that of the one it uses for depth as a depth attachment. Nothing is noted of
/// other images, or of other layers.
pub proof fn rendered_layouts_are_noted(
    targets: Slots<VulkanRenderTarget>,
    base: Map<u64, Seq<i32>>,
    atts: Seq<ColorAttachment>,
    k: int,
    depth: Option<DepthAttachment>,
    image: u64,
    layer: int,
)
    requires
        0 <= k <= atts.len(),
    ensures
        ({
            let known = base.contains_key(image) && 0 < base[image].len();
            let colored = exists|i: int|
                0 <= i < k && targets.live((#[trigger] atts[i]).target) && targets.value(
                    atts[i].target,
                ).image == image;
            let deep = depth is Some && targets.live(depth->0.target) && targets.value(
                depth->0.target,
            ).image == image;
            let now = base_layouts::layout_of(pass_base(targets, base, atts, k, depth), image, layer);
            &&& known && deep && layer == 0 ==> now == vk::IMAGE_LAYOUT_DEPTH_ATTACHMENT_OPTIMAL
            &&& known && colored && !deep && layer == 0 ==> now
                == vk::IMAGE_LAYOUT_COLOR_ATTACHMENT_OPTIMAL
            &&& !colored && !deep || layer != 0 ==> now == base_layouts::layout_of(
                base,
                image,
                layer,
            )
        }),
{
    lemma_colored_base(targets, base, atts, k, image, layer);
    if let Some(d) = depth {
        lemma_pass_keeps_targets(targets, atts, k, d.target);
        if targets.live(d.target) {
            lemma_pass_keeps_views(targets, atts, k, d.target);
        }
    }
}

proof fn lemma_colored_base(
    targets: Slots<VulkanRenderTarget>,
    base: Map<u64, Seq<i32>>,
    atts: Seq<ColorAttachment>,
    k: int,
    image: u64,
    layer: int,
)
    requires
        0 <= k <= atts.len(),
    ensures
        ({
            let known = base.contains_key(image) && 0 < base[image].len();
            let colored = exists|i: int|
                0 <= i < k && targets.live((#[trigger] atts[i]).target) && targets.value(
                    atts[i].target,
                ).image == image;
            let after = colored_base(targets, base, atts, k);
            let now = base_layouts::layout_of(after, image, layer);
            &&& after.contains_key(image) == base.contains_key(image)
            &&& base.contains_key(image) ==> after[image].len() == base[image].len()
            &&& known && colored && layer == 0 ==> now
                == vk::IMAGE_LAYOUT_COLOR_ATTACHMENT_OPTIMAL
            &&& !colored || layer != 0 ==> now == base_layouts::layout_of(base, image, layer)
        }),
    decreases k,
{
    if k > 0 {
        lemma_colored_base(targets, base, atts, k - 1, image, layer);
        let h = atts[k - 1].target;
        lemma_pass_keeps_targets(targets, atts, k - 1, h);
        if targets.live(h) {
            lemma_pass_keeps_views(targets, atts, k - 1, h);
        }
        if exists|i: int|
            0 <= i < k - 1 && targets.live((#[trigger] atts[i]).target) && targets.value(
                atts[i].target,
            ).image == image {
            let i = choose|i: int|
                0 <= i < k - 1 && targets.live((#[trigger] atts[i]).target) && targets.value(
                    atts[i].target,
                ).image == image;
            assert(0 <= i < k && targets.live(atts[i].target));
        }
        if targets.live(h) && targets.value(h).image == image {
            assert(targets.live(atts[k - 1].target));
        }
    }
}

/// When a pass has ended, the base level of every texture that was handed to shaders is noted as
/// readable by them. Nothing is noted of other images, or of other layers.
pub proof fn sampled_layouts_are_noted(
    targets: Slots<VulkanRenderTarget>,
    base: Map<u64, Seq<i32>>,
    sampled: Seq<TargetHandle>,
    k: int,
    image: u64,
    layer: int,
)
    requires
        0 <= k <= sampled.len(),
    ensures
        ({
            let known = base.contains_key(image) && 0 < base[image].len();
            let handed = exists|i: int|
                0 <= i < k && targets.live(#[trigger] sampled[i]) && targets.value(sampled[i]).image
                    == image;
            let after = sampled_base(targets, base, sampled, k);
            let now = base_layouts::layout_of(after, image, layer);
            &&& after.contains_key(image) == base.contains_key(image)
            &&& base.contains_key(image) ==> after[image].len() == base[image].len()
            &&& known && handed && layer == 0 ==> now == vk::IMAGE_LAYOUT_SHADER_READ_ONLY_OPTIMAL
            &&& !handed || layer != 0 ==> now == base_layouts::layout_of(base, image, layer)
        }),
    decreases k,
{
    if k > 0 {
        sampled_layouts_are_noted(targets, base, sampled, k - 1, image, layer);
        let h = sampled[k - 1];
        lemma_sampling_keeps_targets(targets, sampled, k - 1, h);
        if targets.live(h) {
            lemma_sampling_keeps_images(targets, sampled, k - 1, h);
        }
        if exists|i: int|
            0 <= i < k - 1 && targets.live(#[trigger] sampled[i]) && targets.value(sampled[i]).image
                == image {
            let i = choose|i: int|
                0 <= i < k - 1 && targets.live(#[trigger] sampled[i]) && targets.value(
                    sampled[i],
                ).image == image;
            assert(0 <= i < k && targets.live(sampled[i]));
        }
        if targets.live(h) && targets.value(h).image == image {
            assert(targets.live(sampled[k - 1]));
        }
    }
}

} // verus!
