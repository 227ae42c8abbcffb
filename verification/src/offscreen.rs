//! Offscreen color targets.
use vstd::prelude::*;

use crate::command::{Cleanup, Command};
use crate::device;
use crate::device::buffers::{Unwind, UnwindView};
use crate::device::dispatch;
use crate::device::targets;
use crate::device::textures;
use crate::device::{
    BufferHandle, DeviceView, SamplerHandle, TargetHandle, TextureHandle, VulkanDevice,
};
use crate::error::{GpuError, GpuErrorView};
use crate::hal::{
    Format, TexDim, TextureDesc, TextureUsage, TEXTURE_RENDER_TARGET, TEXTURE_SAMPLED,
    TEXTURE_TRANSFER_SRC,
};
use crate::vk;

verus! {

/// Fixed-size, device-local color image usable as a render target and as a sampled texture.
///
/// Typical use: render into [`OffscreenTarget::target_handle`], ask for the attachment to be
/// sampled after the pass, and register [`OffscreenTarget::texture_handle`] in the bindless
/// table.
#[derive(Clone, Copy)]
pub struct OffscreenTarget {
    texture: TextureHandle,
    target: TargetHandle,
    format: Format,
    extent: vk::Extent2D,
}

/// Texture of an offscreen target.
pub open spec fn offscreen_texture(format: Format, width: u32, height: u32) -> TextureDesc {
    TextureDesc {
        width,
        height,
        depth: 1,
        format,
        usage: TextureUsage {
            bits: TEXTURE_SAMPLED | TEXTURE_RENDER_TARGET | TEXTURE_TRANSFER_SRC,
        },
        samples: 1,
        dimension: TexDim::D2,
        mip_levels: 1,
        array_layers: 1,
    }
}

/// Device after an offscreen target is dropped: its texture goes at once.
pub open spec fn offscreen_dropped(v: DeviceView, texture: TextureHandle, target: TargetHandle) -> DeviceView {
    DeviceView {
        render_targets: if v.render_targets.live(target) {
            v.render_targets.remove(target.slot() as int)
        } else {
            v.render_targets
        },
        textures: if v.textures.live(texture) {
            v.textures.remove(texture.slot() as int)
        } else {
            v.textures
        },
        base_layouts: if v.textures.live(texture) {
            v.base_layouts.remove(v.textures.value(texture).image)
        } else {
            v.base_layouts
        },
        ..v
    }
}

impl OffscreenTarget {
    pub closed spec fn texture_of(self) -> TextureHandle {
        self.texture
    }

    pub closed spec fn target_of(self) -> TargetHandle {
        self.target
    }

    pub closed spec fn format_of(self) -> Format {
        self.format
    }

    pub closed spec fn extent_of(self) -> vk::Extent2D {
        self.extent
    }

    /// Texture to create for an offscreen target.
    pub fn texture_desc(format: Format, width: u32, height: u32) -> (desc: TextureDesc)
        ensures
            desc == offscreen_texture(format, width, height),
    {
        TextureDesc {
            width,
            height,
            depth: 1,
            format,
            usage: TextureUsage {
                bits: TEXTURE_SAMPLED | TEXTURE_RENDER_TARGET | TEXTURE_TRANSFER_SRC,
            },
            samples: 1,
            dimension: TexDim::D2,
            mip_levels: 1,
            array_layers: 1,
        }
    }

    /// Registers the texture that was created for an offscreen target. Its image starts in an
    /// undefined layout; the first render pass that writes it makes it a color attachment.
    pub fn new(dev: &mut VulkanDevice, texture: TextureHandle, format: Format, width: u32, height: u32) -> (r:
        Result<Self, Unwind>)
        requires
            old(dev)@.wf(),
            old(dev)@.render_targets.has_room(),
        ensures
            final(dev)@.wf(),
            match r {
                Ok(t) => old(dev)@.textures.live(texture) && final(dev)@
                    == targets::target_registered(
                    old(dev)@,
                    targets::texture_target(old(dev)@, texture),
                ) && t.texture_of() == texture && t.target_of().slot()
                    == old(dev)@.render_targets.next_index() && t.target_of().gen()
                    == old(dev)@.render_targets.next_generation() && t.format_of() == format
                    && t.extent_of() == (vk::Extent2D { width, height }),
                Err(u) => !old(dev)@.textures.live(texture) && final(dev)@ == old(dev)@ && u@
                    == (UnwindView {
                    cleanup: Seq::empty(),
                    error: GpuErrorView::Backend("register_color_target: stale texture handle"@),
                }),
            },
    {
        match dev.register_color_target(texture) {
            Some(target) => Ok(
                OffscreenTarget {
                    texture,
                    target,
                    format,
                    extent: vk::Extent2D { width, height },
                },
            ),
            None => {
                let cleanup = dev.destroy_texture(texture);
                let u = Unwind {
                    cleanup,
                    error: GpuError::Backend(
                        "register_color_target: stale texture handle".to_owned(),
                    ),
                };
                assert(u@ =~= UnwindView {
                    cleanup: Seq::empty(),
                    error: GpuErrorView::Backend("register_color_target: stale texture handle"@),
                });
                Err(u)
            },
        }
    }

    pub fn format(&self) -> (f: Format)
        ensures
            f == self.format_of(),
    {
        self.format
    }

    pub fn extent(&self) -> (r: (u32, u32))
        ensures
            r == (self.extent_of().width, self.extent_of().height),
    {
        (self.extent.width, self.extent.height)
    }

    /// Handle for use as a color attachment.
    pub fn target_handle(&self) -> (h: TargetHandle)
        ensures
            h == self.target_of(),
    {
        self.target
    }

    /// Handle for sampling.
    pub fn texture_handle(&self) -> (h: TextureHandle)
        ensures
            h == self.texture_of(),
    {
        self.texture
    }

    /// Image of the target, or zero if its texture is gone.
    pub fn image(&self, dev: &VulkanDevice) -> (image: u64)
        ensures
            image == (if dev@.textures.live(self.texture_of()) {
                dev@.textures.value(self.texture_of()).image
            } else {
                0
            }),
    {
        match dev.texture(self.texture) {
            Some(t) => t.image,
            None => 0,
        }
    }

    /// Image view of the target, or zero if its texture is gone.
    pub fn view(&self, dev: &VulkanDevice) -> (view: u64)
        ensures
            view == (if dev@.textures.live(self.texture_of()) {
                dev@.textures.value(self.texture_of()).view
            } else {
                0
            }),
    {
        match dev.texture(self.texture) {
            Some(t) => t.view,
            None => 0,
        }
    }

    /// Replaces the target by one of another size, whose texture has been created. Handles to
    /// the old one become dead.
    pub fn resize(&mut self, dev: &mut VulkanDevice, texture: TextureHandle, width: u32, height: u32) -> (r:
        Result<Vec<Cleanup>, Unwind>)
        requires
            old(dev)@.wf(),
            old(dev)@.render_targets.has_room(),
        ensures
            final(dev)@.wf(),
            match r {
                Ok(steps) => {
                    let made = targets::target_registered(
                        old(dev)@,
                        targets::texture_target(old(dev)@, texture),
                    );
                    &&& old(dev)@.textures.live(texture)
                    &&& final(dev)@ == offscreen_dropped(
                        made,
                        old(self).texture_of(),
                        old(self).target_of(),
                    )
                    &&& final(self).texture_of() == texture
                    &&& final(self).target_of().slot() == old(dev)@.render_targets.next_index()
                    &&& final(self).target_of().gen() == old(dev)@.render_targets.next_generation()
                    &&& final(self).format_of() == old(self).format_of()
                    &&& final(self).extent_of() == (vk::Extent2D { width, height })
                    &&& steps@ == dropped_cleanup(old(dev)@, old(self).texture_of())
                },
                Err(u) => !old(dev)@.textures.live(texture) && final(dev)@ == old(dev)@
                    && *final(self) == *old(self) && u@ == (UnwindView {
                    cleanup: Seq::empty(),
                    error: GpuErrorView::Backend("register_color_target: stale texture handle"@),
                }),
            },
    {
        match OffscreenTarget::new(dev, texture, self.format, width, height) {
            Ok(next) => {
                let steps = self.release(dev);
                *self = next;
                Ok(steps)
            },
            Err(u) => Err(u),
        }
    }

    /// Drops the registration of the target and destroys its texture.
    pub fn release(self, dev: &mut VulkanDevice) -> (steps: Vec<Cleanup>)
        requires
            old(dev)@.wf(),
        ensures
            final(dev)@.wf(),
            final(dev)@ == offscreen_dropped(old(dev)@, self.texture_of(), self.target_of()),
            steps@ == dropped_cleanup(old(dev)@, self.texture_of()),
    {
        let ghost v = dev@;
        dev.unregister_render_target(self.target);
        let steps = match dev.remove_texture(self.texture) {
            Some(t) => {
                let mut steps: Vec<Cleanup> = Vec::new();
                steps.push(Cleanup::DestroyImageView(t.view));
                steps.push(Cleanup::DestroyImage(t.image));
                steps.push(Cleanup::FreeMemory(t.memory));
                steps
            },
            None => Vec::new(),
        };
        proof {
            assert(dev@ =~= offscreen_dropped(v, self.texture_of(), self.target_of()));
            assert(steps@ =~= dropped_cleanup(v, self.texture_of()));
        }
        steps
    }
}

/// Destruction of the texture of an offscreen target, if it is still there.
pub open spec fn dropped_cleanup(v: DeviceView, texture: TextureHandle) -> Seq<Cleanup> {
    if v.textures.live(texture) {
        device::texture_cleanup(v.textures.value(texture))
    } else {
        Seq::empty()
    }
}

impl VulkanDevice {
    /// Plans a copy of an offscreen target to a readback buffer, after the render pass that
    /// wrote it has finished. The image is a color attachment before and after.
    pub fn copy_offscreen_to_buffer(&self, offscreen: &OffscreenTarget, buffer: BufferHandle) -> (r:
        Result<Vec<Command>, GpuError>)
        ensures
            match r {
                Ok(commands) => self@.textures.live(offscreen.texture_of()) && self@.buffers.live(
                    buffer,
                ) && crate::command::command_views(commands@) == textures::readback_commands(
                    self@.textures.value(offscreen.texture_of()),
                    self@.buffers.value(buffer).buffer,
                ),
                Err(e) => !(self@.textures.live(offscreen.texture_of()) && self@.buffers.live(
                    buffer,
                )) && e@ == GpuErrorView::Backend(
                    if !self@.textures.live(offscreen.texture_of()) {
                        "copy_texture_to_buffer: stale texture handle"@
                    } else {
                        "copy_texture_to_buffer: stale buffer handle"@
                    },
                ),
            },
    {
        self.copy_texture_to_buffer(offscreen.texture, buffer)
    }
}

/// Handles to an offscreen target are dead once it is resized: neither its texture nor its
/// render target can be reached through them, and no dispatch is accepted with the slot of its
/// texture while the slot is empty.
pub proof fn old_handles_are_dead(v: DeviceView, texture: TextureHandle, target: TargetHandle)
    requires
        v.wf(),
    ensures
        !offscreen_dropped(v, texture, target).textures.live(texture),
        !offscreen_dropped(v, texture, target).render_targets.live(target),
        v.textures.live(texture) ==> dispatch::texture_fault(
            offscreen_dropped(v, texture, target),
            texture.slot(),
        ) is Some,
{
}

/// What is rendered to an offscreen target is what shaders sample, without a copy: the render
/// target that is registered for a texture has the texture's own image and view, and the
/// descriptor that binds the texture has that view.
pub proof fn handoff_copies_nothing(
    v: DeviceView,
    texture: TextureHandle,
    target: TargetHandle,
    sampler: SamplerHandle,
)
    requires
        v.wf(),
        v.render_targets.has_room(),
        v.textures.live(texture),
        target.slot() == v.render_targets.next_index(),
        target.gen() == v.render_targets.next_generation(),
    ensures
        ({
            let n = targets::target_registered(v, targets::texture_target(v, texture));
            let rt = n.render_targets.value(target);
            &&& n.render_targets.live(target)
            &&& n.textures.live(texture)
            &&& rt.image == n.textures.value(texture).image
            &&& rt.view == n.textures.value(texture).view
            &&& textures::texture_descriptor(n, texture, sampler).image_view == rt.view
        }),
{
}

/// The texture of an offscreen target is a plain image of the given size and format, that can
/// be rendered to, sampled and copied from, and used for nothing else.
pub proof fn offscreen_texture_is_renderable(format: Format, width: u32, height: u32)
    ensures
        ({
            let t = offscreen_texture(format, width, height);
            &&& t.width == width
            &&& t.height == height
            &&& t.depth == 1
            &&& t.format == format
            &&& t.usage.bits == TEXTURE_SAMPLED + TEXTURE_RENDER_TARGET + TEXTURE_TRANSFER_SRC
            &&& t.samples == 1
            &&& t.dimension is D2
            &&& t.mip_levels == 1
            &&& t.array_layers == 1
        }),
{
    assert(0x1u32 | 0x4u32 | 0x10u32 == 0x15) by (bit_vector);
}

/// Dropping an offscreen target takes its render target and its texture out of the tables at
/// once, forgets the layout of its image, and changes nothing else; the view, the image and the
/// memory of a live texture are destroyed in this order.
pub proof fn dropping_takes_both_out(v: DeviceView, texture: TextureHandle, target: TargetHandle)
    ensures
        ({
            let n = offscreen_dropped(v, texture, target);
            let t = v.textures.value(texture);
            let steps = dropped_cleanup(v, texture);
            &&& !n.textures.live(texture)
            &&& !n.render_targets.live(target)
            &&& v.textures.live(texture) ==> !n.base_layouts.contains_key(t.image)
            &&& n == (DeviceView {
                textures: n.textures,
                render_targets: n.render_targets,
                base_layouts: n.base_layouts,
                ..v
            })
            &&& v.textures.live(texture) ==> steps.len() == 3 && steps[0]
                == Cleanup::DestroyImageView(t.view) && steps[1] == Cleanup::DestroyImage(t.image)
                && steps[2] == Cleanup::FreeMemory(t.memory)
            &&& !v.textures.live(texture) ==> steps.len() == 0
        }),
{
}

} // verus!
