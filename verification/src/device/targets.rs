//! Render targets: registration and layout tracking.
use vstd::prelude::*;

use crate::device::base_layouts;
use crate::device::lifetime;
use crate::device::{
    BufferHandle, DeviceView, PipelineHandle, SamplerHandle, TargetHandle, TextureHandle, VulkanBuffer,
    VulkanDevice, VulkanPipeline, VulkanRenderTarget, VulkanTexture,
};
use crate::vk;

verus! {

/// Device after a render target is registered. Its image starts in an undefined layout.
pub open spec fn target_registered(v: DeviceView, rt: VulkanRenderTarget) -> DeviceView {
    DeviceView { render_targets: v.render_targets.insert(rt), ..v }
}

/// Entry of a texture as a render target.
pub open spec fn texture_target(v: DeviceView, texture: TextureHandle) -> VulkanRenderTarget {
    let t = v.textures.value(texture);
    VulkanRenderTarget {
        image: t.image,
        view: t.view,
        format: t.format,
        extent: t.extent,
        layout: vk::IMAGE_LAYOUT_UNDEFINED,
    }
}

impl VulkanDevice {
    /// Descriptor set of the bindless tables.
    pub fn bindless_set(&self) -> (set: u64)
        ensures
            set == self@.bindless.set,
    {
        self.bindless.set
    }

    /// Buffer that a handle refers to.
    pub fn buffer(&self, h: BufferHandle) -> (r: Option<VulkanBuffer>)
        ensures
            r == (if self@.buffers.live(h) {
                Some(self@.buffers.value(h))
            } else {
                None
            }),
    {
        self.buffers.get(h)
    }

    /// Texture that a handle refers to.
    pub fn texture(&self, h: TextureHandle) -> (r: Option<VulkanTexture>)
        ensures
            r == (if self@.textures.live(h) {
                Some(self@.textures.value(h))
            } else {
                None
            }),
    {
        self.textures.get(h)
    }

    /// Sampler that a handle refers to.
    pub fn sampler(&self, h: SamplerHandle) -> (r: Option<u64>)
        ensures
            r == (if self@.samplers.live(h) {
                Some(self@.samplers.value(h))
            } else {
                None
            }),
    {
        self.samplers.get(h)
    }

    /// Takes a texture out of the table at once, whether or not submissions are in flight.
    pub(crate) fn remove_texture(&mut self, h: TextureHandle) -> (r: Option<VulkanTexture>)
        requires
            old(self)@.wf(),
        ensures
            final(self)@.wf(),
            r == (if old(self)@.textures.live(h) {
                Some(old(self)@.textures.value(h))
            } else {
                None
            }),
            final(self)@ == (if old(self)@.textures.live(h) {
                lifetime::texture_removed(old(self)@, h)
            } else {
                old(self)@
            }),
    {
        let ghost v = self@;
        let r = self.textures.remove(h);
        if let Some(t) = r {
            self.base_layouts.forget(t.image);
        }
        proof {
            assert(self@ =~= if v.textures.live(h) {
                lifetime::texture_removed(v, h)
            } else {
                v
            });
            if v.textures.live(h) {
                lifetime::lemma_remove_texture_wf(v, h);
            }
        }
        r
    }

    /// Pipeline that a handle refers to.
    pub fn pipeline(&self, h: PipelineHandle) -> (r: Option<VulkanPipeline>)
        ensures
            r == (if self@.pipelines.live(h) {
                Some(self@.pipelines.value(h))
            } else {
                None
            }),
    {
        self.pipelines.get(h)
    }

    /// Render target that a handle refers to.
    pub fn target(&self, h: TargetHandle) -> (r: Option<VulkanRenderTarget>)
        ensures
            r == (if self@.render_targets.live(h) {
                Some(self@.render_targets.value(h))
            } else {
                None
            }),
    {
        self.render_targets.get(h)
    }

    /// Registers an image as a render target.
    pub fn register_target(&mut self, rt: VulkanRenderTarget) -> (h: TargetHandle)
        requires
            old(self)@.wf(),
            old(self)@.render_targets.has_room(),
        ensures
            final(self)@.wf(),
            final(self)@ == target_registered(old(self)@, rt),
            h.slot() == old(self)@.render_targets.next_index(),
            h.gen() == old(self)@.render_targets.next_generation(),
            final(self)@.render_targets.live(h),
            final(self)@.render_targets.value(h) == rt,
    {
        let ghost v = self@;
        let h = self.render_targets.insert(rt);
        proof {
            assert(self@ =~= target_registered(v, rt));
            lifetime::lemma_same_tables_wf(v, self@);
        }
        h
    }

    /// Registers a texture as a render target. `None` for a dead handle.
    pub fn register_color_target(&mut self, texture: TextureHandle) -> (r: Option<TargetHandle>)
        requires
            old(self)@.wf(),
            old(self)@.render_targets.has_room(),
        ensures
            final(self)@.wf(),
            match r {
                Some(h) => old(self)@.textures.live(texture) && final(self)@ == target_registered(
                    old(self)@,
                    texture_target(old(self)@, texture),
                ) && h.slot() == old(self)@.render_targets.next_index() && h.gen()
                    == old(self)@.render_targets.next_generation(),
                None => !old(self)@.textures.live(texture) && final(self)@ == old(self)@,
            },
    {
        match self.textures.get(texture) {
            Some(t) => {
                let h = self.register_target(
                    VulkanRenderTarget {
                        image: t.image,
                        view: t.view,
                        format: t.format,
                        extent: t.extent,
                        layout: vk::IMAGE_LAYOUT_UNDEFINED,
                    },
                );
                Some(h)
            },
            None => None,
        }
    }

    /// Drops the registration of a render target. A dead handle is ignored.
    pub fn unregister_render_target(&mut self, h: TargetHandle)
        requires
            old(self)@.wf(),
        ensures
            final(self)@.wf(),
            final(self)@ == (if old(self)@.render_targets.live(h) {
                DeviceView {
                    render_targets: old(self)@.render_targets.remove(h.slot() as int),
                    ..old(self)@
                }
            } else {
                old(self)@
            }),
            !final(self)@.render_targets.live(h),
    {
        let ghost v = self@;
        let _ = self.render_targets.remove(h);
        proof {
            assert(self@ =~= if v.render_targets.live(h) {
                DeviceView { render_targets: v.render_targets.remove(h.slot() as int), ..v }
            } else {
                v
            });
            lifetime::lemma_same_tables_wf(v, self@);
        }
    }

    /// Notes the layout that the image of a live render target is in. If it is the image of a
    /// texture, it is the layout of the first layer of the texture's base level, too.
    pub fn set_target_layout(&mut self, h: TargetHandle, layout: i32)
        requires
            old(self)@.wf(),
            old(self)@.render_targets.live(h),
        ensures
            final(self)@.wf(),
            final(self)@ == (DeviceView {
                render_targets: old(self)@.render_targets.replace(
                    h.slot() as int,
                    (VulkanRenderTarget { layout, ..old(self)@.render_targets.value(h) }),
                ),
                base_layouts: base_layouts::noted(
                    old(self)@.base_layouts,
                    old(self)@.render_targets.value(h).image,
                    0,
                    layout,
                ),
                ..old(self)@
            }),
    {
        let ghost v = self@;
        if let Some(rt) = self.render_targets.get(h) {
            let moved = VulkanRenderTarget {
                image: rt.image,
                view: rt.view,
                format: rt.format,
                extent: rt.extent,
                layout,
            };
            let _ = self.render_targets.replace(h, moved);
            self.base_layouts.note(rt.image, 0, layout);
        }
        proof {
            assert(self@ =~= DeviceView {
                render_targets: v.render_targets.replace(
                    h.slot() as int,
                    VulkanRenderTarget { layout, ..v.render_targets.value(h) },
                ),
                base_layouts: base_layouts::noted(
                    v.base_layouts,
                    v.render_targets.value(h).image,
                    0,
                    layout,
                ),
                ..v
            });
            lifetime::lemma_same_tables_wf(v, self@);
        }
    }
}

// ── Laws ───────────────────────────────────────────────────────────────────────

/// A texture that is registered as a render target is rendered to through its own view, in its
/// format and size; no layout is claimed of it.
pub proof fn texture_target_is_the_texture(v: DeviceView, texture: TextureHandle)
    ensures
        ({
            let t = v.textures.value(texture);
            let rt = texture_target(v, texture);
            &&& rt.image == t.image
            &&& rt.view == t.view
            &&& rt.format == t.format
            &&& rt.extent.width == t.extent.width
            &&& rt.extent.height == t.extent.height
            &&& rt.layout == vk::IMAGE_LAYOUT_UNDEFINED
        }),
{
}

} // verus!
