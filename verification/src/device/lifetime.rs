//! Destruction of resources and completion of asynchronous submissions.
//!
//! A resource that is destroyed while submissions are in flight may still be in use by the GPU:
//! its handle is dead at once, but its Vulkan objects and its slot are kept until the last
//! submission in flight completes.
use vstd::prelude::*;

use crate::command::Cleanup;
use crate::device;
use crate::device::textures;
use crate::device::{
    BufferHandle, DeferredVulkanResource, DeviceView, PipelineHandle, SamplerHandle, ShaderHandle,
    Table, TextureHandle, VulkanDevice, VulkanPipeline,
};
use crate::slot_map;

verus! {

// ── Destruction ────────────────────────────────────────────────────────────────

/// Device after a buffer is destroyed.
pub open spec fn buffer_destroyed(v: DeviceView, h: BufferHandle) -> DeviceView {
    if !v.buffers.live(h) {
        v
    } else if v.in_flight != 0 {
        DeviceView {
            buffers: v.buffers.retire(h.slot() as int),
            deferred: v.deferred.push(
                DeferredVulkanResource::Buffer(h.slot(), v.buffers.value(h)),
            ),
            ..v
        }
    } else {
        DeviceView { buffers: v.buffers.remove(h.slot() as int), ..v }
    }
}

/// Flags of the texture table once slot `slot` is not bound.
pub open spec fn unbound(v: DeviceView, slot: u32) -> Seq<bool> {
    if slot < v.bindless.texture_capacity {
        v.bound_textures.update(slot as int, false)
    } else {
        v.bound_textures
    }
}

/// Device after a texture is taken out at once.
pub open spec fn texture_removed(v: DeviceView, h: TextureHandle) -> DeviceView {
    DeviceView {
        textures: v.textures.remove(h.slot() as int),
        base_layouts: v.base_layouts.remove(v.textures.value(h).image),
        ..v
    }
}

/// Device after a texture is destroyed. Its slot is no longer bound.
pub open spec fn texture_destroyed(v: DeviceView, h: TextureHandle) -> DeviceView {
    if !v.textures.live(h) {
        v
    } else if v.in_flight != 0 {
        DeviceView {
            textures: v.textures.retire(h.slot() as int),
            base_layouts: v.base_layouts.remove(v.textures.value(h).image),
            bound_textures: unbound(v, h.slot()),
            deferred: v.deferred.push(
                DeferredVulkanResource::Texture(h.slot(), v.textures.value(h)),
            ),
            ..v
        }
    } else {
        DeviceView { bound_textures: unbound(v, h.slot()), ..texture_removed(v, h) }
    }
}

/// Device after a sampler is destroyed.
pub open spec fn sampler_destroyed(v: DeviceView, h: SamplerHandle) -> DeviceView {
    if !v.samplers.live(h) {
        v
    } else if v.in_flight != 0 {
        DeviceView {
            samplers: v.samplers.retire(h.slot() as int),
            deferred: v.deferred.push(
                DeferredVulkanResource::Sampler(h.slot(), v.samplers.value(h)),
            ),
            ..v
        }
    } else {
        DeviceView { samplers: v.samplers.remove(h.slot() as int), ..v }
    }
}

/// Device after a pipeline is destroyed.
pub open spec fn pipeline_destroyed(v: DeviceView, h: PipelineHandle) -> DeviceView {
    if !v.pipelines.live(h) {
        v
    } else if v.in_flight != 0 {
        DeviceView {
            pipelines: v.pipelines.retire(h.slot() as int),
            deferred: v.deferred.push(
                DeferredVulkanResource::Pipeline(h.slot(), v.pipelines.value(h)),
            ),
            ..v
        }
    } else {
        DeviceView { pipelines: v.pipelines.remove(h.slot() as int), ..v }
    }
}

/// `steps` if the resource was live and may be destroyed at once.
pub open spec fn cleanup_now(v: DeviceView, live: bool, steps: Seq<Cleanup>) -> Seq<Cleanup> {
    if live && v.in_flight == 0 {
        steps
    } else {
        Seq::empty()
    }
}

// ── Completion ─────────────────────────────────────────────────────────────────

/// Device after the slots of the first `k` resources of `list` are released.
pub open spec fn released(v: DeviceView, list: Seq<DeferredVulkanResource>, k: int) -> DeviceView
    decreases k,
{
    if k <= 0 {
        v
    } else {
        let prev = released(v, list, k - 1);
        let i = list[k - 1].slot();
        match list[k - 1].table() {
            Table::Buffers => DeviceView { buffers: prev.buffers.release(i), ..prev },
            Table::Textures => DeviceView { textures: prev.textures.release(i), ..prev },
            Table::Samplers => DeviceView { samplers: prev.samplers.release(i), ..prev },
            Table::Pipelines => DeviceView { pipelines: prev.pipelines.release(i), ..prev },
        }
    }
}

/// Destruction of the first `k` resources of `list`, in order.
pub open spec fn cleanup_of(list: Seq<DeferredVulkanResource>, k: int) -> Seq<Cleanup>
    decreases k,
{
    if k <= 0 {
        Seq::empty()
    } else {
        cleanup_of(list, k - 1) + list[k - 1].cleanup()
    }
}

/// One submission completes.
pub open spec fn last_in_flight(v: DeviceView) -> bool {
    v.in_flight <= 1
}

/// Device after one submission completes. With the last one, the deferred resources go and
/// their slots are free.
pub open spec fn submission_completed(v: DeviceView) -> DeviceView {
    if last_in_flight(v) {
        DeviceView {
            in_flight: 0,
            deferred: Seq::empty(),
            ..released(v, v.deferred, v.deferred.len() as int)
        }
    } else {
        DeviceView { in_flight: (v.in_flight - 1) as u64, ..v }
    }
}

/// What is destroyed when one submission completes.
pub open spec fn completion_cleanup(v: DeviceView) -> Seq<Cleanup> {
    if last_in_flight(v) {
        cleanup_of(v.deferred, v.deferred.len() as int)
    } else {
        Seq::empty()
    }
}

fn push_cleanup(out: &mut Vec<Cleanup>, d: &DeferredVulkanResource)
    ensures
        final(out)@ == old(out)@ + d.cleanup(),
{
    match *d {
        DeferredVulkanResource::Buffer(_, b) => {
            if b.mapped != 0 {
                out.push(Cleanup::UnmapMemory(b.memory));
            }
            out.push(Cleanup::DestroyBuffer(b.buffer));
            out.push(Cleanup::FreeMemory(b.memory));
        },
        DeferredVulkanResource::Texture(_, t) => {
            out.push(Cleanup::DestroyImageView(t.view));
            out.push(Cleanup::DestroyImage(t.image));
            out.push(Cleanup::FreeMemory(t.memory));
        },
        DeferredVulkanResource::Sampler(_, s) => {
            out.push(Cleanup::DestroySampler(s));
        },
        DeferredVulkanResource::Pipeline(_, p) => {
            let (pipeline, layout) = p.handles();
            out.push(Cleanup::DestroyPipeline(pipeline));
            out.push(Cleanup::DestroyPipelineLayout(layout));
        },
    }
    assert(out@ =~= old(out)@ + d.cleanup());
}

impl VulkanDevice {
    /// Destroys a buffer, at once or when the submissions in flight have completed. A dead
    /// handle is ignored.
    pub fn destroy_buffer(&mut self, h: BufferHandle) -> (steps: Vec<Cleanup>)
        requires
            old(self)@.wf(),
        ensures
            final(self)@ == buffer_destroyed(old(self)@, h),
            final(self)@.wf(),
            !final(self)@.buffers.live(h),
            steps@ == cleanup_now(
                old(self)@,
                old(self)@.buffers.live(h),
                device::buffer_cleanup(old(self)@.buffers.value(h)),
            ),
    {
        let ghost v = self@;
        let mut steps: Vec<Cleanup> = Vec::new();
        if self.in_flight != 0 {
            if let Some(b) = self.buffers.retire(h) {
                self.deferred.push(DeferredVulkanResource::Buffer(h.index(), b));
            }
        } else if let Some(b) = self.buffers.remove(h) {
            push_cleanup(&mut steps, &DeferredVulkanResource::Buffer(h.index(), b));
        }
        proof {
            assert(self@ =~= buffer_destroyed(v, h));
            lemma_buffer_destroyed_wf(v, h);
            assert(steps@ =~= cleanup_now(
                v,
                v.buffers.live(h),
                device::buffer_cleanup(v.buffers.value(h)),
            ));
        }
        steps
    }

    /// Destroys a texture, at once or when the submissions in flight have completed. A dead
    /// handle is ignored.
    pub fn destroy_texture(&mut self, h: TextureHandle) -> (steps: Vec<Cleanup>)
        requires
            old(self)@.wf(),
        ensures
            final(self)@ == texture_destroyed(old(self)@, h),
            final(self)@.wf(),
            !final(self)@.textures.live(h),
            steps@ == cleanup_now(
                old(self)@,
                old(self)@.textures.live(h),
                device::texture_cleanup(old(self)@.textures.value(h)),
            ),
    {
        let ghost v = self@;
        let mut steps: Vec<Cleanup> = Vec::new();
        let mut removed = false;
        if self.in_flight != 0 {
            if let Some(t) = self.textures.retire(h) {
                self.base_layouts.forget(t.image);
                self.deferred.push(DeferredVulkanResource::Texture(h.index(), t));
                removed = true;
            }
        } else if let Some(t) = self.textures.remove(h) {
            self.base_layouts.forget(t.image);
            push_cleanup(&mut steps, &DeferredVulkanResource::Texture(h.index(), t));
            removed = true;
        }
        if removed && h.index() < self.bindless.texture_capacity {
            self.bound_textures.set(h.index() as usize, false);
        }
        proof {
            assert(self@ =~= texture_destroyed(v, h));
            lemma_texture_destroyed_wf(v, h);
            assert(steps@ =~= cleanup_now(
                v,
                v.textures.live(h),
                device::texture_cleanup(v.textures.value(h)),
            ));
        }
        steps
    }

    /// Destroys a sampler, at once or when the submissions in flight have completed. A dead
    /// handle is ignored.
    pub fn destroy_sampler(&mut self, h: SamplerHandle) -> (steps: Vec<Cleanup>)
        requires
            old(self)@.wf(),
        ensures
            final(self)@ == sampler_destroyed(old(self)@, h),
            final(self)@.wf(),
            !final(self)@.samplers.live(h),
            steps@ == cleanup_now(
                old(self)@,
                old(self)@.samplers.live(h),
                seq![Cleanup::DestroySampler(old(self)@.samplers.value(h))],
            ),
    {
        let ghost v = self@;
        let mut steps: Vec<Cleanup> = Vec::new();
        if self.in_flight != 0 {
            if let Some(s) = self.samplers.retire(h) {
                self.deferred.push(DeferredVulkanResource::Sampler(h.index(), s));
            }
        } else if let Some(s) = self.samplers.remove(h) {
            push_cleanup(&mut steps, &DeferredVulkanResource::Sampler(h.index(), s));
        }
        proof {
            assert(self@ =~= sampler_destroyed(v, h));
            lemma_sampler_destroyed_wf(v, h);
            assert(steps@ =~= cleanup_now(
                v,
                v.samplers.live(h),
                seq![Cleanup::DestroySampler(v.samplers.value(h))],
            ));
        }
        steps
    }

    /// Destroys a pipeline, at once or when the submissions in flight have completed. A dead
    /// handle is ignored.
    pub fn destroy_pipeline(&mut self, h: PipelineHandle) -> (steps: Vec<Cleanup>)
        requires
            old(self)@.wf(),
        ensures
            final(self)@ == pipeline_destroyed(old(self)@, h),
            final(self)@.wf(),
            !final(self)@.pipelines.live(h),
            steps@ == cleanup_now(
                old(self)@,
                old(self)@.pipelines.live(h),
                device::pipeline_cleanup(old(self)@.pipelines.value(h)),
            ),
    {
        let ghost v = self@;
        let mut steps: Vec<Cleanup> = Vec::new();
        if self.in_flight != 0 {
            if let Some(p) = self.pipelines.retire(h) {
                self.deferred.push(DeferredVulkanResource::Pipeline(h.index(), p));
            }
        } else if let Some(p) = self.pipelines.remove(h) {
            push_cleanup(&mut steps, &DeferredVulkanResource::Pipeline(h.index(), p));
        }
        proof {
            assert(self@ =~= pipeline_destroyed(v, h));
            lemma_pipeline_destroyed_wf(v, h);
            assert(steps@ =~= cleanup_now(
                v,
                v.pipelines.live(h),
                device::pipeline_cleanup(v.pipelines.value(h)),
            ));
        }
        steps
    }

    /// Destroys a shader module. Pipelines made from it keep working, so it never has to wait.
    pub fn destroy_shader(&mut self, h: ShaderHandle) -> (step: Option<Cleanup>)
        requires
            old(self)@.wf(),
        ensures
            final(self)@ == (if old(self)@.shaders.live(h) {
                DeviceView { shaders: old(self)@.shaders.remove(h.slot() as int), ..old(self)@ }
            } else {
                old(self)@
            }),
            final(self)@.wf(),
            !final(self)@.shaders.live(h),
            step == (if old(self)@.shaders.live(h) {
                Some(Cleanup::DestroyShaderModule(old(self)@.shaders.value(h)))
            } else {
                None
            }),
    {
        let ghost v = self@;
        let removed = self.shaders.remove(h);
        proof {
            assert(self@ =~= if v.shaders.live(h) {
                DeviceView { shaders: v.shaders.remove(h.slot() as int), ..v }
            } else {
                v
            });
            lemma_same_tables_wf(v, self@);
        }
        match removed {
            Some(m) => Some(Cleanup::DestroyShaderModule(m)),
            None => None,
        }
    }

    /// One submission has completed. With the last one, the deferred resources are destroyed
    /// and their slots are freed.
    pub fn release_in_flight(&mut self) -> (steps: Vec<Cleanup>)
        requires
            old(self)@.wf(),
        ensures
            final(self)@ == submission_completed(old(self)@),
            final(self)@.wf(),
            steps@ == completion_cleanup(old(self)@),
    {
        let ghost v = self@;
        let mut steps: Vec<Cleanup> = Vec::new();
        if self.in_flight > 1 {
            self.in_flight = self.in_flight - 1;
            proof {
                assert(self@ =~= submission_completed(v));
                lemma_same_tables_wf(v, self@);
            }
            return steps;
        }
        self.in_flight = 0;
        let mut list: Vec<DeferredVulkanResource> = Vec::new();
        core::mem::swap(&mut list, &mut self.deferred);
        let n: usize = list.len();
        let mut k: usize = 0;
        while k < n
            invariant
                n == list.len(),
                k <= n,
                list@ == v.deferred,
                v.wf(),
                self@ == (DeviceView {
                    in_flight: 0,
                    deferred: Seq::empty(),
                    ..released(v, v.deferred, k as int)
                }),
                self@.buffers.wf(),
                self@.textures.wf(),
                self@.samplers.wf(),
                self@.pipelines.wf(),
                steps@ == cleanup_of(v.deferred, k as int),
            decreases n - k,
        {
            let d = list[k];
            push_cleanup(&mut steps, &d);
            match d {
                DeferredVulkanResource::Buffer(i, _) => self.buffers.release_retired(i),
                DeferredVulkanResource::Texture(i, _) => self.textures.release_retired(i),
                DeferredVulkanResource::Sampler(i, _) => self.samplers.release_retired(i),
                DeferredVulkanResource::Pipeline(i, _) => self.pipelines.release_retired(i),
            }
            k += 1;
            assert(self@ =~= DeviceView {
                in_flight: 0,
                deferred: Seq::empty(),
                ..released(v, v.deferred, k as int)
            });
        }
        proof {
            lemma_completed_wf(v);
        }
        steps
    }
}

// ── Well-formedness ────────────────────────────────────────────────────────────

/// Everything that well-formedness of the resource tables depends on is the same.
pub(crate) proof fn lemma_same_tables_wf(v: DeviceView, n: DeviceView)
    requires
        v.wf(),
        n.memory_types == v.memory_types,
        n.buffers == v.buffers,
        n.textures == v.textures,
        n.samplers == v.samplers,
        n.pipelines == v.pipelines,
        n.bindless == v.bindless,
        n.bound_textures == v.bound_textures,
        n.deferred == v.deferred,
        n.in_flight == 0 ==> v.in_flight == 0,
        n.shaders.wf(),
        n.render_targets.wf(),
    ensures
        n.wf(),
{
    assert forall|k: int| 0 <= k < n.deferred.len() implies {
        let d = #[trigger] n.deferred[k];
        n.retired(d.table(), d.slot()) || n.spent(d.table(), d.slot())
    } by {
        let d = v.deferred[k];
        assert(v.retired(d.table(), d.slot()) || v.spent(d.table(), d.slot()));
    }
    assert forall|table: Table, i: int| #[trigger] n.retired(table, i) implies n.awaits(table, i) by {
        assert(v.retired(table, i));
        lemma_awaits(v, n, table, i);
    }
    assert forall|i: int| #[trigger] n.buffers.occupied(i) implies n.buffer_ok(i) by {
        assert(v.buffers.occupied(i));
    }
}

pub(crate) proof fn lemma_insert_texture_wf(v: DeviceView, entry: device::VulkanTexture)
    requires
        v.wf(),
        v.textures.has_room(),
        v.textures.insert(entry).wf(),
    ensures
        textures::texture_entered(v, entry).wf(),
{
    let n = textures::texture_entered(v, entry);
    if v.textures.free.len() > 0 {
        assert(v.textures.entries[v.textures.free[v.textures.free.len() - 1] as int].state is Free);
    }
    lemma_same_retired(v, n);
}

pub(crate) proof fn lemma_remove_texture_wf(v: DeviceView, h: TextureHandle)
    requires
        v.wf(),
        v.textures.live(h),
        v.textures.remove(h.slot() as int).wf(),
    ensures
        texture_removed(v, h).wf(),
{
    let n = texture_removed(v, h);
    lemma_same_retired(v, n);
}

pub(crate) proof fn lemma_insert_sampler_wf(v: DeviceView, sampler: u64)
    requires
        v.wf(),
        v.samplers.has_room(),
        v.samplers.insert(sampler).wf(),
    ensures
        (DeviceView { samplers: v.samplers.insert(sampler), ..v }).wf(),
{
    let n = DeviceView { samplers: v.samplers.insert(sampler), ..v };
    if v.samplers.free.len() > 0 {
        assert(v.samplers.entries[v.samplers.free[v.samplers.free.len() - 1] as int].state is Free);
    }
    lemma_same_retired(v, n);
}

pub(crate) proof fn lemma_insert_pipeline_wf(v: DeviceView, entry: device::VulkanPipeline)
    requires
        v.wf(),
        v.pipelines.has_room(),
        v.pipelines.insert(entry).wf(),
    ensures
        (DeviceView { pipelines: v.pipelines.insert(entry), ..v }).wf(),
{
    let n = DeviceView { pipelines: v.pipelines.insert(entry), ..v };
    if v.pipelines.free.len() > 0 {
        assert(v.pipelines.entries[v.pipelines.free[v.pipelines.free.len() - 1] as int].state is Free);
    }
    lemma_same_retired(v, n);
}

pub(crate) proof fn lemma_bound_wf(v: DeviceView, i: int)
    requires
        v.wf(),
        0 <= i < v.bound_textures.len(),
    ensures
        (DeviceView { bound_textures: v.bound_textures.update(i, true), ..v }).wf(),
{
    let n = DeviceView { bound_textures: v.bound_textures.update(i, true), ..v };
    lemma_same_retired(v, n);
}

/// Nothing that was retired or deferred changes, and neither do the buffers.
proof fn lemma_same_retired(v: DeviceView, n: DeviceView)
    requires
        v.deferred_ok(),
        v.buffers_ok(),
        n.in_flight == v.in_flight,
        n.deferred == v.deferred,
        n.buffers == v.buffers,
        n.bindless == v.bindless,
        forall|t: Table, i: int| #[trigger] n.retired(t, i) == v.retired(t, i),
        forall|t: Table, i: int| #[trigger] v.spent(t, i) ==> n.spent(t, i),
    ensures
        n.deferred_ok(),
        n.buffers_ok(),
{
    assert forall|k: int| 0 <= k < n.deferred.len() implies {
        let d = #[trigger] n.deferred[k];
        n.retired(d.table(), d.slot()) || n.spent(d.table(), d.slot())
    } by {
        let d = v.deferred[k];
        assert(v.retired(d.table(), d.slot()) || v.spent(d.table(), d.slot()));
        assert(n.retired(d.table(), d.slot()) == v.retired(d.table(), d.slot()));
    }
    assert forall|t: Table, i: int| #[trigger] n.retired(t, i) implies n.awaits(t, i) by {
        assert(v.retired(t, i));
        lemma_awaits(v, n, t, i);
    }
    assert forall|i: int| #[trigger] n.buffers.occupied(i) implies n.buffer_ok(i) by {
        assert(v.buffers.occupied(i));
    }
}

proof fn lemma_awaits(v: DeviceView, n: DeviceView, table: Table, i: int)
    requires
        v.awaits(table, i),
        v.deferred.len() <= n.deferred.len(),
        forall|k: int| 0 <= k < v.deferred.len() ==> #[trigger] n.deferred[k] == v.deferred[k],
    ensures
        n.awaits(table, i),
{
    let k = choose|k: int|
        0 <= k < v.deferred.len() && (#[trigger] v.deferred[k]).table() == table
            && v.deferred[k].slot() == i;
    assert(n.deferred[k].table() == table);
}

/// The deferred resources stay in order when slot `i0` of `t0` is taken out and, while
/// submissions are in flight, `d` is added for it.
proof fn lemma_taken_out_deferred_ok(v: DeviceView, n: DeviceView, t0: Table, i0: int)
    requires
        v.deferred_ok(),
        n.in_flight == v.in_flight,
        !v.retired(t0, i0),
        !v.spent(t0, i0),
        forall|t: Table, i: int|
            !(t == t0 && i == i0) ==> #[trigger] n.retired(t, i) == v.retired(t, i)
                && n.spent(t, i) == v.spent(t, i),
        v.in_flight == 0 ==> n.deferred == v.deferred && !n.retired(t0, i0),
        v.in_flight != 0 ==> n.deferred.len() == v.deferred.len() + 1 && n.deferred.last().table()
            == t0 && n.deferred.last().slot() == i0 && (n.retired(t0, i0) || n.spent(t0, i0)) && (
        forall|k: int| 0 <= k < v.deferred.len() ==> #[trigger] n.deferred[k] == v.deferred[k]),
    ensures
        n.deferred_ok(),
{
    assert forall|k: int| 0 <= k < n.deferred.len() implies {
        let d = #[trigger] n.deferred[k];
        n.retired(d.table(), d.slot()) || n.spent(d.table(), d.slot())
    } by {
        if k < v.deferred.len() {
            let d = v.deferred[k];
            assert(n.deferred[k] == d);
            assert(v.retired(d.table(), d.slot()) || v.spent(d.table(), d.slot()));
            assert(n.retired(d.table(), d.slot()) == v.retired(d.table(), d.slot()));
        }
    }
    assert forall|j: int, k: int| 0 <= j < k < n.deferred.len() implies (
    #[trigger] n.deferred[j]).table() != (#[trigger] n.deferred[k]).table() || n.deferred[j].slot()
        != n.deferred[k].slot() by {
        assert(n.deferred[j] == v.deferred[j]);
        if k < v.deferred.len() {
            assert(n.deferred[k] == v.deferred[k]);
        } else {
            let d = v.deferred[j];
            assert(v.retired(d.table(), d.slot()) || v.spent(d.table(), d.slot()));
        }
    }
    assert forall|t: Table, i: int| #[trigger] n.retired(t, i) implies n.awaits(t, i) by {
        if t == t0 && i == i0 {
            assert(n.deferred[n.deferred.len() - 1].table() == t0);
        } else {
            assert(v.retired(t, i));
            lemma_awaits(v, n, t, i);
        }
    }
}

proof fn lemma_buffer_destroyed_wf(v: DeviceView, h: BufferHandle)
    requires
        v.wf(),
        buffer_destroyed(v, h).buffers.wf(),
    ensures
        buffer_destroyed(v, h).wf(),
{
    let n = buffer_destroyed(v, h);
    if v.buffers.live(h) {
        lemma_taken_out_deferred_ok(v, n, Table::Buffers, h.slot() as int);
        assert forall|i: int| #[trigger] n.buffers.occupied(i) implies n.buffer_ok(i) by {
            assert(v.buffers.occupied(i));
        }
    }
}

proof fn lemma_texture_destroyed_wf(v: DeviceView, h: TextureHandle)
    requires
        v.wf(),
        texture_destroyed(v, h).textures.wf(),
    ensures
        texture_destroyed(v, h).wf(),
{
    let n = texture_destroyed(v, h);
    if v.textures.live(h) {
        lemma_taken_out_deferred_ok(v, n, Table::Textures, h.slot() as int);
            assert(n.buffers_ok()) by {
            assert forall|i: int| #[trigger] n.buffers.occupied(i) implies n.buffer_ok(i) by {
                assert(v.buffers.occupied(i));
            }
        }
    }
}

proof fn lemma_sampler_destroyed_wf(v: DeviceView, h: SamplerHandle)
    requires
        v.wf(),
        sampler_destroyed(v, h).samplers.wf(),
    ensures
        sampler_destroyed(v, h).wf(),
{
    let n = sampler_destroyed(v, h);
    if v.samplers.live(h) {
        lemma_taken_out_deferred_ok(v, n, Table::Samplers, h.slot() as int);
        assert(n.buffers_ok()) by {
            assert forall|i: int| #[trigger] n.buffers.occupied(i) implies n.buffer_ok(i) by {
                assert(v.buffers.occupied(i));
            }
        }
    }
}

proof fn lemma_pipeline_destroyed_wf(v: DeviceView, h: PipelineHandle)
    requires
        v.wf(),
        pipeline_destroyed(v, h).pipelines.wf(),
    ensures
        pipeline_destroyed(v, h).wf(),
{
    let n = pipeline_destroyed(v, h);
    if v.pipelines.live(h) {
        lemma_taken_out_deferred_ok(v, n, Table::Pipelines, h.slot() as int);
        assert(n.buffers_ok()) by {
            assert forall|i: int| #[trigger] n.buffers.occupied(i) implies n.buffer_ok(i) by {
                assert(v.buffers.occupied(i));
            }
        }
    }
}

/// Releasing slots changes retired slots to free ones and nothing else.
pub(crate) proof fn lemma_released(v: DeviceView, list: Seq<DeferredVulkanResource>, k: int)
    requires
        0 <= k <= list.len(),
    ensures
        ({
            let n = released(v, list, k);
            &&& n == (DeviceView {
                buffers: n.buffers,
                textures: n.textures,
                samplers: n.samplers,
                pipelines: n.pipelines,
                ..v
            })
            &&& forall|i: int| #[trigger] n.buffers.occupied(i) == v.buffers.occupied(i)
            &&& forall|i: int| #[trigger]
                n.buffers.occupied(i) ==> n.buffers.at(i) == v.buffers.at(i)
            &&& forall|t: Table, i: int| #[trigger]
                n.retired(t, i) ==> v.retired(t, i) && forall|j: int|
                    0 <= j < k ==> (#[trigger] list[j]).table() != t || list[j].slot() != i
        }),
    decreases k,
{
    if k > 0 {
        lemma_released(v, list, k - 1);
        let prev = released(v, list, k - 1);
        let n = released(v, list, k);
        assert forall|t: Table, i: int| #[trigger] n.retired(t, i) implies v.retired(t, i)
            && forall|j: int|
            0 <= j < k ==> (#[trigger] list[j]).table() != t || list[j].slot() != i by {
            assert(prev.retired(t, i));
        }
        assert forall|i: int| #[trigger] n.buffers.occupied(i) == v.buffers.occupied(i) by {
            assert(prev.buffers.occupied(i) == v.buffers.occupied(i));
        }
        assert forall|i: int| #[trigger] n.buffers.occupied(i) implies n.buffers.at(i)
            == v.buffers.at(i) by {
            assert(prev.buffers.occupied(i));
        }
    }
}

proof fn lemma_completed_wf(v: DeviceView)
    requires
        v.wf(),
        last_in_flight(v),
        submission_completed(v).buffers.wf(),
        submission_completed(v).textures.wf(),
        submission_completed(v).samplers.wf(),
        submission_completed(v).pipelines.wf(),
    ensures
        submission_completed(v).wf(),
{
    let n = submission_completed(v);
    let r = released(v, v.deferred, v.deferred.len() as int);
    lemma_released(v, v.deferred, v.deferred.len() as int);
    assert forall|t: Table, i: int| !#[trigger] n.retired(t, i) by {
        if n.retired(t, i) {
            assert(r.retired(t, i));
            assert(v.retired(t, i));
            assert(v.awaits(t, i));
            let k = choose|k: int|
                0 <= k < v.deferred.len() && (#[trigger] v.deferred[k]).table() == t
                    && v.deferred[k].slot() == i;
            assert(v.deferred[k].table() != t || v.deferred[k].slot() != i);
        }
    }
    assert forall|i: int| #[trigger] n.buffers.occupied(i) implies n.buffer_ok(i) by {
        assert(r.buffers.occupied(i));
        assert(v.buffers.occupied(i));
    }
}

// ── Laws ───────────────────────────────────────────────────────────────────────

/// A buffer that is destroyed while submissions are in flight is dead at once, but its slot is
/// not handed out again.
pub proof fn pending_buffer_keeps_its_slot(v: DeviceView, h: BufferHandle)
    requires
        v.wf(),
        v.in_flight != 0,
        v.buffers.live(h),
    ensures
        !buffer_destroyed(v, h).buffers.live(h),
        buffer_destroyed(v, h).buffers.next_index() != h.slot(),
{
    let n = buffer_destroyed(v, h).buffers;
    if n.free.len() > 0 {
        assert(v.buffers.entries[v.buffers.free[v.buffers.free.len() - 1] as int].state is Free);
    }
}

/// A texture that is destroyed while submissions are in flight is dead at once, but its slot
/// is not handed out again.
pub proof fn pending_texture_keeps_its_slot(v: DeviceView, h: TextureHandle)
    requires
        v.wf(),
        v.in_flight != 0,
        v.textures.live(h),
    ensures
        !texture_destroyed(v, h).textures.live(h),
        texture_destroyed(v, h).textures.next_index() != h.slot(),
{
    let n = texture_destroyed(v, h).textures;
    if n.free.len() > 0 {
        assert(v.textures.entries[v.textures.free[v.textures.free.len() - 1] as int].state is Free);
    }
}

/// A sampler that is destroyed while submissions are in flight is dead at once, but its slot
/// is not handed out again.
pub proof fn pending_sampler_keeps_its_slot(v: DeviceView, h: SamplerHandle)
    requires
        v.wf(),
        v.in_flight != 0,
        v.samplers.live(h),
    ensures
        !sampler_destroyed(v, h).samplers.live(h),
        sampler_destroyed(v, h).samplers.next_index() != h.slot(),
{
    let n = sampler_destroyed(v, h).samplers;
    if n.free.len() > 0 {
        assert(v.samplers.entries[v.samplers.free[v.samplers.free.len() - 1] as int].state is Free);
    }
}

/// A pipeline that is destroyed while submissions are in flight is dead at once, but its slot
/// is not handed out again.
pub proof fn pending_pipeline_keeps_its_slot(v: DeviceView, h: PipelineHandle)
    requires
        v.wf(),
        v.in_flight != 0,
        v.pipelines.live(h),
    ensures
        !pipeline_destroyed(v, h).pipelines.live(h),
        pipeline_destroyed(v, h).pipelines.next_index() != h.slot(),
{
    let n = pipeline_destroyed(v, h).pipelines;
    if n.free.len() > 0 {
        assert(v.pipelines.entries[v.pipelines.free[v.pipelines.free.len() - 1] as int].state is Free);
    }
}

/// A retired slot is handed out by no insertion, in any state of the device.
pub proof fn retired_slots_are_not_reused(v: DeviceView, i: int)
    requires
        v.wf(),
    ensures
        v.retired(Table::Buffers, i) ==> v.buffers.next_index() != i,
        v.retired(Table::Textures, i) ==> v.textures.next_index() != i,
        v.retired(Table::Samplers, i) ==> v.samplers.next_index() != i,
        v.retired(Table::Pipelines, i) ==> v.pipelines.next_index() != i,
{
    if v.retired(Table::Buffers, i) {
        slot_map::retired_slot_is_not_reused(v.buffers, i);
    }
    if v.retired(Table::Textures, i) {
        slot_map::retired_slot_is_not_reused(v.textures, i);
    }
    if v.retired(Table::Samplers, i) {
        slot_map::retired_slot_is_not_reused(v.samplers, i);
    }
    if v.retired(Table::Pipelines, i) {
        slot_map::retired_slot_is_not_reused(v.pipelines, i);
    }
}

/// While other submissions are in flight, a completion destroys nothing and releases no slot.
pub proof fn earlier_completion_releases_nothing(v: DeviceView, t: Table, i: int)
    requires
        v.in_flight > 1,
    ensures
        completion_cleanup(v).len() == 0,
        submission_completed(v).deferred == v.deferred,
        submission_completed(v).retired(t, i) == v.retired(t, i),
{
}

/// The last completion leaves no resource deferred and no slot retired.
pub proof fn last_completion_releases_everything(v: DeviceView, t: Table, i: int)
    requires
        v.wf(),
        last_in_flight(v),
    ensures
        submission_completed(v).in_flight == 0,
        submission_completed(v).deferred.len() == 0,
        !submission_completed(v).retired(t, i),
{
    let n = submission_completed(v);
    let r = released(v, v.deferred, v.deferred.len() as int);
    lemma_released(v, v.deferred, v.deferred.len() as int);
    if n.retired(t, i) {
        assert(r.retired(t, i));
        assert(v.awaits(t, i));
        let k = choose|k: int|
            0 <= k < v.deferred.len() && (#[trigger] v.deferred[k]).table() == t
                && v.deferred[k].slot() == i;
        assert(v.deferred[k].table() != t || v.deferred[k].slot() != i);
    }
}

/// The last completion destroys every object of every deferred resource.
pub proof fn last_completion_destroys_deferred(v: DeviceView, k: int, c: Cleanup)
    requires
        last_in_flight(v),
        0 <= k < v.deferred.len(),
        v.deferred[k].cleanup().contains(c),
    ensures
        completion_cleanup(v).contains(c),
{
    lemma_cleanup_of(v.deferred, v.deferred.len() as int, k, c);
}

proof fn lemma_cleanup_of(list: Seq<DeferredVulkanResource>, n: int, k: int, c: Cleanup)
    requires
        0 <= k < n <= list.len(),
        list[k].cleanup().contains(c),
    ensures
        cleanup_of(list, n).contains(c),
    decreases n,
{
    let rest = cleanup_of(list, n - 1);
    let own = list[n - 1].cleanup();
    let all = cleanup_of(list, n);
    if k == n - 1 {
        let i = choose|i: int| 0 <= i < own.len() && own[i] == c;
        assert(all[rest.len() + i] == c);
    } else {
        lemma_cleanup_of(list, n - 1, k, c);
        let i = choose|i: int| 0 <= i < rest.len() && rest[i] == c;
        assert(all[i] == c);
    }
}

/// A device without submissions in flight has nothing deferred, and each of its slots is in
/// use, free, or used up.
pub proof fn idle_device_defers_nothing(v: DeviceView, t: Table, i: int)
    requires
        v.wf(),
        v.in_flight == 0,
    ensures
        v.deferred.len() == 0,
        !v.retired(t, i),
{
    if v.retired(t, i) {
        assert(v.awaits(t, i));
    }
}

/// The objects of a resource go in an order that Vulkan allows, each once and nothing else:
/// memory that is mapped is unmapped first, a view goes before its image, what lies in memory
/// before the memory, and a pipeline before its layout.
pub proof fn resources_go_in_order(d: DeferredVulkanResource)
    ensures
        ({
            let steps = d.cleanup();
            match d {
                DeferredVulkanResource::Buffer(_, b) => if b.mapped != 0 {
                    &&& steps.len() == 3
                    &&& steps[0] == Cleanup::UnmapMemory(b.memory)
                    &&& steps[1] == Cleanup::DestroyBuffer(b.buffer)
                    &&& steps[2] == Cleanup::FreeMemory(b.memory)
                } else {
                    &&& steps.len() == 2
                    &&& steps[0] == Cleanup::DestroyBuffer(b.buffer)
                    &&& steps[1] == Cleanup::FreeMemory(b.memory)
                },
                DeferredVulkanResource::Texture(_, t) => {
                    &&& steps.len() == 3
                    &&& steps[0] == Cleanup::DestroyImageView(t.view)
                    &&& steps[1] == Cleanup::DestroyImage(t.image)
                    &&& steps[2] == Cleanup::FreeMemory(t.memory)
                },
                DeferredVulkanResource::Sampler(_, s) => {
                    &&& steps.len() == 1
                    &&& steps[0] == Cleanup::DestroySampler(s)
                },
                DeferredVulkanResource::Pipeline(_, p) => {
                    let (pipeline, layout) = match p {
                        VulkanPipeline::Compute { layout, pipeline } => (pipeline, layout),
                        VulkanPipeline::Graphics { layout, pipeline } => (pipeline, layout),
                    };
                    &&& steps.len() == 2
                    &&& steps[0] == Cleanup::DestroyPipeline(pipeline)
                    &&& steps[1] == Cleanup::DestroyPipelineLayout(layout)
                },
            }
        }),
        d matches DeferredVulkanResource::Buffer(i, b) ==> d.slot() == i && d.table()
            is Buffers && d.cleanup() == device::buffer_cleanup(b),
        d matches DeferredVulkanResource::Texture(i, t) ==> d.slot() == i && d.table()
            is Textures && d.cleanup() == device::texture_cleanup(t),
        d matches DeferredVulkanResource::Sampler(i, _) ==> d.slot() == i && d.table()
            is Samplers,
        d matches DeferredVulkanResource::Pipeline(i, p) ==> d.slot() == i && d.table()
            is Pipelines && d.cleanup() == device::pipeline_cleanup(p),
{
}

/// A live resource that is destroyed is dead at once. While something is in flight it is set
/// aside as the last of the deferred resources, with its slot and its objects; else it is not
/// deferred. Nothing else of the device changes but its own table and, of a texture, the layout
/// of its image and whether its slot is bound.
pub proof fn destruction_defers_exactly_one(
    v: DeviceView,
    b: BufferHandle,
    t: TextureHandle,
    s: SamplerHandle,
    p: PipelineHandle,
)
    requires
        v.wf(),
    ensures
        v.buffers.live(b) ==> {
            let n = buffer_destroyed(v, b);
            &&& !n.buffers.live(b)
            &&& n.deferred == if v.in_flight != 0 {
                v.deferred.push(DeferredVulkanResource::Buffer(b.slot(), v.buffers.value(b)))
            } else {
                v.deferred
            }
            &&& n == (DeviceView { buffers: n.buffers, deferred: n.deferred, ..v })
        },
        v.textures.live(t) ==> {
            let n = texture_destroyed(v, t);
            &&& !n.textures.live(t)
            &&& n.deferred == if v.in_flight != 0 {
                v.deferred.push(DeferredVulkanResource::Texture(t.slot(), v.textures.value(t)))
            } else {
                v.deferred
            }
            &&& !n.base_layouts.contains_key(v.textures.value(t).image)
            &&& t.slot() < v.bindless.texture_capacity ==> !n.bound_textures[t.slot() as int]
            &&& forall|i: int|
                0 <= i < v.bound_textures.len() && i != t.slot() ==> #[trigger] n.bound_textures[i]
                    == v.bound_textures[i]
            &&& n == (DeviceView {
                textures: n.textures,
                deferred: n.deferred,
                base_layouts: n.base_layouts,
                bound_textures: n.bound_textures,
                ..v
            })
        },
        v.samplers.live(s) ==> {
            let n = sampler_destroyed(v, s);
            &&& !n.samplers.live(s)
            &&& n.deferred == if v.in_flight != 0 {
                v.deferred.push(DeferredVulkanResource::Sampler(s.slot(), v.samplers.value(s)))
            } else {
                v.deferred
            }
            &&& n == (DeviceView { samplers: n.samplers, deferred: n.deferred, ..v })
        },
        v.pipelines.live(p) ==> {
            let n = pipeline_destroyed(v, p);
            &&& !n.pipelines.live(p)
            &&& n.deferred == if v.in_flight != 0 {
                v.deferred.push(DeferredVulkanResource::Pipeline(p.slot(), v.pipelines.value(p)))
            } else {
                v.deferred
            }
            &&& n == (DeviceView { pipelines: n.pipelines, deferred: n.deferred, ..v })
        },
        !v.buffers.live(b) ==> buffer_destroyed(v, b) == v,
        !v.textures.live(t) ==> texture_destroyed(v, t) == v,
        !v.samplers.live(s) ==> sampler_destroyed(v, s) == v,
        !v.pipelines.live(p) ==> pipeline_destroyed(v, p) == v,
{
}

/// Objects are destroyed at once exactly where the handle was live and nothing is in flight.
pub proof fn only_idle_devices_destroy_at_once(v: DeviceView, live: bool, steps: Seq<Cleanup>)
    ensures
        live && v.in_flight == 0 ==> cleanup_now(v, live, steps) == steps,
        !live || v.in_flight > 0 ==> cleanup_now(v, live, steps).len() == 0,
{
}

/// Each completion takes one submission off those in flight. The last one destroys all that was
/// deferred, in the order in which it was, and frees the slots; an earlier one changes nothing
/// else.
pub proof fn completion_counts_down(v: DeviceView)
    ensures
        v.in_flight > 1 ==> submission_completed(v) == (DeviceView {
            in_flight: (v.in_flight - 1) as u64,
            ..v
        }),
        v.in_flight <= 1 ==> submission_completed(v).in_flight == 0 && submission_completed(
            v,
        ).deferred.len() == 0,
        v.in_flight <= 1 && v.deferred.len() > 0 ==> {
            let first = v.deferred[0].cleanup();
            completion_cleanup(v).take(first.len() as int) == first
        },
        v.in_flight <= 1 ==> completion_cleanup(v).len() == cleanup_len(
            v.deferred,
            v.deferred.len() as int,
        ),
{
    lemma_cleanup_len(v.deferred, v.deferred.len() as int);
    if v.deferred.len() > 0 {
        lemma_cleanup_prefix(v.deferred, v.deferred.len() as int);
    }
}

/// Number of objects of the first `k` resources of `list`.
pub open spec fn cleanup_len(list: Seq<DeferredVulkanResource>, k: int) -> nat
    decreases k,
{
    if k <= 0 {
        0
    } else {
        cleanup_len(list, k - 1) + list[k - 1].cleanup().len()
    }
}

proof fn lemma_cleanup_len(list: Seq<DeferredVulkanResource>, k: int)
    ensures
        cleanup_of(list, k).len() == cleanup_len(list, k),
    decreases k,
{
    if k > 0 {
        lemma_cleanup_len(list, k - 1);
    }
}

proof fn lemma_cleanup_prefix(list: Seq<DeferredVulkanResource>, k: int)
    requires
        1 <= k <= list.len(),
    ensures
        list[0].cleanup().len() <= cleanup_of(list, k).len(),
        cleanup_of(list, k).take(list[0].cleanup().len() as int) == list[0].cleanup(),
    decreases k,
{
    let first = list[0].cleanup();
    if k > 1 {
        lemma_cleanup_prefix(list, k - 1);
        assert(cleanup_of(list, k).take(first.len() as int) =~= cleanup_of(list, k - 1).take(
            first.len() as int,
        ));
    } else {
        assert(cleanup_of(list, 0) =~= Seq::<Cleanup>::empty());
        assert(cleanup_of(list, 1).take(first.len() as int) =~= first);
    }
}

} // verus!
