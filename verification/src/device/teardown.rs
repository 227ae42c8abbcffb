//! Destruction of everything that a device holds.
use vstd::prelude::*;

use crate::command::Cleanup;
use crate::device;
use crate::device::{destroy_buffer_steps, DeviceView, VulkanBuffer, VulkanDevice, VulkanPipeline, VulkanTexture};
use crate::slot_map::Slots;

verus! {

/// Destruction of the first `k` buffers of a list.
pub open spec fn buffers_cleanup(list: Seq<VulkanBuffer>, k: int) -> Seq<Cleanup>
    decreases k,
{
    if k <= 0 {
        Seq::empty()
    } else {
        buffers_cleanup(list, k - 1) + device::buffer_cleanup(list[k - 1])
    }
}

/// Destruction of the first `k` textures of a list.
pub open spec fn textures_cleanup(list: Seq<VulkanTexture>, k: int) -> Seq<Cleanup>
    decreases k,
{
    if k <= 0 {
        Seq::empty()
    } else {
        textures_cleanup(list, k - 1) + device::texture_cleanup(list[k - 1])
    }
}

/// Destruction of the first `k` pipelines of a list.
pub open spec fn pipelines_cleanup(list: Seq<VulkanPipeline>, k: int) -> Seq<Cleanup>
    decreases k,
{
    if k <= 0 {
        Seq::empty()
    } else {
        pipelines_cleanup(list, k - 1) + device::pipeline_cleanup(list[k - 1])
    }
}

pub open spec fn samplers_cleanup(list: Seq<u64>) -> Seq<Cleanup> {
    list.map_values(|s: u64| Cleanup::DestroySampler(s))
}

pub open spec fn shaders_cleanup(list: Seq<u64>) -> Seq<Cleanup> {
    list.map_values(|m: u64| Cleanup::DestroyShaderModule(m))
}

/// Destruction of what a device holds: buffers, textures, samplers, shaders and pipelines, each
/// in the order of their slots, then the pipeline cache and the bindless tables. The descriptor
/// set goes with its pool. Deferred resources are left to the submissions that they wait for.
pub open spec fn device_cleanup(v: DeviceView) -> Seq<Cleanup> {
    let buffers = v.buffers.values(v.buffers.entries.len() as int);
    let textures = v.textures.values(v.textures.entries.len() as int);
    let pipelines = v.pipelines.values(v.pipelines.entries.len() as int);
    buffers_cleanup(buffers, buffers.len() as int) + textures_cleanup(
        textures,
        textures.len() as int,
    ) + samplers_cleanup(v.samplers.values(v.samplers.entries.len() as int)) + shaders_cleanup(
        v.shaders.values(v.shaders.entries.len() as int),
    ) + pipelines_cleanup(pipelines, pipelines.len() as int) + seq![
        Cleanup::DestroyPipelineCache(v.info.pipeline_cache),
        Cleanup::DestroyDescriptorPool(v.bindless.pool),
        Cleanup::DestroyDescriptorSetLayout(v.bindless.layout),
    ]
}

/// Destruction of the pooled fences.
pub open spec fn fences_cleanup(v: DeviceView) -> Seq<Cleanup> {
    v.free_fences.map_values(|f: u64| Cleanup::DestroyFence(f))
}

fn append_buffers(steps: &mut Vec<Cleanup>, list: &Vec<VulkanBuffer>)
    ensures
        final(steps)@ == old(steps)@ + buffers_cleanup(list@, list.len() as int),
{
    let ghost first = steps@;
    let n: usize = list.len();
    let mut i: usize = 0;
    while i < n
        invariant
            n == list.len(),
            i <= n,
            steps@ == first + buffers_cleanup(list@, i as int),
        decreases n - i,
    {
        let mut more = destroy_buffer_steps(&list[i]);
        steps.append(&mut more);
        i += 1;
        assert(steps@ =~= first + buffers_cleanup(list@, i as int));
    }
}

fn append_textures(steps: &mut Vec<Cleanup>, list: &Vec<VulkanTexture>)
    ensures
        final(steps)@ == old(steps)@ + textures_cleanup(list@, list.len() as int),
{
    let ghost first = steps@;
    let n: usize = list.len();
    let mut i: usize = 0;
    while i < n
        invariant
            n == list.len(),
            i <= n,
            steps@ == first + textures_cleanup(list@, i as int),
        decreases n - i,
    {
        steps.push(Cleanup::DestroyImageView(list[i].view));
        steps.push(Cleanup::DestroyImage(list[i].image));
        steps.push(Cleanup::FreeMemory(list[i].memory));
        i += 1;
        assert(steps@ =~= first + textures_cleanup(list@, i as int));
    }
}

fn append_pipelines(steps: &mut Vec<Cleanup>, list: &Vec<VulkanPipeline>)
    ensures
        final(steps)@ == old(steps)@ + pipelines_cleanup(list@, list.len() as int),
{
    let ghost first = steps@;
    let n: usize = list.len();
    let mut i: usize = 0;
    while i < n
        invariant
            n == list.len(),
            i <= n,
            steps@ == first + pipelines_cleanup(list@, i as int),
        decreases n - i,
    {
        let (pipeline, layout) = list[i].handles();
        steps.push(Cleanup::DestroyPipeline(pipeline));
        steps.push(Cleanup::DestroyPipelineLayout(layout));
        i += 1;
        assert(steps@ =~= first + pipelines_cleanup(list@, i as int));
    }
}

impl VulkanDevice {
    /// Destruction of what the device holds, once it is idle.
    pub fn destroy(&self) -> (steps: Vec<Cleanup>)
        ensures
            steps@ == device_cleanup(self@),
    {
        let mut steps: Vec<Cleanup> = Vec::new();
        append_buffers(&mut steps, &self.buffers.all());
        append_textures(&mut steps, &self.textures.all());
        let samplers = self.samplers.all();
        let ghost s0 = steps@;
        let mut i: usize = 0;
        while i < samplers.len()
            invariant
                i <= samplers.len(),
                steps@ == s0 + samplers_cleanup(samplers@.take(i as int)),
            decreases samplers.len() - i,
        {
            steps.push(Cleanup::DestroySampler(samplers[i]));
            i += 1;
            assert(steps@ =~= s0 + samplers_cleanup(samplers@.take(i as int)));
        }
        assert(samplers@.take(i as int) =~= samplers@);
        let shaders = self.shaders.all();
        let ghost s1 = steps@;
        let mut j: usize = 0;
        while j < shaders.len()
            invariant
                j <= shaders.len(),
                steps@ == s1 + shaders_cleanup(shaders@.take(j as int)),
            decreases shaders.len() - j,
        {
            steps.push(Cleanup::DestroyShaderModule(shaders[j]));
            j += 1;
            assert(steps@ =~= s1 + shaders_cleanup(shaders@.take(j as int)));
        }
        assert(shaders@.take(j as int) =~= shaders@);
        append_pipelines(&mut steps, &self.pipelines.all());
        steps.push(Cleanup::DestroyPipelineCache(self.info.pipeline_cache));
        steps.push(Cleanup::DestroyDescriptorPool(self.bindless.pool));
        steps.push(Cleanup::DestroyDescriptorSetLayout(self.bindless.layout));
        assert(steps@ =~= device_cleanup(self@));
        steps
    }

    /// Destruction of the pooled fences, once no submission is left.
    pub fn destroy_fences(&self) -> (steps: Vec<Cleanup>)
        ensures
            steps@ == fences_cleanup(self@),
    {
        let mut steps: Vec<Cleanup> = Vec::new();
        let n: usize = self.free_fences.len();
        let mut k: usize = 0;
        while k < n
            invariant
                n == self.free_fences.len(),
                k <= n,
                steps@ == self.free_fences@.take(k as int).map_values(
                    |f: u64| Cleanup::DestroyFence(f),
                ),
            decreases n - k,
        {
            steps.push(Cleanup::DestroyFence(self.free_fences[k]));
            k += 1;
            assert(steps@ =~= self.free_fences@.take(k as int).map_values(
                |f: u64| Cleanup::DestroyFence(f),
            ));
        }
        assert(self.free_fences@.take(n as int) =~= self.free_fences@);
        steps
    }
}

// ── Laws ───────────────────────────────────────────────────────────────────────

proof fn lemma_values_contain<T>(slots: Slots<T>, k: int, i: int)
    requires
        slots.occupied(i),
        i < k <= slots.entries.len(),
    ensures
        slots.values(k).contains(slots.at(i)),
    decreases k,
{
    let now = slots.values(k);
    if i == k - 1 {
        assert(now[now.len() - 1] == slots.at(i));
    } else {
        lemma_values_contain(slots, k - 1, i);
        let before = slots.values(k - 1);
        let j = choose|j: int| 0 <= j < before.len() && before[j] == slots.at(i);
        assert(now[j] == slots.at(i));
    }
}

proof fn lemma_buffers_contain(list: Seq<VulkanBuffer>, k: int, i: int, c: Cleanup)
    requires
        0 <= i < k <= list.len(),
        device::buffer_cleanup(list[i]).contains(c),
    ensures
        buffers_cleanup(list, k).contains(c),
    decreases k,
{
    let before = buffers_cleanup(list, k - 1);
    let own = device::buffer_cleanup(list[k - 1]);
    let now = buffers_cleanup(list, k);
    if i == k - 1 {
        let j = choose|j: int| 0 <= j < own.len() && own[j] == c;
        assert(now[before.len() + j] == c);
    } else {
        lemma_buffers_contain(list, k - 1, i, c);
        let j = choose|j: int| 0 <= j < before.len() && before[j] == c;
        assert(now[j] == c);
    }
}

proof fn lemma_textures_contain(list: Seq<VulkanTexture>, k: int, i: int, c: Cleanup)
    requires
        0 <= i < k <= list.len(),
        device::texture_cleanup(list[i]).contains(c),
    ensures
        textures_cleanup(list, k).contains(c),
    decreases k,
{
    let before = textures_cleanup(list, k - 1);
    let own = device::texture_cleanup(list[k - 1]);
    let now = textures_cleanup(list, k);
    if i == k - 1 {
        let j = choose|j: int| 0 <= j < own.len() && own[j] == c;
        assert(now[before.len() + j] == c);
    } else {
        lemma_textures_contain(list, k - 1, i, c);
        let j = choose|j: int| 0 <= j < before.len() && before[j] == c;
        assert(now[j] == c);
    }
}

proof fn lemma_pipelines_contain(list: Seq<VulkanPipeline>, k: int, i: int, c: Cleanup)
    requires
        0 <= i < k <= list.len(),
        device::pipeline_cleanup(list[i]).contains(c),
    ensures
        pipelines_cleanup(list, k).contains(c),
    decreases k,
{
    let before = pipelines_cleanup(list, k - 1);
    let own = device::pipeline_cleanup(list[k - 1]);
    let now = pipelines_cleanup(list, k);
    if i == k - 1 {
        let j = choose|j: int| 0 <= j < own.len() && own[j] == c;
        assert(now[before.len() + j] == c);
    } else {
        lemma_pipelines_contain(list, k - 1, i, c);
        let j = choose|j: int| 0 <= j < before.len() && before[j] == c;
        assert(now[j] == c);
    }
}

proof fn lemma_in_parts(
    a: Seq<Cleanup>,
    b: Seq<Cleanup>,
    c: Seq<Cleanup>,
    d: Seq<Cleanup>,
    e: Seq<Cleanup>,
    f: Seq<Cleanup>,
    x: Cleanup,
)
    requires
        a.contains(x) || b.contains(x) || c.contains(x) || d.contains(x) || e.contains(x)
            || f.contains(x),
    ensures
        (a + b + c + d + e + f).contains(x),
{
    let all = a + b + c + d + e + f;
    if a.contains(x) {
        let i = choose|i: int| 0 <= i < a.len() && a[i] == x;
        assert(all[i] == x);
    } else if b.contains(x) {
        let i = choose|i: int| 0 <= i < b.len() && b[i] == x;
        assert(all[a.len() + i] == x);
    } else if c.contains(x) {
        let i = choose|i: int| 0 <= i < c.len() && c[i] == x;
        assert(all[a.len() + b.len() + i] == x);
    } else if d.contains(x) {
        let i = choose|i: int| 0 <= i < d.len() && d[i] == x;
        assert(all[a.len() + b.len() + c.len() + i] == x);
    } else if e.contains(x) {
        let i = choose|i: int| 0 <= i < e.len() && e[i] == x;
        assert(all[a.len() + b.len() + c.len() + d.len() + i] == x);
    } else {
        let i = choose|i: int| 0 <= i < f.len() && f[i] == x;
        assert(all[a.len() + b.len() + c.len() + d.len() + e.len() + i] == x);
    }
}

/// Tearing a device down destroys every object of every live resource, and last the pipeline
/// cache, the descriptor pool and the layout of its set.
pub proof fn teardown_leaves_nothing(v: DeviceView, i: int)
    ensures
        ({
            let steps = device_cleanup(v);
            &&& v.buffers.occupied(i) ==> {
                let b = v.buffers.at(i);
                &&& steps.contains(Cleanup::DestroyBuffer(b.buffer))
                &&& steps.contains(Cleanup::FreeMemory(b.memory))
                &&& b.mapped != 0 ==> steps.contains(Cleanup::UnmapMemory(b.memory))
            }
            &&& v.textures.occupied(i) ==> {
                let t = v.textures.at(i);
                &&& steps.contains(Cleanup::DestroyImageView(t.view))
                &&& steps.contains(Cleanup::DestroyImage(t.image))
                &&& steps.contains(Cleanup::FreeMemory(t.memory))
            }
            &&& v.samplers.occupied(i) ==> steps.contains(Cleanup::DestroySampler(v.samplers.at(i)))
            &&& v.shaders.occupied(i) ==> steps.contains(
                Cleanup::DestroyShaderModule(v.shaders.at(i)),
            )
            &&& v.pipelines.occupied(i) ==> match v.pipelines.at(i) {
                VulkanPipeline::Compute { layout, pipeline } => steps.contains(
                    Cleanup::DestroyPipeline(pipeline),
                ) && steps.contains(Cleanup::DestroyPipelineLayout(layout)),
                VulkanPipeline::Graphics { layout, pipeline } => steps.contains(
                    Cleanup::DestroyPipeline(pipeline),
                ) && steps.contains(Cleanup::DestroyPipelineLayout(layout)),
            }
            &&& steps.len() >= 3
            &&& steps[steps.len() - 3] == Cleanup::DestroyPipelineCache(v.info.pipeline_cache)
            &&& steps[steps.len() - 2] == Cleanup::DestroyDescriptorPool(v.bindless.pool)
            &&& steps[steps.len() - 1] == Cleanup::DestroyDescriptorSetLayout(v.bindless.layout)
        }),
{
    let buffers = v.buffers.values(v.buffers.entries.len() as int);
    let textures = v.textures.values(v.textures.entries.len() as int);
    let samplers = v.samplers.values(v.samplers.entries.len() as int);
    let shaders = v.shaders.values(v.shaders.entries.len() as int);
    let pipelines = v.pipelines.values(v.pipelines.entries.len() as int);
    let a = buffers_cleanup(buffers, buffers.len() as int);
    let b = textures_cleanup(textures, textures.len() as int);
    let c = samplers_cleanup(samplers);
    let d = shaders_cleanup(shaders);
    let e = pipelines_cleanup(pipelines, pipelines.len() as int);
    let f = seq![
        Cleanup::DestroyPipelineCache(v.info.pipeline_cache),
        Cleanup::DestroyDescriptorPool(v.bindless.pool),
        Cleanup::DestroyDescriptorSetLayout(v.bindless.layout),
    ];
    let steps = device_cleanup(v);
    assert(steps == a + b + c + d + e + f);
    assert forall|x: Cleanup|
        a.contains(x) || b.contains(x) || c.contains(x) || d.contains(x) || e.contains(
            x,
        ) implies #[trigger] steps.contains(x) by {
        lemma_in_parts(a, b, c, d, e, f, x);
    }
    if v.buffers.occupied(i) {
        lemma_values_contain(v.buffers, v.buffers.entries.len() as int, i);
        let entry = v.buffers.at(i);
        let j = choose|j: int| 0 <= j < buffers.len() && buffers[j] == entry;
        let own = device::buffer_cleanup(entry);
        let n = own.len() as int;
        assert(own[n - 2] == Cleanup::DestroyBuffer(entry.buffer));
        assert(own[n - 1] == Cleanup::FreeMemory(entry.memory));
        lemma_buffers_contain(buffers, buffers.len() as int, j, own[n - 2]);
        lemma_buffers_contain(buffers, buffers.len() as int, j, own[n - 1]);
        lemma_buffers_contain(buffers, buffers.len() as int, j, own[0]);
    }
    if v.textures.occupied(i) {
        lemma_values_contain(v.textures, v.textures.entries.len() as int, i);
        let entry = v.textures.at(i);
        let j = choose|j: int| 0 <= j < textures.len() && textures[j] == entry;
        let own = device::texture_cleanup(entry);
        lemma_textures_contain(textures, textures.len() as int, j, own[0]);
        lemma_textures_contain(textures, textures.len() as int, j, own[1]);
        lemma_textures_contain(textures, textures.len() as int, j, own[2]);
    }
    if v.samplers.occupied(i) {
        lemma_values_contain(v.samplers, v.samplers.entries.len() as int, i);
        let j = choose|j: int| 0 <= j < samplers.len() && samplers[j] == v.samplers.at(i);
        assert(c[j] == Cleanup::DestroySampler(v.samplers.at(i)));
        assert(c.contains(Cleanup::DestroySampler(v.samplers.at(i))));
    }
    if v.shaders.occupied(i) {
        lemma_values_contain(v.shaders, v.shaders.entries.len() as int, i);
        let j = choose|j: int| 0 <= j < shaders.len() && shaders[j] == v.shaders.at(i);
        assert(d[j] == Cleanup::DestroyShaderModule(v.shaders.at(i)));
        assert(d.contains(Cleanup::DestroyShaderModule(v.shaders.at(i))));
    }
    if v.pipelines.occupied(i) {
        lemma_values_contain(v.pipelines, v.pipelines.entries.len() as int, i);
        let entry = v.pipelines.at(i);
        let j = choose|j: int| 0 <= j < pipelines.len() && pipelines[j] == entry;
        let own = device::pipeline_cleanup(entry);
        lemma_pipelines_contain(pipelines, pipelines.len() as int, j, own[0]);
        lemma_pipelines_contain(pipelines, pipelines.len() as int, j, own[1]);
    }
}

/// Every pooled fence is destroyed, once.
pub proof fn pooled_fences_go(v: DeviceView, i: int)
    requires
        0 <= i < v.free_fences.len(),
    ensures
        fences_cleanup(v).len() == v.free_fences.len(),
        fences_cleanup(v)[i] == Cleanup::DestroyFence(v.free_fences[i]),
{
}

} // verus!
