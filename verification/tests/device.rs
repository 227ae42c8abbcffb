//! Device operations against a driver that keeps memory and images in vectors.
use std::collections::{HashMap, HashSet};
use std::sync::{Mutex, MutexGuard};

use zengpu_vulkan::adapter::VulkanAdapter;
use zengpu_vulkan::command::{Cleanup, Command, CommandOf};
use zengpu_vulkan::device::bindless;
use zengpu_vulkan::device::buffers;
use zengpu_vulkan::device::constants::{Bindings, ByteOrder, Scalar};
use zengpu_vulkan::device::dispatch::{BufferCopyOp, ComputeOp, DispatchOp};
use zengpu_vulkan::device::pipelines;
use zengpu_vulkan::device::pipelines::ShaderSource;
use zengpu_vulkan::device::selection;
use zengpu_vulkan::device::selection::{
    FeatureSupport, IndexingSupport, PhysicalSupport, QueueFamily, ReportedLimits,
};
use zengpu_vulkan::device::submission;
use zengpu_vulkan::device::submission::{AsyncPlan, SubmissionStatus, VulkanSubmission};
use zengpu_vulkan::device::textures;
use zengpu_vulkan::device::textures::SamplerDesc;
use zengpu_vulkan::device::{
    BufferHandle, DeviceHandles, DeviceInfo, PipelineHandle, SamplerHandle, ShaderHandle,
    TextureHandle, VulkanDevice, COMPUTE_PUSH_CONSTANT_BYTES,
};
use zengpu_vulkan::error::{GpuError, UsageError};
use zengpu_vulkan::hal::{
    AddressMode, BorderColor, BufferDesc, BufferUsage, CompareFn, DeviceLimits, DeviceRequest,
    Features, FilterMode, Format, MemoryUsage, TexDim, TextureDesc, TextureUsage, BUFFER_READBACK,
    BUFFER_STORAGE, BUFFER_TRANSFER_DST, BUFFER_TRANSFER_SRC, FEATURE_COMPUTE,
    FEATURE_DESCRIPTOR_INDEXING, FEATURE_GRAPHICS, FEATURE_TIMESTAMPS, TEXTURE_SAMPLED,
    TEXTURE_TRANSFER_DST, TEXTURE_TRANSFER_SRC,
};
use zengpu_vulkan::instance::{
    AdapterInfo, BackendPreference, DeviceType, PowerPreference, VulkanInstance,
};
use zengpu_vulkan::offscreen::OffscreenTarget;
use zengpu_vulkan::test_gpu_lock;
use zengpu_vulkan::vk;

fn order() -> ByteOrder {
    if 1u32.to_ne_bytes()[0] == 1 {
        ByteOrder::Little
    } else {
        ByteOrder::Big
    }
}

static GPU_LOCK: Mutex<()> = Mutex::new(());

fn lock() -> MutexGuard<'static, ()> {
    test_gpu_lock(match GPU_LOCK.lock() {
        Ok(guard) => Ok(guard),
        Err(poisoned) => Err(poisoned.into_inner()),
    })
}

// ── Driver ─────────────────────────────────────────────────────────────────────

#[derive(Clone, Copy, PartialEq, Debug)]
enum Kernel {
    Double,
    Add,
    Relu,
    Fill,
    Trig,
    Typed,
    Classify,
}

struct Image {
    width: u32,
    height: u32,
    /// Texels and layout of each mip level. A transition from the undefined layout discards the
    /// texels.
    levels: Vec<(Vec<u8>, i32)>,
}

fn mip(size: u32, level: u32) -> u32 {
    (size >> level).max(1)
}

struct Gpu {
    dev: VulkanDevice,
    next: u64,
    live: HashSet<u64>,
    memory: HashMap<u64, Vec<u8>>,
    memory_of: HashMap<u64, u64>,
    images: HashMap<u64, Image>,
    modules: HashMap<u64, Kernel>,
    pipelines: HashMap<u64, Kernel>,
    /// Buffer in each slot of the bindless table.
    table: HashMap<u32, u64>,
    signaled: HashSet<u64>,
}

fn names(list: &[&str]) -> Vec<String> {
    list.iter().map(|s| s.to_string()).collect()
}

fn support() -> PhysicalSupport {
    PhysicalSupport {
        extensions: names(&["VK_KHR_swapchain", "VK_KHR_dynamic_rendering"]),
        families: vec![
            QueueFamily { flags: 0x7, timestamp_valid_bits: 64 },
            QueueFamily { flags: 0x6, timestamp_valid_bits: 0 },
        ],
        features: FeatureSupport {
            indexing: IndexingSupport {
                storage_buffer_non_uniform_indexing: true,
                sampled_image_non_uniform_indexing: true,
                storage_buffer_update_after_bind: true,
                sampled_image_update_after_bind: true,
                partially_bound: true,
                runtime_descriptor_array: true,
            },
            dynamic_rendering: true,
            buffer_float32_atomic_add: false,
            dual_src_blend: true,
            fill_mode_non_solid: true,
            sampler_anisotropy: true,
        },
        limits: ReportedLimits {
            max_compute_work_group_size: [1024, 1024, 64],
            max_compute_work_group_invocations: 1024,
            max_compute_work_group_count: [65535, 65535, 65535],
            max_storage_buffer_range: 1 << 27,
            max_push_constants_size: 256,
            max_per_stage_update_after_bind_storage_buffers: 1 << 20,
            max_set_update_after_bind_storage_buffers: 1 << 19,
            max_per_stage_update_after_bind_sampled_images: 1 << 20,
            max_set_update_after_bind_sampled_images: 1 << 20,
            max_update_after_bind_descriptors_in_all_pools: 1 << 20,
            max_memory_allocation_count: 4096,
            timestamp_period_bits: 1.0f32.to_bits(),
        },
    }
}

fn adapter() -> VulkanAdapter {
    VulkanAdapter {
        info: AdapterInfo {
            name: "Fake".to_string(),
            vendor: 1,
            device: 2,
            device_type: DeviceType::Discrete,
            backend: BackendPreference::Vulkan,
        },
        support: support(),
    }
}

fn no_features() -> DeviceRequest {
    DeviceRequest { required: Features { bits: 0 }, optional: Features { bits: 0 } }
}

fn open(plan: selection::DevicePlan) -> Gpu {
    open_with(
        plan,
        vec![
            vk::MEMORY_PROPERTY_DEVICE_LOCAL,
            vk::MEMORY_PROPERTY_HOST_VISIBLE | vk::MEMORY_PROPERTY_HOST_COHERENT,
            vk::MEMORY_PROPERTY_HOST_VISIBLE
                | vk::MEMORY_PROPERTY_HOST_COHERENT
                | vk::MEMORY_PROPERTY_HOST_CACHED,
        ],
    )
}

/// Device whose memory is all visible to the host.
fn unified_gpu() -> Gpu {
    open_with(
        adapter().open(no_features()).unwrap(),
        vec![
            vk::MEMORY_PROPERTY_DEVICE_LOCAL
                | vk::MEMORY_PROPERTY_HOST_VISIBLE
                | vk::MEMORY_PROPERTY_HOST_COHERENT
                | vk::MEMORY_PROPERTY_HOST_CACHED,
        ],
    )
}

fn open_with(plan: selection::DevicePlan, memory_types: Vec<u32>) -> Gpu {
    let bindings = bindless::create_bindless(&plan.limits).unwrap();
    let layout = bindless::bindless_layout_created(Ok(1)).unwrap();
    let pool = match bindless::bindless_pool_created(layout, Ok(2)) {
        Ok(pool) => pool,
        Err(u) => panic!("{:?}", u.error),
    };
    let table = match bindless::bindless_set_allocated(&bindings, layout, pool, Ok(3)) {
        Ok(table) => table,
        Err(u) => panic!("{:?}", u.error),
    };
    let info = DeviceInfo {
        handles: DeviceHandles {
            instance: 4,
            physical: 5,
            device: 6,
            queue: 7,
            queue_family: plan.queue_family as u32,
        },
        limits: plan.limits,
        features: plan.features,
        graphics: plan.graphics,
        dual_src_blend: plan.dual_src_blend,
        fill_mode_non_solid: plan.fill_mode_non_solid,
        sampler_anisotropy: plan.sampler_anisotropy,
        pipeline_cache: 8,
    };
    Gpu {
        dev: VulkanDevice::new(info, memory_types, table),
        next: 100,
        live: HashSet::new(),
        memory: HashMap::new(),
        memory_of: HashMap::new(),
        images: HashMap::new(),
        modules: HashMap::new(),
        pipelines: HashMap::new(),
        table: HashMap::new(),
        signaled: HashSet::new(),
    }
}

fn compute_gpu() -> Gpu {
    open(adapter().open(no_features()).unwrap())
}

fn graphics_gpu() -> Gpu {
    open(adapter().open_headless(no_features()).unwrap())
}

impl Gpu {
    fn make(&mut self) -> u64 {
        self.next += 1;
        self.live.insert(self.next);
        self.next
    }

    fn clean(&mut self, steps: Vec<Cleanup>) {
        for step in steps {
            let handle = match step {
                Cleanup::UnmapMemory(_) => continue,
                Cleanup::FreeMemory(h) => {
                    self.memory.remove(&h);
                    h
                }
                Cleanup::DestroyBuffer(h)
                | Cleanup::DestroyImageView(h)
                | Cleanup::DestroyImage(h)
                | Cleanup::DestroySampler(h)
                | Cleanup::DestroyShaderModule(h)
                | Cleanup::DestroyPipeline(h)
                | Cleanup::DestroyPipelineLayout(h)
                | Cleanup::DestroyFence(h) => h,
                other => panic!("unexpected {:?}", other),
            };
            assert!(self.live.remove(&handle), "{:?} destroyed twice", step);
        }
    }

    fn create_buffer(&mut self, desc: BufferDesc) -> Result<BufferHandle, GpuError> {
        let info = self.dev.create_buffer(desc)?;
        let handle = self.make();
        let buffer = buffers::buffer_created(Ok(handle))?;
        let type_index = match self.dev.buffer_memory_type(desc.memory, buffer, 0x7) {
            Ok(i) => i,
            Err(u) => {
                self.clean(u.cleanup);
                return Err(u.error);
            }
        };
        let block = self.make();
        self.memory.insert(block, vec![0; info.size as usize]);
        let memory = match buffers::buffer_allocated(desc.memory, buffer, Ok(block)) {
            Ok(m) => m,
            Err(u) => return Err(u.error),
        };
        let visible = match self.dev.buffer_bound(desc.memory, type_index, buffer, memory, Ok(())) {
            Ok(v) => v,
            Err(u) => return Err(u.error),
        };
        let mapped = if visible {
            match buffers::buffer_mapped(buffer, memory, Ok(0x1000)) {
                Ok(a) => a,
                Err(u) => return Err(u.error),
            }
        } else {
            0
        };
        assert!(self.dev.has_room_for(1));
        match self.dev.insert_buffer(desc, buffer, memory, mapped) {
            Ok((h, descriptor)) => {
                self.memory_of.insert(buffer, memory);
                if let Some(d) = descriptor {
                    assert_eq!((d.set, d.binding, d.offset), (3, 0, 0));
                    self.table.insert(d.element, d.buffer);
                }
                Ok(h)
            }
            Err(u) => {
                self.clean(u.cleanup);
                Err(u.error)
            }
        }
    }

    fn write_buffer(&mut self, h: BufferHandle, offset: u64, data: &[u8]) -> Result<(), GpuError> {
        let mut none: Vec<u8> = Vec::new();
        match self.dev.mapping(h) {
            Some(_) => {
                let block = self.dev.buffer(h).unwrap().memory;
                let memory = self.memory.get_mut(&block).unwrap();
                self.dev.write_buffer(h, offset, data, memory)
            }
            None => self.dev.write_buffer(h, offset, data, &mut none),
        }
    }

    fn read_buffer(&self, h: BufferHandle, offset: u64, len: u64) -> Result<Vec<u8>, GpuError> {
        match self.dev.mapping(h) {
            Some(_) => {
                let block = self.dev.buffer(h).unwrap().memory;
                self.dev.read_buffer(h, offset, len, &self.memory[&block])
            }
            None => self.dev.read_buffer(h, offset, len, &[]),
        }
    }

    fn read_buffer_into(
        &self,
        h: BufferHandle,
        offset: u64,
        dst: &mut [u8],
    ) -> Result<(), GpuError> {
        match self.dev.mapping(h) {
            Some(_) => {
                let block = self.dev.buffer(h).unwrap().memory;
                self.dev.read_buffer_into(h, offset, dst, &self.memory[&block])
            }
            None => self.dev.read_buffer_into(h, offset, dst, &[]),
        }
    }

    fn destroy_buffer(&mut self, h: BufferHandle) {
        let steps = self.dev.destroy_buffer(h);
        self.clean(steps);
    }

    fn create_shader(&mut self, kernel: Kernel) -> ShaderHandle {
        let source = ShaderSource::Spirv(0x0723_0203u32.to_ne_bytes().to_vec());
        let words = pipelines::create_shader(&source, order()).unwrap();
        assert_eq!(words, [0x0723_0203]);
        let module = self.make();
        let module = pipelines::shader_created(Ok(module)).unwrap();
        self.modules.insert(module, kernel);
        self.dev.insert_shader(module)
    }

    fn create_compute_pipeline(&mut self, shader: ShaderHandle) -> Result<PipelineHandle, GpuError> {
        let plan = self.dev.create_compute_pipeline(shader)?;
        assert_eq!(plan.push_constants.size, 128);
        assert_eq!(plan.cache, 8);
        let layout = self.make();
        let layout = pipelines::pipeline_layout_created(Ok(layout))?;
        assert_eq!(pipelines::entry_name(b"main")?, b"main\0");
        let pipeline = self.make();
        self.pipelines.insert(pipeline, self.modules[&plan.module]);
        match self.dev.pipeline_created(false, layout, Ok(pipeline)) {
            Ok(h) => Ok(h),
            Err(u) => Err(u.error),
        }
    }

    fn destroy_pipeline(&mut self, h: PipelineHandle) {
        let steps = self.dev.destroy_pipeline(h);
        self.clean(steps);
    }

    fn destroy_shader(&mut self, h: ShaderHandle) {
        let steps: Vec<Cleanup> = self.dev.destroy_shader(h).into_iter().collect();
        self.clean(steps);
    }

    fn create_texture(&mut self, desc: TextureDesc) -> Result<TextureHandle, GpuError> {
        let info = textures::create_texture(&desc)?;
        let image = self.make();
        let image = textures::texture_created(Ok(image))?;
        let type_index = match self.dev.texture_memory_type(image, 0x7) {
            Ok(i) => i,
            Err(u) => return Err(u.error),
        };
        assert_eq!(type_index, 0);
        let block = self.make();
        let memory = match textures::texture_allocated(image, Ok(block)) {
            Ok(m) => m,
            Err(u) => return Err(u.error),
        };
        let view_info = match textures::texture_bound(&desc, image, memory, Ok(())) {
            Ok(v) => v,
            Err(u) => return Err(u.error),
        };
        assert_eq!(view_info.image, image);
        assert_eq!(view_info.subresource_range.level_count, info.mip_levels);
        assert_eq!(view_info.subresource_range.layer_count, info.array_layers);
        let view = self.make();
        let view = match textures::texture_viewed(image, memory, Ok(view)) {
            Ok(v) => v,
            Err(u) => return Err(u.error),
        };
        let levels = (0..info.mip_levels)
            .map(|l| {
                let texels = mip(info.extent.width, l) * mip(info.extent.height, l);
                (vec![0; texels as usize * 4], vk::IMAGE_LAYOUT_UNDEFINED)
            })
            .collect();
        self.images.insert(
            image,
            Image { width: info.extent.width, height: info.extent.height, levels },
        );
        Ok(self.dev.insert_texture(&desc, image, view, memory))
    }

    fn destroy_texture(&mut self, h: TextureHandle) {
        let steps = self.dev.destroy_texture(h);
        self.clean(steps);
    }

    fn create_sampler(&mut self, desc: SamplerDesc) -> SamplerHandle {
        let _ = self.dev.create_sampler(&desc);
        let sampler = self.make();
        let sampler = textures::sampler_created(Ok(sampler)).unwrap();
        self.dev.insert_sampler(sampler)
    }

    fn destroy_sampler(&mut self, h: SamplerHandle) {
        let steps = self.dev.destroy_sampler(h);
        self.clean(steps);
    }

    fn upload(
        &mut self,
        h: TextureHandle,
        level: u32,
        layer: u32,
        data: &[u8],
    ) -> Result<(), GpuError> {
        assert!(level < 32);
        let upload = self.dev.upload_texture_data_region(h, level, layer, data)?;
        let staging = self.create_buffer(upload.staging)?;
        self.write_buffer(staging, 0, data)?;
        let buffer = self.dev.buffer(staging).unwrap().buffer;
        let commands = textures::plan_upload(&upload, buffer);
        self.one_shot(commands)?;
        self.dev.texture_uploaded(&upload);
        self.destroy_buffer(staging);
        Ok(())
    }

    fn generate_mipmaps(&mut self, h: TextureHandle) -> Result<(), GpuError> {
        let commands = self.dev.generate_mipmaps(h)?;
        if !commands.is_empty() {
            self.one_shot(commands)?;
            self.dev.mipmaps_generated(h);
        }
        Ok(())
    }

    fn cmd(&mut self) -> Result<u64, GpuError> {
        let cmd = match self.dev.acquire_cmd() {
            Some(cmd) => cmd,
            None => {
                let cmd = self.make();
                submission::cmd_allocated(Ok(cmd))?
            }
        };
        submission::cmd_begun(Ok(()))?;
        Ok(cmd)
    }

    fn fence(&mut self) -> Result<u64, GpuError> {
        match self.dev.acquire_fence() {
            Some(fence) => {
                submission::fence_reset(Ok(()))?;
                self.signaled.remove(&fence);
                Ok(fence)
            }
            None => {
                let fence = self.make();
                submission::fence_created(Ok(fence))
            }
        }
    }

    fn one_shot(&mut self, commands: Vec<Command>) -> Result<(), GpuError> {
        let cmd = self.cmd()?;
        self.dev.recorded(cmd, Ok(()))?;
        let fence = self.fence()?;
        self.dev.submitted(cmd, fence, Ok(()))?;
        self.run(&commands);
        self.signaled.insert(fence);
        let (result, step) = self.dev.waited(cmd, fence, Ok(()));
        self.clean(step.into_iter().collect());
        result
    }

    fn submit(
        &mut self,
        cycle_id: u64,
        plan: AsyncPlan,
    ) -> Result<VulkanSubmission, GpuError> {
        let commands = match plan {
            AsyncPlan::Done(submission) => return Ok(submission),
            AsyncPlan::Record(commands) => commands,
        };
        let cmd = self.cmd()?;
        self.dev.recorded_async(cmd, Ok(()), Ok(()))?;
        let fence = self.fence()?;
        let submission = self.dev.submitted_async(cycle_id, cmd, fence, Ok(()))?;
        self.run(&commands);
        Ok(submission)
    }

    fn wait(&mut self, s: &mut VulkanSubmission, in_time: bool) -> Result<(), GpuError> {
        let waited = match s.fence() {
            Some(fence) if in_time => {
                self.signaled.insert(fence);
                Ok(())
            }
            Some(_) => Err(vk::TIMEOUT),
            None => Ok(()),
        };
        let (result, steps) = s.wait(&mut self.dev, waited);
        self.clean(steps);
        result
    }

    fn poll(&mut self, s: &mut VulkanSubmission) -> Result<SubmissionStatus, GpuError> {
        let status = match s.fence() {
            Some(fence) => Ok(self.signaled.contains(&fence)),
            None => Ok(true),
        };
        let (result, steps) = s.poll(&mut self.dev, status);
        self.clean(steps);
        result
    }

    fn dispatch(&mut self, op: DispatchOp) -> Result<(), GpuError> {
        let commands = self.dev.dispatch(op.pipeline, op.bindings, op.grid, order())?;
        self.one_shot(commands)
    }

    fn copy_buffer(&mut self, op: BufferCopyOp) -> Result<(), GpuError> {
        match self.dev.copy_buffer(&op)? {
            Some(command) => self.one_shot(vec![command]),
            None => Ok(()),
        }
    }

    fn block(&mut self, buffer: u64) -> &mut Vec<u8> {
        let block = self.memory_of[&buffer];
        self.memory.get_mut(&block).unwrap()
    }

    fn floats(&mut self, slot: u32) -> Vec<f32> {
        let buffer = self.table[&slot];
        let bytes = self.block(buffer).clone();
        bytes.chunks_exact(4).map(|c| f32::from_ne_bytes(c.try_into().unwrap())).collect()
    }

    fn store_floats(&mut self, slot: u32, values: &[f32]) {
        let buffer = self.table[&slot];
        let bytes: Vec<u8> = values.iter().flat_map(|v| v.to_ne_bytes()).collect();
        self.block(buffer).copy_from_slice(&bytes);
    }

    fn run_kernel(&mut self, kernel: Kernel, words: &[u32]) {
        match kernel {
            Kernel::Double => {
                let out = self.floats(words[0]).iter().map(|v| v + v).collect::<Vec<f32>>();
                self.store_floats(words[1], &out);
            }
            Kernel::Add => {
                let b = self.floats(words[1]);
                let out: Vec<f32> =
                    self.floats(words[0]).iter().zip(&b).map(|(a, b)| a + b).collect();
                self.store_floats(words[2], &out);
            }
            Kernel::Relu => {
                let out: Vec<f32> = self.floats(words[0]).iter().map(|v| v.max(0.0)).collect();
                self.store_floats(words[1], &out);
            }
            Kernel::Fill => {
                let out = vec![1.0; self.floats(words[0]).len()];
                self.store_floats(words[0], &out);
            }
            Kernel::Trig => {
                let n = words[2] as usize;
                let out: Vec<f32> =
                    self.floats(words[0])[..n].iter().map(|x| x.sin() + x.cos() + x.tan()).collect();
                self.store_floats(words[1], &out);
            }
            Kernel::Typed => {
                let n = words[4] as usize * 4;
                for (from, to) in [(words[0], words[2]), (words[1], words[3])] {
                    let (src, dst) = (self.table[&from], self.table[&to]);
                    let data = self.block(src)[..n].to_vec();
                    self.block(dst)[..n].copy_from_slice(&data);
                }
            }
            Kernel::Classify => {
                let n = words[2] as usize;
                let out: Vec<u8> = self.floats(words[0])[..n]
                    .iter()
                    .flat_map(|x| {
                        let class: u32 = if x.is_finite() {
                            1
                        } else if x.is_nan() {
                            2
                        } else {
                            3
                        };
                        class.to_ne_bytes()
                    })
                    .collect();
                let dst = self.table[&words[1]];
                self.block(dst)[..out.len()].copy_from_slice(&out);
            }
        }
    }

    fn run(&mut self, commands: &[Command]) {
        let mut kernel = None;
        let mut words: Vec<u32> = Vec::new();
        for command in commands {
            match command {
                CommandOf::MemoryBarrier { .. } => {}
                CommandOf::BindDescriptorSet { set, .. } => assert_eq!(*set, 3),
                CommandOf::BindPipeline { pipeline, .. } => {
                    kernel = self.pipelines.get(pipeline).copied();
                }
                CommandOf::PushConstants { bytes, .. } => {
                    words = bytes
                        .chunks_exact(4)
                        .map(|c| u32::from_ne_bytes(c.try_into().unwrap()))
                        .collect();
                }
                CommandOf::Dispatch { .. } => self.run_kernel(kernel.unwrap(), &words),
                CommandOf::CopyBuffer { src, dst, src_offset, dst_offset, size } => {
                    let (s, d, n) = (*src_offset as usize, *dst_offset as usize, *size as usize);
                    let data = self.block(*src)[s..s + n].to_vec();
                    self.block(*dst)[d..d + n].copy_from_slice(&data);
                }
                CommandOf::ImageBarrier { barrier, .. } => self.transition(barrier),
                CommandOf::ImageBarrierPair { first, second, .. } => {
                    self.transition(first);
                    self.transition(second);
                }
                CommandOf::CopyBufferToImage { buffer, image, image_layout, region } => {
                    let data = self.block(*buffer).clone();
                    let level = region.image_subresource.mip_level;
                    let image = self.images.get_mut(image).unwrap();
                    assert_eq!(region.image_extent.width, mip(image.width, level));
                    assert_eq!(region.image_extent.height, mip(image.height, level));
                    let (texels, layout) = &mut image.levels[level as usize];
                    assert_eq!(*layout, *image_layout);
                    assert_eq!(texels.len(), data.len());
                    *texels = data;
                }
                CommandOf::CopyImageToBuffer { image, image_layout, buffer, region } => {
                    let level = region.image_subresource.mip_level as usize;
                    let (texels, layout) = self.images[image].levels[level].clone();
                    assert_eq!(layout, *image_layout);
                    self.block(*buffer)[..texels.len()].copy_from_slice(&texels);
                }
                CommandOf::BlitImage { image, src_layout, dst_layout, blit, .. } => {
                    let image = self.images.get_mut(image).unwrap();
                    let src = blit.src_subresource.mip_level;
                    let dst = blit.dst_subresource.mip_level;
                    assert_eq!(dst, src + 1);
                    assert_eq!(blit.src_end.x as u32, mip(image.width, src));
                    assert_eq!(blit.dst_end.y as u32, mip(image.height, dst));
                    assert_eq!(image.levels[src as usize].1, *src_layout);
                    assert_eq!(image.levels[dst as usize].1, *dst_layout);
                    let texel = image.levels[src as usize].0[..4].to_vec();
                    for chunk in image.levels[dst as usize].0.chunks_exact_mut(4) {
                        chunk.copy_from_slice(&texel);
                    }
                }
                _ => panic!("unexpected command"),
            }
        }
    }

    fn transition(&mut self, b: &vk::ImageBarrier) {
        let image = self.images.get_mut(&b.image).unwrap();
        let r = b.subresource_range;
        for level in r.base_mip_level..r.base_mip_level + r.level_count {
            let (texels, layout) = &mut image.levels[level as usize];
            if b.old_layout == vk::IMAGE_LAYOUT_UNDEFINED {
                texels.fill(0xDD);
            }
            assert!(
                b.old_layout == vk::IMAGE_LAYOUT_UNDEFINED || b.old_layout == *layout,
                "level {} is in layout {}, not {}",
                level,
                layout,
                b.old_layout
            );
            *layout = b.new_layout;
        }
    }
}

fn usage(bits: u32) -> BufferUsage {
    BufferUsage { bits }
}

fn rw_desc(size: u64) -> BufferDesc {
    BufferDesc {
        size,
        usage: usage(BUFFER_TRANSFER_DST | BUFFER_READBACK),
        memory: MemoryUsage::Upload,
    }
}

fn storage_rw(size: u64) -> BufferDesc {
    BufferDesc {
        size,
        usage: usage(BUFFER_STORAGE | BUFFER_READBACK),
        memory: MemoryUsage::Upload,
    }
}

fn bindings(buffers: &[u32], textures: &[u32], scalars: &[Scalar]) -> Bindings {
    Bindings { buffers: buffers.to_vec(), textures: textures.to_vec(), scalars: scalars.to_vec() }
}

// ── Limits and features ────────────────────────────────────────────────────────

#[test]
fn compute_push_constant_abi_uses_vulkan_portable_minimum() {
    assert_eq!(COMPUTE_PUSH_CONSTANT_BYTES, 128);
}

#[test]
fn bindless_capacities_respect_each_device_limit() {
    let limits = DeviceLimits {
        max_storage_buffers: 16,
        max_sampled_textures: 8,
        max_update_after_bind_descriptors: 12,
        ..Default::default()
    };
    assert_eq!(selection::bindless_capacities(&limits).unwrap(), (11, 1));
    assert!(
        selection::bindless_capacities(&DeviceLimits {
            max_storage_buffers: 1,
            max_sampled_textures: 1,
            max_update_after_bind_descriptors: 1,
            ..Default::default()
        })
        .is_err()
    );
}

#[test]
fn small_bindless_limits_are_named() {
    let limits = DeviceLimits {
        max_storage_buffers: 1,
        max_sampled_textures: 2,
        max_update_after_bind_descriptors: 1,
        ..Default::default()
    };
    match bindless::create_bindless(&limits) {
        Err(GpuError::Unsupported(text)) => assert_eq!(
            text,
            "bindless descriptor limits are too small: storage=1, textures=2, total=1"
        ),
        _ => panic!("limits accepted"),
    }
}

#[test]
fn trait_open_reports_compute_only() {
    let gpu = compute_gpu();
    let dev = &gpu.dev;
    assert!(!dev.capabilities().graphics);
    assert!(dev.capabilities().compute);
    assert!(dev.capabilities().features.contains(FEATURE_COMPUTE | FEATURE_DESCRIPTOR_INDEXING));
    let limits = dev.limits();
    assert!(limits.max_workgroup_invocations >= 128);
    assert!(limits.max_workgroup_size[0] >= 128);
    assert!(limits.max_dispatch_size.iter().all(|value| *value > 0));
    assert!(limits.max_storage_buffer_range > 0);
    assert!(limits.max_push_constant_size >= COMPUTE_PUSH_CONSTANT_BYTES as u32);
    assert!(limits.max_storage_buffers >= selection::MAX_BINDLESS_BUFFERS);
}

#[test]
fn required_unimplemented_feature_is_rejected() {
    let err = match adapter().open_headless(DeviceRequest {
        required: Features { bits: FEATURE_TIMESTAMPS },
        optional: Features { bits: 0 },
    }) {
        Ok(_) => panic!("unsupported required feature unexpectedly succeeded"),
        Err(err) => err,
    };
    assert!(matches!(
        err,
        GpuError::UnsupportedFeatures(features) if features == Features { bits: FEATURE_TIMESTAMPS }
    ));
}

#[test]
fn optional_unimplemented_feature_is_ignored() {
    let plan = adapter()
        .open_headless(DeviceRequest {
            required: Features { bits: 0 },
            optional: Features { bits: FEATURE_TIMESTAMPS },
        })
        .unwrap();
    assert!(open(plan).dev.capabilities().graphics);
}

#[test]
fn compute_device_rejects_required_graphics() {
    let err = match adapter().open(DeviceRequest {
        required: Features { bits: FEATURE_GRAPHICS },
        optional: Features { bits: 0 },
    }) {
        Ok(_) => panic!("compute-only device unexpectedly accepted graphics"),
        Err(err) => err,
    };
    assert!(matches!(
        err,
        GpuError::UnsupportedFeatures(features) if features == Features { bits: FEATURE_GRAPHICS }
    ));
}

#[test]
fn graphics_device_accepts_required_backend_features() {
    let plan = adapter()
        .open_headless(DeviceRequest {
            required: Features {
                bits: FEATURE_COMPUTE | FEATURE_GRAPHICS | FEATURE_DESCRIPTOR_INDEXING,
            },
            optional: Features { bits: 0 },
        })
        .unwrap();
    let dev = open(plan).dev;
    assert!(dev.capabilities().compute);
    assert!(dev.capabilities().graphics);
}

#[test]
fn reports_graphics_and_compute() {
    let gpu = graphics_gpu();
    assert!(gpu.dev.capabilities().graphics);
    assert!(gpu.dev.capabilities().compute);
}

// ── Buffers ────────────────────────────────────────────────────────────────────

#[test]
fn repeated_device_create_use_drop_stress() {
    let _guard = lock();
    for cycle in 0..100u32 {
        let mut gpu = compute_gpu();
        let src = gpu
            .create_buffer(BufferDesc {
                size: 4096,
                usage: usage(BUFFER_TRANSFER_SRC),
                memory: MemoryUsage::Upload,
            })
            .expect("create upload buffer");
        let dst = gpu
            .create_buffer(BufferDesc {
                size: 4096,
                usage: usage(BUFFER_TRANSFER_DST | BUFFER_READBACK),
                memory: MemoryUsage::Readback,
            })
            .expect("create readback buffer");
        let pattern = [cycle as u8; 4096];
        gpu.write_buffer(src, 0, &pattern).expect("write upload");
        let copy = BufferCopyOp { src, src_offset: 0, dst, dst_offset: 0, len: 4096 };
        gpu.copy_buffer(copy).expect("copy buffers");
        assert_eq!(gpu.read_buffer(dst, 0, 4096).expect("read back"), pattern, "cycle {cycle}");
    }
}

fn buffer_roundtrip(mut gpu: Gpu) {
    let h = gpu.create_buffer(rw_desc(4)).unwrap();
    gpu.write_buffer(h, 0, &[1, 2, 3, 4]).unwrap();
    assert_eq!(gpu.read_buffer(h, 0, 4).unwrap(), [1, 2, 3, 4]);
    assert_eq!(gpu.read_buffer(h, 2, 2).unwrap(), [3, 4]);
}

#[test]
fn device_buffer_roundtrip() {
    let _guard = lock();
    buffer_roundtrip(graphics_gpu());
}

#[test]
fn mod_buffer_roundtrip() {
    let _guard = lock();
    buffer_roundtrip(compute_gpu());
}

#[test]
fn device_local_buffer_staging_round_trip() {
    staging_round_trip(compute_gpu());
    staging_round_trip(unified_gpu());
}

fn staging_round_trip(mut gpu: Gpu) {
    const SIZE: usize = 4 * 1024 * 1024;
    let upload = gpu
        .create_buffer(BufferDesc {
            size: SIZE as u64,
            usage: usage(BUFFER_TRANSFER_SRC),
            memory: MemoryUsage::Upload,
        })
        .unwrap();
    let local = gpu
        .create_buffer(BufferDesc {
            size: SIZE as u64,
            usage: usage(BUFFER_STORAGE | BUFFER_TRANSFER_SRC | BUFFER_TRANSFER_DST),
            memory: MemoryUsage::GpuOnly,
        })
        .unwrap();
    let readback = gpu
        .create_buffer(BufferDesc {
            size: SIZE as u64,
            usage: usage(BUFFER_TRANSFER_DST | BUFFER_READBACK),
            memory: MemoryUsage::Readback,
        })
        .unwrap();
    let data: Vec<u8> =
        (0..SIZE).map(|i| (i as u32).wrapping_mul(31).wrapping_add(7) as u8).collect();
    gpu.write_buffer(upload, 0, &data).unwrap();
    assert!(gpu.write_buffer(local, 0, &[1]).is_err());
    let copy = |src, dst| BufferCopyOp {
        src,
        src_offset: 0,
        dst,
        dst_offset: 0,
        len: SIZE as u64,
    };
    gpu.copy_buffer(copy(upload, local)).unwrap();
    gpu.copy_buffer(copy(local, readback)).unwrap();
    assert_eq!(gpu.read_buffer(readback, 0, SIZE as u64).unwrap(), data);

    gpu.destroy_buffer(upload);
    gpu.destroy_buffer(local);
    gpu.destroy_buffer(readback);
}

fn read_without_readback_usage_fails(mut gpu: Gpu) {
    let h = gpu
        .create_buffer(BufferDesc {
            size: 4,
            usage: usage(BUFFER_STORAGE),
            memory: MemoryUsage::Upload,
        })
        .unwrap();
    let err = gpu.read_buffer(h, 0, 4).unwrap_err();
    assert!(matches!(
        err,
        GpuError::InvalidUsage(UsageError::MissingUsage { needed: "READBACK", .. })
    ));
}

#[test]
fn device_read_without_readback_usage_fails() {
    read_without_readback_usage_fails(graphics_gpu());
}

#[test]
fn mod_read_without_readback_usage_fails() {
    read_without_readback_usage_fails(compute_gpu());
}

fn use_after_destroy_is_stale(mut gpu: Gpu) {
    let h = gpu.create_buffer(rw_desc(4)).unwrap();
    gpu.destroy_buffer(h);
    let err = gpu.read_buffer(h, 0, 4).unwrap_err();
    assert!(matches!(err, GpuError::InvalidUsage(UsageError::StaleHandle { .. })));
}

#[test]
fn device_use_after_destroy_is_stale() {
    use_after_destroy_is_stale(graphics_gpu());
}

#[test]
fn mod_use_after_destroy_is_stale() {
    use_after_destroy_is_stale(compute_gpu());
}

fn out_of_bounds_write_fails(mut gpu: Gpu) {
    let h = gpu.create_buffer(rw_desc(4)).unwrap();
    let err = gpu.write_buffer(h, 2, &[1, 2, 3]).unwrap_err();
    assert!(matches!(err, GpuError::InvalidUsage(UsageError::BindingMismatch(_))));
}

#[test]
fn device_out_of_bounds_write_fails() {
    out_of_bounds_write_fails(graphics_gpu());
}

#[test]
fn mod_out_of_bounds_write_fails() {
    out_of_bounds_write_fails(compute_gpu());
}

#[test]
fn memory_for_the_gpu_only_is_out_of_reach() {
    for mut gpu in [compute_gpu(), unified_gpu()] {
        let h = gpu
            .create_buffer(BufferDesc {
                size: 8,
                usage: usage(BUFFER_STORAGE | BUFFER_READBACK),
                memory: MemoryUsage::GpuOnly,
            })
            .unwrap();
        assert_eq!(gpu.dev.mapping(h), None);
        assert!(matches!(gpu.write_buffer(h, 0, &[1]), Err(GpuError::Backend(_))));
        assert!(matches!(gpu.read_buffer(h, 0, 1), Err(GpuError::Backend(_))));
        assert!(matches!(gpu.read_buffer_into(h, 0, &mut [0]), Err(GpuError::Backend(_))));
        gpu.destroy_buffer(h);
    }
}

#[test]
fn range_errors_name_the_range() {
    let mut gpu = compute_gpu();
    let h = gpu.create_buffer(rw_desc(4)).unwrap();
    match gpu.write_buffer(h, 2, &[1, 2, 3]) {
        Err(GpuError::InvalidUsage(UsageError::BindingMismatch(text))) => {
            assert_eq!(text, "range 2..5 exceeds buffer size 4")
        }
        _ => panic!("write accepted"),
    }
    match gpu.read_buffer(h, u64::MAX, 1) {
        Err(GpuError::InvalidUsage(UsageError::BindingMismatch(text))) => {
            assert_eq!(text, "range 18446744073709551615..overflow exceeds buffer size 4")
        }
        _ => panic!("read accepted"),
    }
}

#[test]
fn write_keeps_the_other_bytes() {
    let mut gpu = compute_gpu();
    let h = gpu.create_buffer(rw_desc(6)).unwrap();
    gpu.write_buffer(h, 0, &[9; 6]).unwrap();
    gpu.write_buffer(h, 2, &[1, 2]).unwrap();
    assert_eq!(gpu.read_buffer(h, 0, 6).unwrap(), [9, 9, 1, 2, 9, 9]);
    let mut part = [0; 3];
    gpu.read_buffer_into(h, 1, &mut part).unwrap();
    assert_eq!(part, [9, 1, 2]);
    gpu.write_buffer(h, 6, &[]).unwrap();
}

#[test]
fn stale_error_names_both_generations() {
    let mut gpu = compute_gpu();
    let h = gpu.create_buffer(rw_desc(4)).unwrap();
    gpu.destroy_buffer(h);
    match gpu.write_buffer(h, 0, &[1]) {
        Err(GpuError::InvalidUsage(UsageError::StaleHandle {
            index,
            expected_gen,
            actual_gen,
        })) => assert_eq!((index, expected_gen, actual_gen), (0, 0, 1)),
        _ => panic!("dead handle accepted"),
    }
    let never = BufferHandle::from_parts(7, 3);
    match gpu.read_buffer(never, 0, 1) {
        Err(GpuError::InvalidUsage(UsageError::StaleHandle {
            index,
            expected_gen,
            actual_gen,
        })) => assert_eq!((index, expected_gen, actual_gen), (7, 3, u32::MAX)),
        _ => panic!("unknown handle accepted"),
    }
}

#[test]
fn storage_buffers_have_a_limit() {
    let gpu = compute_gpu();
    let size = (1u64 << 27) + 1;
    let err = gpu.dev.create_buffer(BufferDesc {
        size,
        usage: usage(BUFFER_STORAGE),
        memory: MemoryUsage::GpuOnly,
    });
    match err {
        Err(GpuError::InvalidUsage(UsageError::BindingMismatch(text))) => {
            assert_eq!(text, "storage buffer size 134217729 exceeds device limit 134217728")
        }
        _ => panic!("oversized buffer accepted"),
    }
    assert!(gpu
        .dev
        .create_buffer(BufferDesc {
            size,
            usage: usage(BUFFER_TRANSFER_DST),
            memory: MemoryUsage::GpuOnly,
        })
        .is_ok());
}

#[test]
fn bindless_table_has_a_last_slot() {
    let mut plan = adapter().open(no_features()).unwrap();
    plan.limits.max_storage_buffers = 2;
    let mut gpu = open(plan);
    let first = gpu.create_buffer(storage_rw(4)).unwrap();
    let _second = gpu.create_buffer(storage_rw(4)).unwrap();
    match gpu.create_buffer(storage_rw(4)) {
        Err(GpuError::InvalidUsage(UsageError::BindingMismatch(text))) => {
            assert_eq!(text, "storage buffer slot exceeds bindless capacity 2")
        }
        _ => panic!("slot handed out"),
    }
    gpu.destroy_buffer(first);
    assert_eq!(gpu.create_buffer(storage_rw(4)).unwrap().index(), 0);
}

#[test]
fn failed_buffer_stages_say_what_to_destroy() {
    let gpu = compute_gpu();
    match buffers::buffer_created(Err(vk::ERROR_OUT_OF_HOST_MEMORY)) {
        Err(GpuError::Backend(text)) => {
            let shown = ash::vk::Result::ERROR_OUT_OF_HOST_MEMORY.to_string();
            assert_eq!(text, format!("vkCreateBuffer: {shown}"));
        }
        _ => panic!("failure ignored"),
    }
    match gpu.dev.buffer_memory_type(MemoryUsage::Upload, 11, 0x1) {
        Err(u) => assert_eq!(u.cleanup, [Cleanup::DestroyBuffer(11)]),
        Ok(_) => panic!("memory type found"),
    }
    match buffers::buffer_allocated(MemoryUsage::Readback, 11, Err(-1)) {
        Err(u) => {
            assert_eq!(u.cleanup, [Cleanup::DestroyBuffer(11)]);
            assert!(matches!(u.error, GpuError::OutOfMemory(MemoryUsage::Readback)));
        }
        Ok(_) => panic!("failure ignored"),
    }
    match buffers::buffer_mapped(11, 12, Err(-5)) {
        Err(u) => {
            assert_eq!(u.cleanup, [Cleanup::DestroyBuffer(11), Cleanup::FreeMemory(12)])
        }
        Ok(_) => panic!("failure ignored"),
    }
}

// ── Samplers and textures ──────────────────────────────────────────────────────

fn full_sampler() -> SamplerDesc {
    SamplerDesc {
        min_filter: FilterMode::Linear,
        mag_filter: FilterMode::Linear,
        mip_filter: FilterMode::Linear,
        address: AddressMode::Repeat,
        anisotropy: 16,
        compare: Some(CompareFn::LessEqual),
        border: BorderColor::OpaqueBlack,
    }
}

#[test]
fn create_sampler_with_full_desc() {
    let mut gpu = graphics_gpu();
    let info = gpu.dev.create_sampler(&full_sampler());
    assert!(info.anisotropy_enable);
    assert!(info.compare_enable);
    assert_eq!(info.compare_op, vk::COMPARE_OP_LESS_OR_EQUAL);
    assert_eq!(info.address_mode, vk::SAMPLER_ADDRESS_MODE_REPEAT);
    assert_eq!(info.border_color, vk::BORDER_COLOR_FLOAT_OPAQUE_BLACK);
    let sampler = gpu.create_sampler(full_sampler());
    gpu.destroy_sampler(sampler);
}

fn tex_desc(dimension: TexDim) -> TextureDesc {
    TextureDesc {
        width: 8,
        height: 8,
        depth: 1,
        format: Format::Rgba8Unorm,
        usage: TextureUsage { bits: TEXTURE_SAMPLED | TEXTURE_TRANSFER_DST },
        samples: 1,
        dimension,
        mip_levels: 1,
        array_layers: 1,
    }
}

#[test]
fn create_texture_2d_array() {
    let mut gpu = graphics_gpu();
    let desc = TextureDesc { array_layers: 4, ..tex_desc(TexDim::D2) };
    let tex = gpu.create_texture(desc).unwrap();
    gpu.destroy_texture(tex);
}

#[test]
fn create_texture_3d() {
    let mut gpu = graphics_gpu();
    let desc = TextureDesc { depth: 4, ..tex_desc(TexDim::D3) };
    assert_eq!(textures::create_texture(&desc).unwrap().extent.depth, 4);
    let tex = gpu.create_texture(desc).unwrap();
    gpu.destroy_texture(tex);
}

#[test]
fn create_texture_cube_requires_six_layers() {
    let mut gpu = graphics_gpu();
    let err = match gpu.create_texture(TextureDesc { array_layers: 3, ..tex_desc(TexDim::Cube) }) {
        Ok(_) => panic!("cube with three layers"),
        Err(err) => err,
    };
    assert!(matches!(err, GpuError::InvalidUsage(UsageError::BindingMismatch(_))));

    let tex =
        gpu.create_texture(TextureDesc { array_layers: 6, ..tex_desc(TexDim::Cube) }).unwrap();
    gpu.destroy_texture(tex);
}

#[test]
fn upload_texture_data_region_targets_specific_mip() {
    let mut gpu = graphics_gpu();
    let tex = gpu.create_texture(TextureDesc { mip_levels: 2, ..tex_desc(TexDim::D2) }).unwrap();
    // Mip 0 is 8x8, mip 1 is 4x4.
    gpu.upload(tex, 0, 0, &vec![0xFFu8; 8 * 8 * 4]).unwrap();
    gpu.upload(tex, 1, 0, &[0x80u8; 4 * 4 * 4]).unwrap();
    let image = gpu.dev.texture(tex).unwrap().image;
    assert_eq!(gpu.images[&image].levels[0].0, vec![0xFF; 256]);
    assert_eq!(gpu.images[&image].levels[1].0, vec![0x80; 64]);
    assert_eq!(gpu.images[&image].levels[1].1, vk::IMAGE_LAYOUT_SHADER_READ_ONLY_OPTIMAL);
    let upload = gpu.dev.upload_texture_data(tex, &[0; 12]).unwrap();
    assert_eq!((upload.level, upload.layer, upload.staging.size), (0, 0, 12));
    gpu.destroy_texture(tex);
    let dead = gpu.dev.upload_texture_data_region(tex, 40, 0, &[0; 12]).err().unwrap();
    assert!(
        matches!(dead, GpuError::Backend(m) if m == "upload_texture_data: stale texture handle")
    );
}

#[test]
fn generate_mipmaps_without_transfer_usage_fails() {
    let mut gpu = graphics_gpu();
    let tex = gpu
        .create_texture(TextureDesc {
            mip_levels: 4,
            usage: TextureUsage { bits: TEXTURE_SAMPLED },
            ..tex_desc(TexDim::D2)
        })
        .unwrap();
    let err = gpu.generate_mipmaps(tex).unwrap_err();
    assert!(matches!(
        err,
        GpuError::InvalidUsage(UsageError::MissingUsage {
            needed: "TRANSFER_SRC | TRANSFER_DST",
            ..
        })
    ));
    gpu.destroy_texture(tex);
}

#[test]
fn generate_mipmaps_builds_full_chain() {
    let mut gpu = graphics_gpu();
    let tex = gpu
        .create_texture(TextureDesc {
            mip_levels: 4,
            usage: TextureUsage {
                bits: TEXTURE_SAMPLED | TEXTURE_TRANSFER_SRC | TEXTURE_TRANSFER_DST,
            },
            ..tex_desc(TexDim::D2)
        })
        .unwrap();
    gpu.upload(tex, 0, 0, &vec![0xFFu8; 8 * 8 * 4]).unwrap();
    gpu.generate_mipmaps(tex).unwrap();
    let image = gpu.dev.texture(tex).unwrap().image;
    for (texels, layout) in &gpu.images[&image].levels {
        assert!(texels.iter().all(|b| *b == 0xFF));
        assert_eq!(*layout, vk::IMAGE_LAYOUT_SHADER_READ_ONLY_OPTIMAL);
    }
    gpu.destroy_texture(tex);
}

#[test]
fn bound_textures_stay_bound_until_destroyed() {
    let mut gpu = graphics_gpu();
    let tex = gpu.create_texture(tex_desc(TexDim::D2)).unwrap();
    let sampler = gpu.create_sampler(full_sampler());
    let d = gpu.dev.bind_texture(tex, sampler).unwrap();
    assert_eq!((d.set, d.binding, d.element), (3, 1, tex.index()));
    assert_eq!(d.image_view, gpu.dev.texture(tex).unwrap().view);
    assert_eq!(Some(d.sampler), gpu.dev.sampler(sampler));
    gpu.destroy_texture(tex);
    assert!(gpu.dev.bind_texture(tex, sampler).is_none());
}

#[test]
fn mip_chains_start_from_what_was_uploaded() {
    let mut gpu = graphics_gpu();
    let tex = gpu
        .create_texture(TextureDesc {
            mip_levels: 3,
            usage: TextureUsage {
                bits: TEXTURE_SAMPLED | TEXTURE_TRANSFER_SRC | TEXTURE_TRANSFER_DST,
            },
            ..tex_desc(TexDim::D2)
        })
        .unwrap();
    gpu.upload(tex, 0, 0, &vec![0x40u8; 8 * 8 * 4]).unwrap();
    let commands = gpu.dev.generate_mipmaps(tex).unwrap();
    let sources: Vec<(i32, u32, u32)> = commands
        .iter()
        .filter_map(|c| match c {
            CommandOf::ImageBarrier { src_stages, barrier, .. }
            | CommandOf::ImageBarrierPair { src_stages, first: barrier, .. }
                if barrier.new_layout == vk::IMAGE_LAYOUT_TRANSFER_SRC_OPTIMAL =>
            {
                Some((barrier.old_layout, *src_stages, barrier.src_access_mask))
            }
            _ => None,
        })
        .collect();
    assert_eq!(
        sources,
        [
            (
                vk::IMAGE_LAYOUT_SHADER_READ_ONLY_OPTIMAL,
                vk::PIPELINE_STAGE_FRAGMENT_SHADER,
                vk::ACCESS_SHADER_READ
            ),
            (
                vk::IMAGE_LAYOUT_TRANSFER_DST_OPTIMAL,
                vk::PIPELINE_STAGE_TRANSFER,
                vk::ACCESS_TRANSFER_WRITE
            ),
        ]
    );
    gpu.generate_mipmaps(tex).unwrap();
    gpu.generate_mipmaps(tex).unwrap();
    let image = gpu.dev.texture(tex).unwrap().image;
    for (texels, _) in &gpu.images[&image].levels {
        assert!(texels.iter().all(|b| *b == 0x40));
    }
}

/// Old layout of each layer of the base level in a mip chain.
fn base_layouts(commands: &[Command]) -> Vec<i32> {
    commands
        .iter()
        .filter_map(|c| match c {
            CommandOf::ImageBarrier { barrier, .. }
                if barrier.new_layout == vk::IMAGE_LAYOUT_TRANSFER_SRC_OPTIMAL =>
            {
                Some(barrier.old_layout)
            }
            _ => None,
        })
        .collect()
}

#[test]
fn mip_chains_start_from_the_layout_of_the_base_level() {
    let mut gpu = graphics_gpu();
    let desc = TextureDesc {
        mip_levels: 3,
        usage: TextureUsage {
            bits: TEXTURE_SAMPLED | TEXTURE_TRANSFER_SRC | TEXTURE_TRANSFER_DST,
        },
        ..tex_desc(TexDim::D2)
    };
    // Nothing was uploaded: the base level is in the undefined layout.
    let empty = gpu.create_texture(desc).unwrap();
    assert_eq!(
        base_layouts(&gpu.dev.generate_mipmaps(empty).unwrap()),
        [vk::IMAGE_LAYOUT_UNDEFINED]
    );
    gpu.generate_mipmaps(empty).unwrap();
    assert_eq!(
        base_layouts(&gpu.dev.generate_mipmaps(empty).unwrap()),
        [vk::IMAGE_LAYOUT_SHADER_READ_ONLY_OPTIMAL]
    );
    // A level that was rendered to is a color attachment.
    let rendered = gpu.create_texture(desc).unwrap();
    let target = gpu.dev.register_color_target(rendered).unwrap();
    gpu.dev.set_target_layout(target, vk::IMAGE_LAYOUT_COLOR_ATTACHMENT_OPTIMAL);
    assert_eq!(
        base_layouts(&gpu.dev.generate_mipmaps(rendered).unwrap()),
        [vk::IMAGE_LAYOUT_COLOR_ATTACHMENT_OPTIMAL]
    );
    // Of an array, each layer is in a layout of its own.
    let array = gpu.create_texture(TextureDesc { array_layers: 3, ..desc }).unwrap();
    gpu.upload(array, 0, 1, &vec![0u8; 8 * 8 * 4]).unwrap();
    gpu.upload(array, 1, 2, &vec![0u8; 4 * 4 * 4]).unwrap();
    assert_eq!(
        base_layouts(&gpu.dev.generate_mipmaps(array).unwrap()),
        [
            vk::IMAGE_LAYOUT_UNDEFINED,
            vk::IMAGE_LAYOUT_SHADER_READ_ONLY_OPTIMAL,
            vk::IMAGE_LAYOUT_UNDEFINED,
        ]
    );
    let single = gpu.create_texture(TextureDesc { mip_levels: 1, ..desc }).unwrap();
    assert!(gpu.dev.generate_mipmaps(single).unwrap().is_empty());
}

// ── Compute ────────────────────────────────────────────────────────────────────

#[test]
fn mixed_copy_dispatch_submission_round_trips_device_local_data() {
    let mut gpu = compute_gpu();
    let shader = gpu.create_shader(Kernel::Double);
    let pipeline = gpu.create_compute_pipeline(shader).unwrap();
    const N: u32 = 64;
    let size = N as u64 * 4;
    let upload = gpu
        .create_buffer(BufferDesc {
            size,
            usage: usage(BUFFER_TRANSFER_SRC),
            memory: MemoryUsage::Upload,
        })
        .unwrap();
    let input = gpu
        .create_buffer(BufferDesc {
            size,
            usage: usage(BUFFER_TRANSFER_DST | BUFFER_STORAGE),
            memory: MemoryUsage::GpuOnly,
        })
        .unwrap();
    let output = gpu
        .create_buffer(BufferDesc {
            size,
            usage: usage(BUFFER_STORAGE | BUFFER_TRANSFER_SRC),
            memory: MemoryUsage::GpuOnly,
        })
        .unwrap();
    let readback = gpu
        .create_buffer(BufferDesc {
            size,
            usage: usage(BUFFER_TRANSFER_DST | BUFFER_READBACK),
            memory: MemoryUsage::Readback,
        })
        .unwrap();
    let values: Vec<f32> = (0..N).map(|i| i as f32 - 17.0).collect();
    let bytes: Vec<u8> = values.iter().flat_map(|v| v.to_ne_bytes()).collect();
    gpu.write_buffer(upload, 0, &bytes).unwrap();
    let ops = vec![
        ComputeOp::CopyBuffer(BufferCopyOp {
            src: upload,
            src_offset: 0,
            dst: input,
            dst_offset: 0,
            len: size,
        }),
        ComputeOp::Dispatch(DispatchOp {
            pipeline,
            bindings: bindings(&[input.index(), output.index()], &[], &[Scalar::U32(N)]),
            grid: [1, 1, 1],
        }),
        ComputeOp::CopyBuffer(BufferCopyOp {
            src: output,
            src_offset: 0,
            dst: readback,
            dst_offset: 0,
            len: size,
        }),
    ];
    let plan = gpu.dev.submit_compute_ops(0x4d_49_58_45_44, &ops, order()).unwrap();
    let mut submission = gpu.submit(0x4d_49_58_45_44, plan).unwrap();
    assert_eq!(submission.cycle_id(), 0x4d_49_58_45_44);
    gpu.wait(&mut submission, true).unwrap();
    let actual = gpu.read_buffer(readback, 0, size).unwrap();
    for (index, bytes) in actual.chunks_exact(4).enumerate() {
        assert_eq!(f32::from_ne_bytes(bytes.try_into().unwrap()), values[index] * 2.0);
    }
    gpu.destroy_buffer(upload);
    gpu.destroy_buffer(input);
    gpu.destroy_buffer(output);
    gpu.destroy_buffer(readback);
    gpu.destroy_pipeline(pipeline);
    gpu.destroy_shader(shader);
}

#[test]
fn dispatch_batch_chains_ops_with_visible_writes() {
    let mut gpu = compute_gpu();
    let add_shader = gpu.create_shader(Kernel::Add);
    let add_pipeline = gpu.create_compute_pipeline(add_shader).unwrap();
    let relu_shader = gpu.create_shader(Kernel::Relu);
    let relu_pipeline = gpu.create_compute_pipeline(relu_shader).unwrap();

    let n: u32 = 8;
    let a = gpu.create_buffer(storage_rw(n as u64 * 4)).unwrap();
    let b = gpu.create_buffer(storage_rw(n as u64 * 4)).unwrap();
    let sum = gpu.create_buffer(storage_rw(n as u64 * 4)).unwrap();
    let out = gpu.create_buffer(storage_rw(n as u64 * 4)).unwrap();

    let a_vals: Vec<u8> = (0..n).flat_map(|i| (i as f32 - 4.0).to_ne_bytes()).collect();
    let b_vals: Vec<u8> = (0..n).flat_map(|_| (-10.0f32).to_ne_bytes()).collect();
    gpu.write_buffer(a, 0, &a_vals).unwrap();
    gpu.write_buffer(b, 0, &b_vals).unwrap();

    // sum = a + b (all negative); out = relu(sum) (all zero), batched as one submission. The
    // barrier between the operations makes the write of `sum` visible to the second one.
    let ops = vec![
        DispatchOp {
            pipeline: add_pipeline,
            bindings: bindings(&[a.index(), b.index(), sum.index()], &[], &[Scalar::U32(n)]),
            grid: [n.div_ceil(64), 1, 1],
        },
        DispatchOp {
            pipeline: relu_pipeline,
            bindings: bindings(&[sum.index(), out.index()], &[], &[Scalar::U32(n)]),
            grid: [n.div_ceil(64), 1, 1],
        },
    ];
    let commands = gpu.dev.dispatch_batch(&ops, order()).unwrap().unwrap();
    let first = commands.iter().position(|c| matches!(c, CommandOf::Dispatch { .. })).unwrap();
    assert!(matches!(commands[first + 1], CommandOf::MemoryBarrier { .. }));
    let plan = gpu.dev.submit_batch(0x4d_50_50_49, &ops, order()).unwrap();
    let mut submission = gpu.submit(0x4d_50_50_49, plan).unwrap();
    assert_eq!(submission.cycle_id(), 0x4d_50_50_49);
    let second_out = gpu.create_buffer(storage_rw(n as u64 * 4)).unwrap();
    let plan = gpu
        .dev
        .submit_batch(
            0x4d_50_50_4a,
            &vec![DispatchOp {
                pipeline: relu_pipeline,
                bindings: bindings(&[a.index(), second_out.index()], &[], &[Scalar::U32(n)]),
                grid: [n.div_ceil(64), 1, 1],
            }],
            order(),
        )
        .unwrap();
    let mut second_submission = gpu.submit(0x4d_50_50_4a, plan).unwrap();
    assert!(gpu.write_buffer(a, 0, &[0; 4]).is_err());
    // Destruction while pending invalidates handles at once but must not recycle slots until
    // the submissions complete.
    let retired_sum_index = sum.index();
    gpu.destroy_buffer(sum);
    gpu.destroy_pipeline(add_pipeline);
    assert!(gpu.read_buffer(sum, 0, 4).is_err());
    let allocated_while_pending = gpu.create_buffer(storage_rw(n as u64 * 4)).unwrap();
    assert_ne!(allocated_while_pending.index(), retired_sum_index);
    let zero_wait = gpu.wait(&mut submission, false);
    assert!(zero_wait.is_ok() || matches!(zero_wait, Err(GpuError::Timeout)));
    gpu.wait(&mut submission, true).unwrap();
    assert_eq!(gpu.poll(&mut submission).unwrap(), SubmissionStatus::Complete);
    let allocated_after_first = gpu.create_buffer(storage_rw(n as u64 * 4)).unwrap();
    assert_ne!(allocated_after_first.index(), retired_sum_index);
    gpu.wait(&mut second_submission, true).unwrap();
    assert_eq!(gpu.poll(&mut second_submission).unwrap(), SubmissionStatus::Complete);
    let allocated_after_completion = gpu.create_buffer(storage_rw(n as u64 * 4)).unwrap();
    assert_eq!(allocated_after_completion.index(), retired_sum_index);

    let bytes = gpu.read_buffer(out, 0, n as u64 * 4).unwrap();
    let result: Vec<f32> =
        bytes.chunks_exact(4).map(|c| f32::from_ne_bytes(c.try_into().unwrap())).collect();
    assert_eq!(result, &[0.0; 8]);

    gpu.destroy_shader(add_shader);
    gpu.destroy_pipeline(relu_pipeline);
    gpu.destroy_shader(relu_shader);
    gpu.destroy_buffer(allocated_while_pending);
    gpu.destroy_buffer(allocated_after_first);
    gpu.destroy_buffer(allocated_after_completion);
    gpu.destroy_buffer(second_out);
}

#[test]
fn zsl_trigonometry_runs_through_vulkan() {
    let mut gpu = compute_gpu();
    let n = 128u32;
    let size = u64::from(n) * 4;
    let src = gpu.create_buffer(storage_rw(size)).unwrap();
    let out = gpu.create_buffer(storage_rw(size)).unwrap();
    let input: Vec<f32> = (0..n).map(|i| -0.5 + i as f32 / n as f32).collect();
    let bytes: Vec<u8> = input.iter().flat_map(|v| v.to_ne_bytes()).collect();
    gpu.write_buffer(src, 0, &bytes).unwrap();

    let shader = gpu.create_shader(Kernel::Trig);
    let pipeline = gpu.create_compute_pipeline(shader).unwrap();
    gpu.dispatch(DispatchOp {
        pipeline,
        bindings: bindings(&[src.index(), out.index()], &[], &[Scalar::U32(n)]),
        grid: [n.div_ceil(64), 1, 1],
    })
    .unwrap();

    let raw = gpu.read_buffer(out, 0, size).unwrap();
    for (i, value) in input.iter().copied().enumerate() {
        let got = f32::from_ne_bytes(raw[i * 4..i * 4 + 4].try_into().unwrap());
        let expected = value.sin() + value.cos() + value.tan();
        assert!((got - expected).abs() < 2e-5, "out[{i}] mismatch");
    }

    gpu.destroy_pipeline(pipeline);
    gpu.destroy_shader(shader);
    gpu.destroy_buffer(src);
    gpu.destroy_buffer(out);
}

#[test]
fn zsl_integer_buffers_round_trip_through_vulkan() {
    let mut gpu = compute_gpu();
    let n = 128u32;
    let size = u64::from(n) * 4;
    let src_u = gpu.create_buffer(storage_rw(size)).unwrap();
    let src_i = gpu.create_buffer(storage_rw(size)).unwrap();
    let out_u = gpu.create_buffer(storage_rw(size)).unwrap();
    let out_i = gpu.create_buffer(storage_rw(size)).unwrap();
    let bytes_u: Vec<u8> =
        (0..n).flat_map(|value| value.wrapping_mul(2_654_435_761).to_ne_bytes()).collect();
    let bytes_i: Vec<u8> = (0..n as i32).flat_map(|value| (value - 64).to_ne_bytes()).collect();
    gpu.write_buffer(src_u, 0, &bytes_u).unwrap();
    gpu.write_buffer(src_i, 0, &bytes_i).unwrap();

    let shader = gpu.create_shader(Kernel::Typed);
    let pipeline = gpu.create_compute_pipeline(shader).unwrap();
    gpu.dispatch(DispatchOp {
        pipeline,
        bindings: bindings(
            &[src_u.index(), src_i.index(), out_u.index(), out_i.index()],
            &[],
            &[Scalar::U32(n)],
        ),
        grid: [n.div_ceil(64), 1, 1],
    })
    .unwrap();

    assert_eq!(gpu.read_buffer(out_u, 0, size).unwrap(), bytes_u);
    assert_eq!(gpu.read_buffer(out_i, 0, size).unwrap(), bytes_i);
    gpu.destroy_pipeline(pipeline);
    gpu.destroy_shader(shader);
    gpu.destroy_buffer(src_u);
    gpu.destroy_buffer(src_i);
    gpu.destroy_buffer(out_u);
    gpu.destroy_buffer(out_i);
}

#[test]
fn zsl_finite_classification_runs_through_vulkan() {
    let mut gpu = compute_gpu();
    let input = [0.0f32, -12.5, f32::NAN, f32::INFINITY, f32::NEG_INFINITY];
    let expected = [1u32, 1, 2, 3, 3];
    let size = std::mem::size_of_val(&input) as u64;
    let src = gpu.create_buffer(storage_rw(size)).unwrap();
    let out = gpu.create_buffer(storage_rw(size)).unwrap();
    let bytes: Vec<u8> = input.iter().flat_map(|v| v.to_ne_bytes()).collect();
    gpu.write_buffer(src, 0, &bytes).unwrap();

    let shader = gpu.create_shader(Kernel::Classify);
    let pipeline = gpu.create_compute_pipeline(shader).unwrap();
    gpu.dispatch(DispatchOp {
        pipeline,
        bindings: bindings(
            &[src.index(), out.index()],
            &[],
            &[Scalar::U32(input.len() as u32)],
        ),
        grid: [1, 1, 1],
    })
    .unwrap();

    let raw = gpu.read_buffer(out, 0, size).unwrap();
    let actual: Vec<u32> =
        raw.chunks_exact(4).map(|c| u32::from_ne_bytes(c.try_into().unwrap())).collect();
    assert_eq!(actual, expected);
    gpu.destroy_pipeline(pipeline);
    gpu.destroy_shader(shader);
    gpu.destroy_buffer(src);
    gpu.destroy_buffer(out);
}

#[test]
fn dispatch_rejects_invalid_bindless_buffer_indices() {
    let mut gpu = compute_gpu();
    let shader = gpu.create_shader(Kernel::Fill);
    let pipeline = gpu.create_compute_pipeline(shader).unwrap();

    let non_storage = gpu.create_buffer(rw_desc(4)).unwrap();
    let op = |index: u32| DispatchOp {
        pipeline,
        bindings: bindings(&[index], &[], &[]),
        grid: [1, 1, 1],
    };
    let err = gpu.dispatch(op(non_storage.index())).unwrap_err();
    assert!(matches!(
        err,
        GpuError::InvalidUsage(UsageError::MissingUsage { needed: "STORAGE", .. })
    ));
    gpu.destroy_buffer(non_storage);

    let storage = gpu
        .create_buffer(BufferDesc {
            size: 4,
            usage: usage(BUFFER_STORAGE),
            memory: MemoryUsage::Upload,
        })
        .unwrap();
    let stale_index = storage.index();
    gpu.dispatch(op(stale_index)).unwrap();
    gpu.destroy_buffer(storage);
    let err = gpu.dispatch(op(stale_index)).unwrap_err();
    assert!(matches!(
        err,
        GpuError::InvalidUsage(UsageError::BindingMismatch(message))
            if message.contains("not live")
    ));

    let err = gpu.dispatch(op(gpu.dev.limits().max_storage_buffers)).unwrap_err();
    assert!(matches!(
        err,
        GpuError::InvalidUsage(UsageError::BindingMismatch(message))
            if message.contains("capacity") || message.contains("not live")
    ));

    gpu.destroy_pipeline(pipeline);
    gpu.destroy_shader(shader);
}

#[test]
fn dispatch_rejects_destroyed_bound_texture_index() {
    let mut gpu = graphics_gpu();
    let shader = gpu.create_shader(Kernel::Fill);
    let pipeline = gpu.create_compute_pipeline(shader).unwrap();
    let output = gpu
        .create_buffer(BufferDesc {
            size: 4,
            usage: usage(BUFFER_STORAGE),
            memory: MemoryUsage::Upload,
        })
        .unwrap();
    let texture = gpu.create_texture(tex_desc(TexDim::D2)).unwrap();
    let sampler = gpu.create_sampler(full_sampler());
    let texture_index = gpu.dev.bind_texture(texture, sampler).unwrap().element;
    gpu.destroy_texture(texture);

    let err = gpu
        .dispatch(DispatchOp {
            pipeline,
            bindings: bindings(&[output.index()], &[texture_index], &[]),
            grid: [1, 1, 1],
        })
        .unwrap_err();
    assert!(matches!(
        err,
        GpuError::InvalidUsage(UsageError::BindingMismatch(message))
            if message.contains("not live and bound")
    ));

    gpu.destroy_sampler(sampler);
    gpu.destroy_buffer(output);
    gpu.destroy_pipeline(pipeline);
    gpu.destroy_shader(shader);
}

#[test]
fn deferred_resources_are_destroyed_with_the_last_submission() {
    let mut gpu = compute_gpu();
    let shader = gpu.create_shader(Kernel::Fill);
    let pipeline = gpu.create_compute_pipeline(shader).unwrap();
    let out = gpu.create_buffer(storage_rw(16)).unwrap();
    let block = gpu.dev.buffer(out).unwrap().memory;
    let ops = vec![DispatchOp {
        pipeline,
        bindings: bindings(&[out.index()], &[], &[]),
        grid: [4, 1, 1],
    }];
    let plan = gpu.dev.submit_batch(1, &ops, order()).unwrap();
    let mut submission = gpu.submit(1, plan).unwrap();
    gpu.destroy_buffer(out);
    gpu.destroy_pipeline(pipeline);
    assert!(gpu.live.contains(&block));
    assert_eq!(gpu.poll(&mut submission).unwrap(), SubmissionStatus::Pending);
    assert!(gpu.live.contains(&block));
    gpu.wait(&mut submission, true).unwrap();
    assert!(!gpu.live.contains(&block));
    gpu.wait(&mut submission, true).unwrap();
    // The fence and the command buffer were pooled, and are used again.
    let before = gpu.live.len();
    let next = gpu.create_buffer(storage_rw(16)).unwrap();
    assert_eq!(next.index(), 0);
    let copy = BufferCopyOp { src: next, src_offset: 0, dst: next, dst_offset: 8, len: 8 };
    assert!(gpu.copy_buffer(copy).is_err());
    assert_eq!(gpu.live.len(), before + 2);
}

#[test]
fn abandoned_submission_is_waited_for() {
    let mut gpu = compute_gpu();
    let shader = gpu.create_shader(Kernel::Fill);
    let pipeline = gpu.create_compute_pipeline(shader).unwrap();
    let out = gpu.create_buffer(storage_rw(4)).unwrap();
    let ops = vec![DispatchOp {
        pipeline,
        bindings: bindings(&[out.index()], &[], &[]),
        grid: [1, 1, 1],
    }];
    let plan = gpu.dev.submit_batch(1, &ops, order()).unwrap();
    let submission = gpu.submit(1, plan).unwrap();
    gpu.destroy_buffer(out);
    let steps = submission.abandon(&mut gpu.dev, true);
    assert_eq!(steps.len(), 3);
    gpu.clean(steps);
    assert!(gpu.dev.acquire_fence().is_some());
    assert!(gpu.dev.acquire_cmd().is_some());
}

#[test]
fn empty_work_needs_no_submission() {
    let mut gpu = compute_gpu();
    assert!(gpu.dev.dispatch_batch(&vec![], order()).unwrap().is_none());
    let plan = gpu.dev.submit_batch(7, &vec![], order()).unwrap();
    assert!(matches!(&plan, AsyncPlan::Done(s) if s.cycle_id() == 7 && s.fence().is_none()));
    let mut done = gpu.submit(7, plan).unwrap();
    assert_eq!(gpu.poll(&mut done).unwrap(), SubmissionStatus::Complete);
    assert!(gpu.wait(&mut done, false).is_ok());
    let plan = gpu.dev.submit_compute_ops(8, &vec![], order()).unwrap();
    assert!(matches!(&plan, AsyncPlan::Done(s) if s.cycle_id() == 8));
    // A list of empty copies has no commands but is submitted.
    let a = gpu
        .create_buffer(BufferDesc {
            size: 8,
            usage: usage(BUFFER_TRANSFER_SRC | BUFFER_TRANSFER_DST),
            memory: MemoryUsage::Upload,
        })
        .unwrap();
    let b = gpu
        .create_buffer(BufferDesc {
            size: 8,
            usage: usage(BUFFER_TRANSFER_SRC | BUFFER_TRANSFER_DST),
            memory: MemoryUsage::Upload,
        })
        .unwrap();
    let copy = BufferCopyOp { src: a, src_offset: 8, dst: b, dst_offset: 8, len: 0 };
    let plan = gpu.dev.submit_compute_ops(9, &vec![ComputeOp::CopyBuffer(copy)], order()).unwrap();
    assert!(matches!(&plan, AsyncPlan::Record(commands) if commands.is_empty()));
    let mut submission = gpu.submit(9, plan).unwrap();
    assert_eq!(gpu.poll(&mut submission).unwrap(), SubmissionStatus::Pending);
    assert!(gpu.dev.copy_buffer(&copy).is_err());
    // A wait that times out leaves fence and command buffer with the submission.
    let fence = submission.fence();
    assert!(fence.is_some());
    assert!(matches!(gpu.wait(&mut submission, false), Err(GpuError::Timeout)));
    assert_eq!(submission.fence(), fence);
    assert_eq!(gpu.dev.acquire_fence(), None);
    let (failed, steps) = submission.poll(&mut gpu.dev, Err(vk::ERROR_DEVICE_LOST));
    assert!(matches!(failed, Err(GpuError::DeviceLost)));
    assert!(steps.is_empty());
    gpu.wait(&mut submission, true).unwrap();
    assert_eq!(gpu.dev.acquire_fence(), fence);
    assert!(gpu.dev.acquire_cmd().is_some());
    // Once complete, nothing is given back again.
    gpu.wait(&mut submission, true).unwrap();
    assert_eq!(gpu.dev.acquire_fence(), None);
    assert!(submission.abandon(&mut gpu.dev, true).is_empty());
    assert_eq!(gpu.dev.acquire_cmd(), None);
}

#[test]
fn abandoned_submission_after_a_failed_wait_recycles_nothing() {
    let mut gpu = compute_gpu();
    let fence = gpu.fence().unwrap();
    let cmd = gpu.cmd().unwrap();
    let submission = gpu.dev.submitted_async(1, cmd, fence, Ok(())).unwrap();
    assert_eq!(submission.abandon(&mut gpu.dev, false), vec![Cleanup::DestroyFence(fence)]);
    assert_eq!(gpu.dev.acquire_fence(), None);
    assert_eq!(gpu.dev.acquire_cmd(), None);
}

#[test]
fn refused_submission_returns_its_objects() {
    let mut gpu = compute_gpu();
    let cmd = gpu.cmd().unwrap();
    let fence = gpu.fence().unwrap();
    let err = gpu.dev.submitted(cmd, fence, Err(vk::ERROR_DEVICE_LOST)).unwrap_err();
    assert!(matches!(err, GpuError::DeviceLost));
    assert_eq!(gpu.dev.acquire_cmd(), Some(cmd));
    assert_eq!(gpu.dev.acquire_fence(), Some(fence));
    let (result, step) = gpu.dev.waited(cmd, fence, Err(vk::ERROR_OUT_OF_DEVICE_MEMORY));
    assert!(matches!(result, Err(GpuError::OutOfMemory(MemoryUsage::GpuOnly))));
    assert_eq!(step, Some(Cleanup::DestroyFence(fence)));
    assert_eq!(gpu.dev.acquire_cmd(), None);
    assert_eq!(gpu.dev.acquire_fence(), None);
}

#[test]
fn command_list_is_ended_before_it_is_submitted() {
    let mut gpu = graphics_gpu();
    assert!(matches!(gpu.dev.submit_and_wait(Err(-1)), Err(GpuError::Backend(_))));
    assert!(matches!(gpu.dev.submit_and_wait(Ok(())), Ok(None)));
    let cmd = gpu.cmd().unwrap();
    let fence = gpu.fence().unwrap();
    let (result, _) = gpu.dev.waited(cmd, fence, Ok(()));
    result.unwrap();
    assert_eq!(gpu.dev.submit_and_wait(Ok(())).unwrap(), Some(fence));
}

#[test]
fn timeouts_saturate() {
    assert_eq!(submission::timeout_ns(0, 0), 0);
    assert_eq!(submission::timeout_ns(5, 250), 5_000_000_250);
    assert_eq!(submission::timeout_ns(18_446_744_073, 709_551_615), u64::MAX);
    assert_eq!(submission::timeout_ns(18_446_744_073, 709_551_616), u64::MAX);
    assert_eq!(submission::timeout_ns(u64::MAX, 999_999_999), u64::MAX);
}

#[test]
fn push_constants_are_words_in_memory_order() {
    let b = bindings(&[7], &[9], &[Scalar::I32(-2), Scalar::F32(1.5f32.to_bits())]);
    let bytes = zengpu_vulkan::device::constants::pack_compute_constants(&b, order()).unwrap();
    let mut expected = Vec::new();
    expected.extend(7u32.to_ne_bytes());
    expected.extend((-2i32).to_ne_bytes());
    expected.extend(1.5f32.to_ne_bytes());
    assert_eq!(bytes, expected);
    let many = bindings(&[0; 33], &[], &[]);
    assert!(matches!(
        zengpu_vulkan::device::constants::pack_compute_constants(&many, order()),
        Err(GpuError::Dispatch(_))
    ));
}

#[test]
fn shaders_are_whole_words() {
    let odd = ShaderSource::Spirv(vec![1, 2, 3]);
    match pipelines::create_shader(&odd, order()) {
        Err(GpuError::ShaderCompile(text)) => {
            assert_eq!(text, "SPIR-V byte length must be a multiple of 4")
        }
        _ => panic!("shader accepted"),
    }
    assert!(matches!(
        pipelines::create_shader(&ShaderSource::Other, order()),
        Err(GpuError::ShaderCompile(_))
    ));
}

#[test]
fn entry_names_hold_no_zero() {
    match pipelines::entry_name(b"ma\0in") {
        Err(GpuError::PipelineCreation(text)) => assert_eq!(
            text,
            "entry name nul: nul byte found in provided data at position: 2"
        ),
        _ => panic!("name accepted"),
    }
}

#[test]
fn pipelines_need_live_shaders() {
    let mut gpu = compute_gpu();
    let shader = gpu.create_shader(Kernel::Fill);
    gpu.destroy_shader(shader);
    match gpu.dev.create_compute_pipeline(shader) {
        Err(GpuError::PipelineCreation(text)) => assert_eq!(text, "stale shader handle"),
        _ => panic!("dead shader accepted"),
    }
    match gpu.dev.pipeline_created(false, 5, Err(-3)) {
        Err(u) => {
            assert_eq!(u.cleanup, [Cleanup::DestroyPipelineLayout(5)]);
            assert!(matches!(u.error, GpuError::PipelineCreation(_)));
        }
        Ok(_) => panic!("failure ignored"),
    }
}

// ── Offscreen targets ──────────────────────────────────────────────────────────

fn offscreen(gpu: &mut Gpu, width: u32, height: u32) -> OffscreenTarget {
    let desc = OffscreenTarget::texture_desc(Format::Rgba8Unorm, width, height);
    let texture = gpu.create_texture(desc).unwrap();
    match OffscreenTarget::new(&mut gpu.dev, texture, Format::Rgba8Unorm, width, height) {
        Ok(target) => target,
        Err(u) => panic!("{:?}", u.error),
    }
}

#[test]
fn offscreen_target_handles_are_valid() {
    let mut gpu = graphics_gpu();
    let target = offscreen(&mut gpu, 64, 32);
    assert_eq!(target.format(), Format::Rgba8Unorm);
    assert_eq!(target.extent(), (64, 32));
    assert!(gpu.dev.texture(target.texture_handle()).is_some());
    assert!(gpu.dev.target(target.target_handle()).is_some());
}

#[test]
fn offscreen_target_resize() {
    let mut gpu = graphics_gpu();
    let mut target = offscreen(&mut gpu, 64, 32);
    let old_texture = target.texture_handle();
    let old_target = target.target_handle();
    let desc = OffscreenTarget::texture_desc(Format::Rgba8Unorm, 128, 96);
    let texture = gpu.create_texture(desc).unwrap();
    let steps = match target.resize(&mut gpu.dev, texture, 128, 96) {
        Ok(steps) => steps,
        Err(u) => panic!("{:?}", u.error),
    };
    gpu.clean(steps);
    assert_eq!(target.extent(), (128, 96));
    assert_eq!(target.format(), Format::Rgba8Unorm);
    assert!(gpu.dev.texture(old_texture).is_none());
    assert!(gpu.dev.target(old_target).is_none());
}

#[test]
fn the_rendered_image_is_the_sampled_image() {
    let mut gpu = graphics_gpu();
    let target = offscreen(&mut gpu, 8, 8);
    let rt = gpu.dev.target(target.target_handle()).unwrap();
    let texture = gpu.dev.texture(target.texture_handle()).unwrap();
    assert_eq!((rt.image, rt.view), (texture.image, texture.view));
    let sampler = gpu.create_sampler(full_sampler());
    let descriptor = gpu.dev.bind_texture(target.texture_handle(), sampler).unwrap();
    assert_eq!(descriptor.image_view, rt.view);
}

#[test]
fn a_dropped_target_is_refused() {
    let mut gpu = graphics_gpu();
    let target = offscreen(&mut gpu, 8, 8);
    let sampler = gpu.create_sampler(full_sampler());
    let slot = target.texture_handle().index();
    gpu.dev.bind_texture(target.texture_handle(), sampler).unwrap();
    let shader = gpu.create_shader(Kernel::Fill);
    let pipeline = gpu.create_compute_pipeline(shader).unwrap();
    let with_slot = || bindings(&[], &[slot], &[]);
    assert!(gpu.dev.dispatch(pipeline, with_slot(), [1, 1, 1], order()).is_ok());
    let steps = target.release(&mut gpu.dev);
    gpu.clean(steps);
    assert!(gpu.dev.dispatch(pipeline, with_slot(), [1, 1, 1], order()).is_err());
    let next = gpu.create_texture(tex_desc(TexDim::D2)).unwrap();
    assert_eq!(next.index(), slot);
    gpu.dev.bind_texture(next, sampler).unwrap();
    assert!(gpu.dev.dispatch(pipeline, with_slot(), [1, 1, 1], order()).is_ok());
}

#[test]
fn offscreen_target_of_a_dead_texture_is_refused() {
    let mut gpu = graphics_gpu();
    let texture = gpu.create_texture(tex_desc(TexDim::D2)).unwrap();
    gpu.destroy_texture(texture);
    match OffscreenTarget::new(&mut gpu.dev, texture, Format::Rgba8Unorm, 8, 8) {
        Err(u) => match u.error {
            GpuError::Backend(text) => {
                assert_eq!(text, "register_color_target: stale texture handle")
            }
            _ => panic!("other error"),
        },
        Ok(_) => panic!("dead texture accepted"),
    }
}

// ── Teardown and context ───────────────────────────────────────────────────────

#[test]
fn a_device_is_torn_down_table_by_table() {
    let mut gpu = graphics_gpu();
    let tex = gpu.create_texture(tex_desc(TexDim::D2)).unwrap();
    let _ = tex;
    let buffer = gpu.create_buffer(rw_desc(4)).unwrap();
    let _ = gpu.create_sampler(full_sampler());
    let b = gpu.dev.buffer(buffer).unwrap();
    let steps = gpu.dev.destroy();
    assert_eq!(steps[0], Cleanup::UnmapMemory(b.memory));
    assert_eq!(steps[1], Cleanup::DestroyBuffer(b.buffer));
    assert_eq!(steps.len(), 3 + 3 + 1 + 3);
    assert_eq!(
        steps[7..],
        [
            Cleanup::DestroyPipelineCache(8),
            Cleanup::DestroyDescriptorPool(2),
            Cleanup::DestroyDescriptorSetLayout(1),
        ]
    );
}

#[test]
fn the_context_knows_its_device() {
    let gpu = graphics_gpu();
    let ctx = gpu.dev.context();
    assert!(ctx.is_device(&gpu.dev));
    assert_eq!((ctx.instance(), ctx.physical(), ctx.device(), ctx.queue()), (4, 5, 6, 7));
    assert_eq!(ctx.queue_family(), 0);
    assert!(ctx.supports_dual_source_blending());
    assert!(ctx.supports_non_solid_fill());
    assert_eq!(ctx.memory_properties().len(), 3);
}

#[test]
fn adapters_are_ranked() {
    let instance =
        VulkanInstance::new(zengpu_vulkan::instance::Platform::Linux, &vec![], &vec![]).unwrap();
    let types = vec![
        DeviceType::Cpu,
        DeviceType::Integrated,
        DeviceType::Discrete,
        DeviceType::Discrete,
    ];
    assert_eq!(instance.request_vulkan_adapter(&types), Some(3));
    assert_eq!(instance.request_adapter(&types, PowerPreference::HighPerformance), Some(2));
    assert_eq!(
        instance.request_vulkan_adapter_with_pref(&types, PowerPreference::LowPower),
        Some(1)
    );
    assert_eq!(instance.request_vulkan_adapter(&vec![]), None);
}
