//! Frame graph, render passes and draws.
use zengpu_vulkan::command::{Cleanup, ClearValue, Command, CommandOf};
use zengpu_vulkan::command_list::{
    ColorAttachment, DepthAttachment, LoadOp, RenderPassDesc, VulkanCommandList,
};
use zengpu_vulkan::depth_target::{DepthTarget, DEPTH_FORMAT};
use zengpu_vulkan::device::constants::{Bindings, ByteOrder, Scalar};
use zengpu_vulkan::device::pipelines::{
    GraphicsPipelineDesc, GraphicsState, VertexAttribute, VertexLayout,
};
use zengpu_vulkan::device::{
    Bindless, BufferHandle, DeviceHandles, DeviceInfo, TargetHandle, VulkanDevice,
    VulkanRenderTarget,
};
use zengpu_vulkan::error::GpuError;
use zengpu_vulkan::frame_graph::{AttachmentUsage, FrameGraph, FrameStep, ResourceId};
use zengpu_vulkan::hal::{
    BlendMode, BufferDesc, BufferUsage, CompareFn, CullMode, DeviceLimits, Features, Format,
    FrontFace, MemoryUsage, PolygonMode, PrimitiveTopology, StepMode, VertexFormat, BUFFER_INDEX,
    BUFFER_VERTEX,
};
use zengpu_vulkan::vk;

const EXTENT: vk::Extent2D = vk::Extent2D { width: 64, height: 48 };

fn add(graph: &mut FrameGraph, image: u64, layout: i32) -> ResourceId {
    graph.add_resource(image, image + 100, vk::FORMAT_B8G8R8A8_UNORM, EXTENT, layout)
}

fn order_of(steps: &[FrameStep]) -> Vec<usize> {
    steps
        .iter()
        .filter_map(|s| match s {
            FrameStep::Record(i) => Some(*i),
            FrameStep::Barrier { .. } => None,
        })
        .collect()
}

#[test]
fn writers_come_before_readers() {
    let mut graph = FrameGraph::new();
    let a = add(&mut graph, 1, vk::IMAGE_LAYOUT_UNDEFINED);
    let b = add(&mut graph, 2, vk::IMAGE_LAYOUT_UNDEFINED);
    // Declared in reverse: the last pass writes what the first one reads.
    graph.add_pass(&[(b, AttachmentUsage::ColorWrite), (a, AttachmentUsage::ShaderSample)]);
    graph.add_pass(&[(a, AttachmentUsage::ColorWrite)]);
    assert_eq!(graph.topo_sort(), [1, 0]);
    assert!(graph.has_valid_ids());
    assert_eq!(order_of(&graph.execute()), [1, 0]);
}

#[test]
fn independent_passes_keep_their_order() {
    let mut graph = FrameGraph::default();
    let a = add(&mut graph, 1, vk::IMAGE_LAYOUT_UNDEFINED);
    let b = add(&mut graph, 2, vk::IMAGE_LAYOUT_UNDEFINED);
    graph.add_pass(&[(b, AttachmentUsage::ColorWrite)]);
    graph.add_pass(&[(a, AttachmentUsage::ColorWrite)]);
    graph.add_pass(&[]);
    assert_eq!(graph.pass_count(), 3);
    assert_eq!(graph.topo_sort(), [0, 1, 2]);
}

#[test]
fn cyclic_passes_are_recorded_last() {
    let mut graph = FrameGraph::new();
    let a = add(&mut graph, 1, vk::IMAGE_LAYOUT_UNDEFINED);
    let b = add(&mut graph, 2, vk::IMAGE_LAYOUT_UNDEFINED);
    graph.add_pass(&[(a, AttachmentUsage::ColorWrite), (b, AttachmentUsage::ShaderSample)]);
    graph.add_pass(&[(b, AttachmentUsage::ColorWrite), (a, AttachmentUsage::ShaderSample)]);
    graph.add_pass(&[]);
    graph.add_pass(&[(a, AttachmentUsage::ShaderSample)]);
    assert_eq!(graph.topo_sort(), [2, 0, 1, 3]);
    assert_eq!(order_of(&graph.execute()), [2, 0, 1, 3]);
}

#[test]
fn a_pass_that_reads_its_own_target_is_recorded() {
    let mut graph = FrameGraph::new();
    let a = add(&mut graph, 1, vk::IMAGE_LAYOUT_UNDEFINED);
    graph.add_pass(&[(a, AttachmentUsage::ColorWrite), (a, AttachmentUsage::ShaderSample)]);
    assert_eq!(graph.topo_sort(), [0]);
}

#[test]
fn barriers_stand_where_layouts_change() {
    let mut graph = FrameGraph::new();
    let a = add(&mut graph, 1, vk::IMAGE_LAYOUT_UNDEFINED);
    let screen = add(&mut graph, 2, vk::IMAGE_LAYOUT_UNDEFINED);
    graph.add_pass(&[(a, AttachmentUsage::ColorWrite)]);
    graph.add_pass(&[(a, AttachmentUsage::ShaderSample), (screen, AttachmentUsage::ColorWrite)]);
    graph.mark_present(screen);
    let steps = graph.execute();
    assert_eq!(steps.len(), 4);
    assert!(matches!(steps[0], FrameStep::Record(0)));
    match &steps[1] {
        FrameStep::Barrier { src_stages, dst_stages, barriers } => {
            assert_eq!(*src_stages, vk::PIPELINE_STAGE_COLOR_ATTACHMENT_OUTPUT);
            assert_eq!(*dst_stages, vk::PIPELINE_STAGE_FRAGMENT_SHADER);
            assert_eq!(barriers.len(), 1);
            assert_eq!(barriers[0].image, 1);
            assert_eq!(barriers[0].src_access_mask, vk::ACCESS_COLOR_ATTACHMENT_WRITE);
            assert_eq!(barriers[0].dst_access_mask, vk::ACCESS_SHADER_READ);
            assert_eq!(barriers[0].old_layout, vk::IMAGE_LAYOUT_COLOR_ATTACHMENT_OPTIMAL);
            assert_eq!(barriers[0].new_layout, vk::IMAGE_LAYOUT_SHADER_READ_ONLY_OPTIMAL);
        }
        _ => panic!("no barrier before the reader"),
    }
    assert!(matches!(steps[2], FrameStep::Record(1)));
    match &steps[3] {
        FrameStep::Barrier { src_stages, dst_stages, barriers } => {
            assert_eq!(*src_stages, vk::PIPELINE_STAGE_COLOR_ATTACHMENT_OUTPUT);
            assert_eq!(*dst_stages, vk::PIPELINE_STAGE_BOTTOM_OF_PIPE);
            assert_eq!(barriers[0].image, 2);
            assert_eq!(barriers[0].dst_access_mask, 0);
            assert_eq!(barriers[0].new_layout, vk::IMAGE_LAYOUT_PRESENT_SRC_KHR);
        }
        _ => panic!("no barrier for presentation"),
    }
}

#[test]
fn a_presentable_target_needs_no_barrier() {
    let mut graph = FrameGraph::new();
    let screen = add(&mut graph, 2, vk::IMAGE_LAYOUT_PRESENT_SRC_KHR);
    graph.mark_present(screen);
    assert!(graph.execute().is_empty());
}

#[test]
fn unknown_layouts_wait_for_everything() {
    let mut graph = FrameGraph::new();
    let a = add(&mut graph, 1, vk::IMAGE_LAYOUT_TRANSFER_DST_OPTIMAL);
    graph.add_pass(&[(a, AttachmentUsage::ColorWrite)]);
    match &graph.execute()[0] {
        FrameStep::Barrier { src_stages, barriers, .. } => {
            assert_eq!(*src_stages, vk::PIPELINE_STAGE_ALL_COMMANDS);
            assert_eq!(
                barriers[0].src_access_mask,
                vk::ACCESS_MEMORY_READ | vk::ACCESS_MEMORY_WRITE
            );
        }
        _ => panic!("no barrier"),
    }
}

#[test]
fn foreign_ids_are_noticed() {
    let mut other = FrameGraph::new();
    let id = add(&mut other, 1, vk::IMAGE_LAYOUT_UNDEFINED);
    let mut graph = FrameGraph::new();
    graph.add_pass(&[(id, AttachmentUsage::ColorWrite)]);
    assert!(!graph.has_valid_ids());
}

// ── Render passes ──────────────────────────────────────────────────────────────

fn device() -> VulkanDevice {
    VulkanDevice::new(
        DeviceInfo {
            handles: DeviceHandles {
                instance: 1,
                physical: 2,
                device: 3,
                queue: 4,
                queue_family: 0,
            },
            limits: DeviceLimits::default(),
            features: Features { bits: 0 },
            graphics: true,
            dual_src_blend: false,
            fill_mode_non_solid: false,
            sampler_anisotropy: false,
            pipeline_cache: 5,
        },
        vec![vk::MEMORY_PROPERTY_DEVICE_LOCAL],
        Bindless { layout: 6, pool: 7, set: 8, buffer_capacity: 4, texture_capacity: 4 },
    )
}

fn target(dev: &mut VulkanDevice, image: u64, layout: i32) -> TargetHandle {
    dev.register_target(VulkanRenderTarget {
        image,
        view: image + 100,
        format: vk::FORMAT_B8G8R8A8_UNORM,
        extent: EXTENT,
        layout,
    })
}

const RED: ClearValue = ClearValue { r: 0x3f80_0000, g: 0, b: 0, a: 0x3f80_0000 };

#[test]
fn a_pass_brings_its_targets_to_their_layouts() {
    let mut dev = device();
    let color = target(&mut dev, 1, vk::IMAGE_LAYOUT_UNDEFINED);
    let depth = DepthTarget::new(20, 21, 22, 64, 48);
    let depth_handle = dev.register_depth_target(&depth);
    let mut list = VulkanCommandList::new(&dev, 40);
    assert_eq!(list.raw(), 40);
    let plan = list.begin_render_pass(
        &mut dev,
        &RenderPassDesc {
            color: vec![ColorAttachment {
                target: color,
                load: LoadOp::Clear(RED),
                store: true,
                sample_after: true,
            }],
            depth: Some(DepthAttachment {
                target: depth_handle,
                load: LoadOp::Load,
                store: false,
            }),
        },
    );
    assert_eq!(plan.transitions.len(), 2);
    assert_eq!(plan.extent, EXTENT);
    assert_eq!(plan.color[0].image_view, 101);
    assert_eq!(plan.color[0].load_op, vk::ATTACHMENT_LOAD_OP_CLEAR);
    assert_eq!(plan.color[0].store_op, vk::ATTACHMENT_STORE_OP_STORE);
    assert_eq!(plan.color[0].clear, RED);
    assert_eq!(plan.depth.unwrap().image_view, 22);
    assert_eq!(plan.depth.unwrap().load_op, vk::ATTACHMENT_LOAD_OP_LOAD);
    assert_eq!(plan.depth.unwrap().store_op, vk::ATTACHMENT_STORE_OP_DONT_CARE);
    assert_eq!(
        dev.target(color).unwrap().layout,
        vk::IMAGE_LAYOUT_COLOR_ATTACHMENT_OPTIMAL
    );
    assert_eq!(
        dev.target(depth_handle).unwrap().layout,
        vk::IMAGE_LAYOUT_DEPTH_ATTACHMENT_OPTIMAL
    );
    let end = list.end_render_pass(&mut dev);
    assert!(matches!(end[0], CommandOf::EndRendering));
    assert!(matches!(end[1], CommandOf::ImageBarrier { .. }));
    assert_eq!(
        dev.target(color).unwrap().layout,
        vk::IMAGE_LAYOUT_SHADER_READ_ONLY_OPTIMAL
    );
}

/// Layout of an image after commands that find it in `layout`.
fn followed(commands: &[Command], image: u64, mut layout: i32) -> i32 {
    for command in commands {
        if let CommandOf::ImageBarrier { barrier, .. } = command {
            if barrier.image == image {
                assert!(
                    barrier.old_layout == layout
                        || barrier.old_layout == vk::IMAGE_LAYOUT_UNDEFINED
                );
                layout = barrier.new_layout;
            }
        }
    }
    layout
}

#[test]
fn tracked_layouts_are_those_of_the_images() {
    let mut dev = device();
    let images: [u64; 2] = [1, 2];
    let targets = [
        target(&mut dev, images[0], vk::IMAGE_LAYOUT_UNDEFINED),
        target(&mut dev, images[1], vk::IMAGE_LAYOUT_UNDEFINED),
    ];
    let mut layouts = [vk::IMAGE_LAYOUT_UNDEFINED; 2];
    let mut list = VulkanCommandList::new(&dev, 40);
    for sample_after in [true, false, true] {
        let plan = list.begin_render_pass(
            &mut dev,
            &RenderPassDesc {
                color: vec![
                    ColorAttachment {
                        target: targets[0],
                        load: LoadOp::Load,
                        store: true,
                        sample_after,
                    },
                    ColorAttachment {
                        target: targets[1],
                        load: LoadOp::Load,
                        store: true,
                        sample_after: false,
                    },
                ],
                depth: None,
            },
        );
        for i in 0..2 {
            layouts[i] = followed(&plan.transitions, images[i], layouts[i]);
            assert_eq!(layouts[i], vk::IMAGE_LAYOUT_COLOR_ATTACHMENT_OPTIMAL);
        }
        let end = list.end_render_pass(&mut dev);
        for i in 0..2 {
            layouts[i] = followed(&end, images[i], layouts[i]);
            assert_eq!(layouts[i], dev.target(targets[i]).unwrap().layout);
        }
    }
    let present = dev.transition_to_present(targets[0]);
    assert_eq!(
        followed(&present, images[0], layouts[0]),
        vk::IMAGE_LAYOUT_PRESENT_SRC_KHR
    );
    assert!(dev.transition_to_present(targets[0]).is_empty());
}

#[test]
fn dead_targets_are_left_out() {
    let mut dev = device();
    let color = target(&mut dev, 1, vk::IMAGE_LAYOUT_UNDEFINED);
    dev.unregister_render_target(color);
    let mut list = VulkanCommandList::new(&dev, 40);
    let plan = list.begin_render_pass(
        &mut dev,
        &RenderPassDesc {
            color: vec![ColorAttachment {
                target: color,
                load: LoadOp::DontCare,
                store: true,
                sample_after: false,
            }],
            depth: None,
        },
    );
    assert!(plan.transitions.is_empty());
    assert_eq!(plan.color[0].image_view, 0);
    assert!(plan.depth.is_none());
}

#[test]
fn draws_count_their_ranges() {
    let dev = device();
    let list = VulkanCommandList::new(&dev, 40);
    assert!(matches!(
        list.draw(3, 9, 1, 2),
        CommandOf::Draw {
            vertex_count: 6,
            instance_count: 1,
            first_vertex: 3,
            first_instance: 1,
        }
    ));
    assert!(matches!(
        list.draw_indexed(6, 6, 0, 5),
        CommandOf::DrawIndexed {
            index_count: 0,
            instance_count: 5,
            first_index: 6,
            first_instance: 0,
        }
    ));
}

fn buffer(dev: &mut VulkanDevice, bits: u32) -> BufferHandle {
    let desc =
        BufferDesc { size: 16, usage: BufferUsage { bits }, memory: MemoryUsage::GpuOnly };
    match dev.insert_buffer(desc, 70, 71, 0) {
        Ok((h, _)) => h,
        Err(u) => panic!("{:?}", u.error),
    }
}

#[test]
fn vertex_and_index_buffers_are_bound_by_handle() {
    let mut dev = device();
    let vertices = buffer(&mut dev, BUFFER_VERTEX);
    let indices = buffer(&mut dev, BUFFER_INDEX);
    let list = VulkanCommandList::new(&dev, 40);
    assert!(matches!(
        list.set_vertex_buffer(&dev, 2, vertices),
        Some(CommandOf::BindVertexBuffer { slot: 2, buffer: 70 })
    ));
    assert!(matches!(
        list.set_index_buffer(&dev, indices),
        Some(CommandOf::BindIndexBuffer { buffer: 70, index_type: vk::INDEX_TYPE_UINT32 })
    ));
    let _ = dev.destroy_buffer(vertices);
    assert!(list.set_vertex_buffer(&dev, 2, vertices).is_none());
}

fn state() -> GraphicsState {
    GraphicsState {
        topology: PrimitiveTopology::TriangleList,
        polygon: PolygonMode::Fill,
        cull: CullMode::Back,
        front_face: FrontFace::Ccw,
        samples: 1,
        depth_test: true,
        depth_write: true,
        depth_compare: CompareFn::Less,
        blend: BlendMode::AlphaBlend,
        color_format: Format::Bgra8Unorm,
        depth_format: Some(Format::Depth32Float),
    }
}

#[test]
fn graphics_pipelines_are_planned_and_bound() {
    let mut dev = device();
    let vs = dev.insert_shader(50);
    let fs = dev.insert_shader(51);
    let mut desc = GraphicsPipelineDesc {
        vertex_shader: vs,
        fragment_shader: fs,
        vertex_layouts: vec![
            VertexLayout {
                stride: 20,
                step_mode: StepMode::Vertex,
                attributes: vec![
                    VertexAttribute { location: 0, format: VertexFormat::Float32x3, offset: 0 },
                    VertexAttribute { location: 1, format: VertexFormat::Float32x2, offset: 12 },
                ],
            },
            VertexLayout { stride: 4, step_mode: StepMode::Instance, attributes: vec![] },
        ],
        state: state(),
    };
    let plan = dev.create_graphics_pipeline(&desc).unwrap();
    assert_eq!((plan.vertex_module, plan.fragment_module), (50, 51));
    assert_eq!((plan.set_layout, plan.cache), (6, 5));
    assert_eq!(plan.state.push_constants.size, 256);
    assert_eq!(plan.bindings.len(), 2);
    assert_eq!(plan.bindings[1].input_rate, vk::VERTEX_INPUT_RATE_INSTANCE);
    assert_eq!(plan.attributes[1].format, vk::FORMAT_R32G32_SFLOAT);
    assert_eq!(plan.state.cull_mode, vk::CULL_MODE_BACK);
    assert_eq!(plan.state.depth_format, vk::FORMAT_D32_SFLOAT);
    let pipeline = match dev.pipeline_created(true, 60, Ok(61)) {
        Ok(h) => h,
        Err(u) => panic!("{:?}", u.error),
    };
    let mut list = VulkanCommandList::new(&dev, 40);
    let none = Bindings { buffers: vec![], textures: vec![], scalars: vec![] };
    assert!(list.bind(&none, ByteOrder::Little).is_none());
    let commands = list.set_pipeline(&dev, pipeline);
    assert_eq!(commands.len(), 2);
    assert!(matches!(commands[0], CommandOf::BindPipeline { pipeline: 61, .. }));
    assert!(matches!(commands[1], CommandOf::BindDescriptorSet { layout: 60, set: 8, .. }));
    let some = Bindings { buffers: vec![1], textures: vec![2], scalars: vec![Scalar::U32(3)] };
    match list.bind(&some, ByteOrder::Little) {
        Some(CommandOf::PushConstants { layout, bytes, .. }) => {
            assert_eq!(layout, 60);
            assert_eq!(bytes, [1, 0, 0, 0, 2, 0, 0, 0, 3, 0, 0, 0]);
        }
        _ => panic!("nothing pushed"),
    }
    desc.state.polygon = PolygonMode::Line;
    assert!(matches!(
        dev.create_graphics_pipeline(&desc),
        Err(GpuError::PipelineCreation(text)) if text.contains("fillModeNonSolid")
    ));
    desc.state.polygon = PolygonMode::Fill;
    let _ = dev.destroy_shader(fs);
    assert!(matches!(
        dev.create_graphics_pipeline(&desc),
        Err(GpuError::PipelineCreation(text)) if text == "stale fragment shader handle"
    ));
}

#[test]
fn depth_targets_are_device_local() {
    let info = DepthTarget::image_info(64, 48);
    assert_eq!(info.format, DEPTH_FORMAT);
    assert_eq!(info.usage, vk::IMAGE_USAGE_DEPTH_STENCIL_ATTACHMENT);
    assert_eq!(
        DepthTarget::view_info(9).subresource_range.aspect_mask,
        vk::IMAGE_ASPECT_DEPTH
    );
    let types = vec![vk::MEMORY_PROPERTY_HOST_VISIBLE, vk::MEMORY_PROPERTY_DEVICE_LOCAL];
    assert_eq!(DepthTarget::memory_type(&types, 0x3).unwrap(), 1);
    match DepthTarget::memory_type(&types, 0x1) {
        Err(GpuError::Backend(text)) => assert_eq!(text, "no device-local memory type for depth"),
        _ => panic!("memory type found"),
    }
    let depth = DepthTarget::new(20, 21, 22, 64, 48);
    assert_eq!(depth.format(), Format::Depth32Float);
    assert_eq!(depth.extent(), (64, 48));
    assert_eq!((depth.image(), depth.view()), (20, 22));
    assert_eq!(
        depth.destroy(),
        [Cleanup::DestroyImageView(22), Cleanup::DestroyImage(20), Cleanup::FreeMemory(21)]
    );
}
