//! The Vulkan values of the library are those of the bindings.
use zengpu_vulkan::vk;

#[test]
fn result_values() {
    assert_eq!(vk::TIMEOUT, ash::vk::Result::TIMEOUT.as_raw());
    assert_eq!(vk::ERROR_OUT_OF_HOST_MEMORY, ash::vk::Result::ERROR_OUT_OF_HOST_MEMORY.as_raw());
    assert_eq!(vk::ERROR_OUT_OF_DEVICE_MEMORY, ash::vk::Result::ERROR_OUT_OF_DEVICE_MEMORY.as_raw());
    assert_eq!(vk::ERROR_DEVICE_LOST, ash::vk::Result::ERROR_DEVICE_LOST.as_raw());
    assert_eq!(vk::ERROR_SURFACE_LOST_KHR, ash::vk::Result::ERROR_SURFACE_LOST_KHR.as_raw());
    assert_eq!(vk::ERROR_OUT_OF_DATE_KHR, ash::vk::Result::ERROR_OUT_OF_DATE_KHR.as_raw());
}

#[test]
fn plain_values() {
    assert_eq!(vk::QUEUE_FAMILY_IGNORED, ash::vk::QUEUE_FAMILY_IGNORED);
    assert_eq!(vk::WHOLE_SIZE, ash::vk::WHOLE_SIZE);
}

#[test]
fn image_layout_values() {
    assert_eq!(vk::IMAGE_LAYOUT_UNDEFINED, ash::vk::ImageLayout::UNDEFINED.as_raw());
    assert_eq!(vk::IMAGE_LAYOUT_COLOR_ATTACHMENT_OPTIMAL, ash::vk::ImageLayout::COLOR_ATTACHMENT_OPTIMAL.as_raw());
    assert_eq!(vk::IMAGE_LAYOUT_SHADER_READ_ONLY_OPTIMAL, ash::vk::ImageLayout::SHADER_READ_ONLY_OPTIMAL.as_raw());
    assert_eq!(vk::IMAGE_LAYOUT_PRESENT_SRC_KHR, ash::vk::ImageLayout::PRESENT_SRC_KHR.as_raw());
    assert_eq!(vk::IMAGE_LAYOUT_TRANSFER_SRC_OPTIMAL, ash::vk::ImageLayout::TRANSFER_SRC_OPTIMAL.as_raw());
    assert_eq!(vk::IMAGE_LAYOUT_TRANSFER_DST_OPTIMAL, ash::vk::ImageLayout::TRANSFER_DST_OPTIMAL.as_raw());
    assert_eq!(vk::IMAGE_LAYOUT_DEPTH_ATTACHMENT_OPTIMAL, ash::vk::ImageLayout::DEPTH_ATTACHMENT_OPTIMAL.as_raw());
}

#[test]
fn pipeline_stage_flags_values() {
    assert_eq!(vk::PIPELINE_STAGE_TOP_OF_PIPE, ash::vk::PipelineStageFlags::TOP_OF_PIPE.as_raw());
    assert_eq!(vk::PIPELINE_STAGE_FRAGMENT_SHADER, ash::vk::PipelineStageFlags::FRAGMENT_SHADER.as_raw());
    assert_eq!(vk::PIPELINE_STAGE_COLOR_ATTACHMENT_OUTPUT, ash::vk::PipelineStageFlags::COLOR_ATTACHMENT_OUTPUT.as_raw());
    assert_eq!(vk::PIPELINE_STAGE_BOTTOM_OF_PIPE, ash::vk::PipelineStageFlags::BOTTOM_OF_PIPE.as_raw());
    assert_eq!(vk::PIPELINE_STAGE_ALL_COMMANDS, ash::vk::PipelineStageFlags::ALL_COMMANDS.as_raw());
    assert_eq!(vk::PIPELINE_STAGE_EARLY_FRAGMENT_TESTS, ash::vk::PipelineStageFlags::EARLY_FRAGMENT_TESTS.as_raw());
    assert_eq!(vk::PIPELINE_STAGE_COMPUTE_SHADER, ash::vk::PipelineStageFlags::COMPUTE_SHADER.as_raw());
    assert_eq!(vk::PIPELINE_STAGE_TRANSFER, ash::vk::PipelineStageFlags::TRANSFER.as_raw());
}

#[test]
fn access_flags_values() {
    assert_eq!(vk::ACCESS_SHADER_READ, ash::vk::AccessFlags::SHADER_READ.as_raw());
    assert_eq!(vk::ACCESS_COLOR_ATTACHMENT_WRITE, ash::vk::AccessFlags::COLOR_ATTACHMENT_WRITE.as_raw());
    assert_eq!(vk::ACCESS_MEMORY_READ, ash::vk::AccessFlags::MEMORY_READ.as_raw());
    assert_eq!(vk::ACCESS_MEMORY_WRITE, ash::vk::AccessFlags::MEMORY_WRITE.as_raw());
    assert_eq!(vk::ACCESS_SHADER_WRITE, ash::vk::AccessFlags::SHADER_WRITE.as_raw());
    assert_eq!(vk::ACCESS_DEPTH_STENCIL_ATTACHMENT_WRITE, ash::vk::AccessFlags::DEPTH_STENCIL_ATTACHMENT_WRITE.as_raw());
    assert_eq!(vk::ACCESS_TRANSFER_READ, ash::vk::AccessFlags::TRANSFER_READ.as_raw());
    assert_eq!(vk::ACCESS_TRANSFER_WRITE, ash::vk::AccessFlags::TRANSFER_WRITE.as_raw());
}

#[test]
fn image_aspect_flags_values() {
    assert_eq!(vk::IMAGE_ASPECT_COLOR, ash::vk::ImageAspectFlags::COLOR.as_raw());
    assert_eq!(vk::IMAGE_ASPECT_DEPTH, ash::vk::ImageAspectFlags::DEPTH.as_raw());
}

#[test]
fn filter_values() {
    assert_eq!(vk::FILTER_NEAREST, ash::vk::Filter::NEAREST.as_raw());
    assert_eq!(vk::FILTER_LINEAR, ash::vk::Filter::LINEAR.as_raw());
}

#[test]
fn sampler_mipmap_mode_values() {
    assert_eq!(vk::SAMPLER_MIPMAP_MODE_NEAREST, ash::vk::SamplerMipmapMode::NEAREST.as_raw());
    assert_eq!(vk::SAMPLER_MIPMAP_MODE_LINEAR, ash::vk::SamplerMipmapMode::LINEAR.as_raw());
}

#[test]
fn sampler_address_mode_values() {
    assert_eq!(vk::SAMPLER_ADDRESS_MODE_REPEAT, ash::vk::SamplerAddressMode::REPEAT.as_raw());
    assert_eq!(vk::SAMPLER_ADDRESS_MODE_MIRRORED_REPEAT, ash::vk::SamplerAddressMode::MIRRORED_REPEAT.as_raw());
    assert_eq!(vk::SAMPLER_ADDRESS_MODE_CLAMP_TO_EDGE, ash::vk::SamplerAddressMode::CLAMP_TO_EDGE.as_raw());
}

#[test]
fn border_color_values() {
    assert_eq!(vk::BORDER_COLOR_FLOAT_TRANSPARENT_BLACK, ash::vk::BorderColor::FLOAT_TRANSPARENT_BLACK.as_raw());
    assert_eq!(vk::BORDER_COLOR_FLOAT_OPAQUE_BLACK, ash::vk::BorderColor::FLOAT_OPAQUE_BLACK.as_raw());
    assert_eq!(vk::BORDER_COLOR_FLOAT_OPAQUE_WHITE, ash::vk::BorderColor::FLOAT_OPAQUE_WHITE.as_raw());
}

#[test]
fn format_values() {
    assert_eq!(vk::FORMAT_UNDEFINED, ash::vk::Format::UNDEFINED.as_raw());
    assert_eq!(vk::FORMAT_R8G8B8A8_UNORM, ash::vk::Format::R8G8B8A8_UNORM.as_raw());
    assert_eq!(vk::FORMAT_R8G8B8A8_SRGB, ash::vk::Format::R8G8B8A8_SRGB.as_raw());
    assert_eq!(vk::FORMAT_B8G8R8A8_UNORM, ash::vk::Format::B8G8R8A8_UNORM.as_raw());
    assert_eq!(vk::FORMAT_B8G8R8A8_SRGB, ash::vk::Format::B8G8R8A8_SRGB.as_raw());
    assert_eq!(vk::FORMAT_R32_UINT, ash::vk::Format::R32_UINT.as_raw());
    assert_eq!(vk::FORMAT_R32_SFLOAT, ash::vk::Format::R32_SFLOAT.as_raw());
    assert_eq!(vk::FORMAT_R32G32_SFLOAT, ash::vk::Format::R32G32_SFLOAT.as_raw());
    assert_eq!(vk::FORMAT_R32G32B32_SFLOAT, ash::vk::Format::R32G32B32_SFLOAT.as_raw());
    assert_eq!(vk::FORMAT_R32G32B32A32_SFLOAT, ash::vk::Format::R32G32B32A32_SFLOAT.as_raw());
    assert_eq!(vk::FORMAT_D32_SFLOAT, ash::vk::Format::D32_SFLOAT.as_raw());
    assert_eq!(vk::FORMAT_D24_UNORM_S8_UINT, ash::vk::Format::D24_UNORM_S8_UINT.as_raw());
}

#[test]
fn vertex_input_rate_values() {
    assert_eq!(vk::VERTEX_INPUT_RATE_VERTEX, ash::vk::VertexInputRate::VERTEX.as_raw());
    assert_eq!(vk::VERTEX_INPUT_RATE_INSTANCE, ash::vk::VertexInputRate::INSTANCE.as_raw());
}

#[test]
fn primitive_topology_values() {
    assert_eq!(vk::PRIMITIVE_TOPOLOGY_POINT_LIST, ash::vk::PrimitiveTopology::POINT_LIST.as_raw());
    assert_eq!(vk::PRIMITIVE_TOPOLOGY_LINE_LIST, ash::vk::PrimitiveTopology::LINE_LIST.as_raw());
    assert_eq!(vk::PRIMITIVE_TOPOLOGY_TRIANGLE_LIST, ash::vk::PrimitiveTopology::TRIANGLE_LIST.as_raw());
    assert_eq!(vk::PRIMITIVE_TOPOLOGY_TRIANGLE_STRIP, ash::vk::PrimitiveTopology::TRIANGLE_STRIP.as_raw());
}

#[test]
fn blend_factor_values() {
    assert_eq!(vk::BLEND_FACTOR_ZERO, ash::vk::BlendFactor::ZERO.as_raw());
    assert_eq!(vk::BLEND_FACTOR_ONE, ash::vk::BlendFactor::ONE.as_raw());
    assert_eq!(vk::BLEND_FACTOR_SRC_COLOR, ash::vk::BlendFactor::SRC_COLOR.as_raw());
    assert_eq!(vk::BLEND_FACTOR_ONE_MINUS_SRC_COLOR, ash::vk::BlendFactor::ONE_MINUS_SRC_COLOR.as_raw());
    assert_eq!(vk::BLEND_FACTOR_DST_COLOR, ash::vk::BlendFactor::DST_COLOR.as_raw());
    assert_eq!(vk::BLEND_FACTOR_ONE_MINUS_DST_COLOR, ash::vk::BlendFactor::ONE_MINUS_DST_COLOR.as_raw());
    assert_eq!(vk::BLEND_FACTOR_SRC_ALPHA, ash::vk::BlendFactor::SRC_ALPHA.as_raw());
    assert_eq!(vk::BLEND_FACTOR_ONE_MINUS_SRC_ALPHA, ash::vk::BlendFactor::ONE_MINUS_SRC_ALPHA.as_raw());
    assert_eq!(vk::BLEND_FACTOR_DST_ALPHA, ash::vk::BlendFactor::DST_ALPHA.as_raw());
    assert_eq!(vk::BLEND_FACTOR_ONE_MINUS_DST_ALPHA, ash::vk::BlendFactor::ONE_MINUS_DST_ALPHA.as_raw());
    assert_eq!(vk::BLEND_FACTOR_SRC1_COLOR, ash::vk::BlendFactor::SRC1_COLOR.as_raw());
    assert_eq!(vk::BLEND_FACTOR_ONE_MINUS_SRC1_COLOR, ash::vk::BlendFactor::ONE_MINUS_SRC1_COLOR.as_raw());
    assert_eq!(vk::BLEND_FACTOR_SRC1_ALPHA, ash::vk::BlendFactor::SRC1_ALPHA.as_raw());
    assert_eq!(vk::BLEND_FACTOR_ONE_MINUS_SRC1_ALPHA, ash::vk::BlendFactor::ONE_MINUS_SRC1_ALPHA.as_raw());
}

#[test]
fn blend_op_values() {
    assert_eq!(vk::BLEND_OP_ADD, ash::vk::BlendOp::ADD.as_raw());
    assert_eq!(vk::BLEND_OP_SUBTRACT, ash::vk::BlendOp::SUBTRACT.as_raw());
    assert_eq!(vk::BLEND_OP_REVERSE_SUBTRACT, ash::vk::BlendOp::REVERSE_SUBTRACT.as_raw());
    assert_eq!(vk::BLEND_OP_MIN, ash::vk::BlendOp::MIN.as_raw());
    assert_eq!(vk::BLEND_OP_MAX, ash::vk::BlendOp::MAX.as_raw());
}

#[test]
fn front_face_values() {
    assert_eq!(vk::FRONT_FACE_COUNTER_CLOCKWISE, ash::vk::FrontFace::COUNTER_CLOCKWISE.as_raw());
    assert_eq!(vk::FRONT_FACE_CLOCKWISE, ash::vk::FrontFace::CLOCKWISE.as_raw());
}

#[test]
fn polygon_mode_values() {
    assert_eq!(vk::POLYGON_MODE_FILL, ash::vk::PolygonMode::FILL.as_raw());
    assert_eq!(vk::POLYGON_MODE_LINE, ash::vk::PolygonMode::LINE.as_raw());
    assert_eq!(vk::POLYGON_MODE_POINT, ash::vk::PolygonMode::POINT.as_raw());
}

#[test]
fn compare_op_values() {
    assert_eq!(vk::COMPARE_OP_NEVER, ash::vk::CompareOp::NEVER.as_raw());
    assert_eq!(vk::COMPARE_OP_LESS, ash::vk::CompareOp::LESS.as_raw());
    assert_eq!(vk::COMPARE_OP_EQUAL, ash::vk::CompareOp::EQUAL.as_raw());
    assert_eq!(vk::COMPARE_OP_LESS_OR_EQUAL, ash::vk::CompareOp::LESS_OR_EQUAL.as_raw());
    assert_eq!(vk::COMPARE_OP_GREATER, ash::vk::CompareOp::GREATER.as_raw());
    assert_eq!(vk::COMPARE_OP_NOT_EQUAL, ash::vk::CompareOp::NOT_EQUAL.as_raw());
    assert_eq!(vk::COMPARE_OP_GREATER_OR_EQUAL, ash::vk::CompareOp::GREATER_OR_EQUAL.as_raw());
    assert_eq!(vk::COMPARE_OP_ALWAYS, ash::vk::CompareOp::ALWAYS.as_raw());
}

#[test]
fn present_modekhr_values() {
    assert_eq!(vk::PRESENT_MODE_IMMEDIATE_KHR, ash::vk::PresentModeKHR::IMMEDIATE.as_raw());
    assert_eq!(vk::PRESENT_MODE_MAILBOX_KHR, ash::vk::PresentModeKHR::MAILBOX.as_raw());
    assert_eq!(vk::PRESENT_MODE_FIFO_KHR, ash::vk::PresentModeKHR::FIFO.as_raw());
}

#[test]
fn cull_mode_flags_values() {
    assert_eq!(vk::CULL_MODE_NONE, ash::vk::CullModeFlags::NONE.as_raw());
    assert_eq!(vk::CULL_MODE_FRONT, ash::vk::CullModeFlags::FRONT.as_raw());
    assert_eq!(vk::CULL_MODE_BACK, ash::vk::CullModeFlags::BACK.as_raw());
}

#[test]
fn buffer_usage_flags_values() {
    assert_eq!(vk::BUFFER_USAGE_TRANSFER_SRC, ash::vk::BufferUsageFlags::TRANSFER_SRC.as_raw());
    assert_eq!(vk::BUFFER_USAGE_TRANSFER_DST, ash::vk::BufferUsageFlags::TRANSFER_DST.as_raw());
    assert_eq!(vk::BUFFER_USAGE_UNIFORM_BUFFER, ash::vk::BufferUsageFlags::UNIFORM_BUFFER.as_raw());
    assert_eq!(vk::BUFFER_USAGE_STORAGE_BUFFER, ash::vk::BufferUsageFlags::STORAGE_BUFFER.as_raw());
    assert_eq!(vk::BUFFER_USAGE_INDEX_BUFFER, ash::vk::BufferUsageFlags::INDEX_BUFFER.as_raw());
    assert_eq!(vk::BUFFER_USAGE_VERTEX_BUFFER, ash::vk::BufferUsageFlags::VERTEX_BUFFER.as_raw());
    assert_eq!(vk::BUFFER_USAGE_INDIRECT_BUFFER, ash::vk::BufferUsageFlags::INDIRECT_BUFFER.as_raw());
}

#[test]
fn memory_property_flags_values() {
    assert_eq!(vk::MEMORY_PROPERTY_DEVICE_LOCAL, ash::vk::MemoryPropertyFlags::DEVICE_LOCAL.as_raw());
    assert_eq!(vk::MEMORY_PROPERTY_HOST_VISIBLE, ash::vk::MemoryPropertyFlags::HOST_VISIBLE.as_raw());
    assert_eq!(vk::MEMORY_PROPERTY_HOST_COHERENT, ash::vk::MemoryPropertyFlags::HOST_COHERENT.as_raw());
    assert_eq!(vk::MEMORY_PROPERTY_HOST_CACHED, ash::vk::MemoryPropertyFlags::HOST_CACHED.as_raw());
}

#[test]
fn image_usage_flags_values() {
    assert_eq!(vk::IMAGE_USAGE_TRANSFER_SRC, ash::vk::ImageUsageFlags::TRANSFER_SRC.as_raw());
    assert_eq!(vk::IMAGE_USAGE_TRANSFER_DST, ash::vk::ImageUsageFlags::TRANSFER_DST.as_raw());
    assert_eq!(vk::IMAGE_USAGE_SAMPLED, ash::vk::ImageUsageFlags::SAMPLED.as_raw());
    assert_eq!(vk::IMAGE_USAGE_STORAGE, ash::vk::ImageUsageFlags::STORAGE.as_raw());
    assert_eq!(vk::IMAGE_USAGE_COLOR_ATTACHMENT, ash::vk::ImageUsageFlags::COLOR_ATTACHMENT.as_raw());
    assert_eq!(vk::IMAGE_USAGE_DEPTH_STENCIL_ATTACHMENT, ash::vk::ImageUsageFlags::DEPTH_STENCIL_ATTACHMENT.as_raw());
}

#[test]
fn sample_count_flags_values() {
    assert_eq!(vk::SAMPLE_COUNT_1, ash::vk::SampleCountFlags::TYPE_1.as_raw());
    assert_eq!(vk::SAMPLE_COUNT_2, ash::vk::SampleCountFlags::TYPE_2.as_raw());
    assert_eq!(vk::SAMPLE_COUNT_4, ash::vk::SampleCountFlags::TYPE_4.as_raw());
    assert_eq!(vk::SAMPLE_COUNT_8, ash::vk::SampleCountFlags::TYPE_8.as_raw());
    assert_eq!(vk::SAMPLE_COUNT_16, ash::vk::SampleCountFlags::TYPE_16.as_raw());
}

#[test]
fn color_component_flags_values() {
    assert_eq!(vk::COLOR_COMPONENT_RGBA, ash::vk::ColorComponentFlags::RGBA.as_raw());
}

#[test]
fn queue_flags_values() {
    assert_eq!(vk::QUEUE_GRAPHICS, ash::vk::QueueFlags::GRAPHICS.as_raw());
    assert_eq!(vk::QUEUE_COMPUTE, ash::vk::QueueFlags::COMPUTE.as_raw());
}

#[test]
fn pipeline_bind_point_values() {
    assert_eq!(vk::PIPELINE_BIND_POINT_GRAPHICS, ash::vk::PipelineBindPoint::GRAPHICS.as_raw());
    assert_eq!(vk::PIPELINE_BIND_POINT_COMPUTE, ash::vk::PipelineBindPoint::COMPUTE.as_raw());
}

#[test]
fn shader_stage_flags_values() {
    assert_eq!(vk::SHADER_STAGE_VERTEX, ash::vk::ShaderStageFlags::VERTEX.as_raw());
    assert_eq!(vk::SHADER_STAGE_FRAGMENT, ash::vk::ShaderStageFlags::FRAGMENT.as_raw());
    assert_eq!(vk::SHADER_STAGE_COMPUTE, ash::vk::ShaderStageFlags::COMPUTE.as_raw());
    assert_eq!(vk::SHADER_STAGE_ALL, ash::vk::ShaderStageFlags::ALL.as_raw());
}

#[test]
fn descriptor_type_values() {
    assert_eq!(vk::DESCRIPTOR_TYPE_COMBINED_IMAGE_SAMPLER, ash::vk::DescriptorType::COMBINED_IMAGE_SAMPLER.as_raw());
    assert_eq!(vk::DESCRIPTOR_TYPE_STORAGE_BUFFER, ash::vk::DescriptorType::STORAGE_BUFFER.as_raw());
}

#[test]
fn descriptor_binding_flags_values() {
    assert_eq!(vk::DESCRIPTOR_BINDING_UPDATE_AFTER_BIND, ash::vk::DescriptorBindingFlags::UPDATE_AFTER_BIND.as_raw());
    assert_eq!(vk::DESCRIPTOR_BINDING_PARTIALLY_BOUND, ash::vk::DescriptorBindingFlags::PARTIALLY_BOUND.as_raw());
}

#[test]
fn attachment_load_op_values() {
    assert_eq!(vk::ATTACHMENT_LOAD_OP_LOAD, ash::vk::AttachmentLoadOp::LOAD.as_raw());
    assert_eq!(vk::ATTACHMENT_LOAD_OP_CLEAR, ash::vk::AttachmentLoadOp::CLEAR.as_raw());
    assert_eq!(vk::ATTACHMENT_LOAD_OP_DONT_CARE, ash::vk::AttachmentLoadOp::DONT_CARE.as_raw());
}

#[test]
fn attachment_store_op_values() {
    assert_eq!(vk::ATTACHMENT_STORE_OP_STORE, ash::vk::AttachmentStoreOp::STORE.as_raw());
    assert_eq!(vk::ATTACHMENT_STORE_OP_DONT_CARE, ash::vk::AttachmentStoreOp::DONT_CARE.as_raw());
}

#[test]
fn index_type_values() {
    assert_eq!(vk::INDEX_TYPE_UINT32, ash::vk::IndexType::UINT32.as_raw());
}

#[test]
fn image_create_flags_values() {
    assert_eq!(vk::IMAGE_CREATE_CUBE_COMPATIBLE, ash::vk::ImageCreateFlags::CUBE_COMPATIBLE.as_raw());
}

#[test]
fn image_type_values() {
    assert_eq!(vk::IMAGE_TYPE_2D, ash::vk::ImageType::TYPE_2D.as_raw());
    assert_eq!(vk::IMAGE_TYPE_3D, ash::vk::ImageType::TYPE_3D.as_raw());
}

#[test]
fn image_view_type_values() {
    assert_eq!(vk::IMAGE_VIEW_TYPE_2D, ash::vk::ImageViewType::TYPE_2D.as_raw());
    assert_eq!(vk::IMAGE_VIEW_TYPE_3D, ash::vk::ImageViewType::TYPE_3D.as_raw());
    assert_eq!(vk::IMAGE_VIEW_TYPE_CUBE, ash::vk::ImageViewType::CUBE.as_raw());
    assert_eq!(vk::IMAGE_VIEW_TYPE_2D_ARRAY, ash::vk::ImageViewType::TYPE_2D_ARRAY.as_raw());
}

#[test]
fn physical_device_type_values() {
    assert_eq!(vk::PHYSICAL_DEVICE_TYPE_INTEGRATED_GPU, ash::vk::PhysicalDeviceType::INTEGRATED_GPU.as_raw());
    assert_eq!(vk::PHYSICAL_DEVICE_TYPE_DISCRETE_GPU, ash::vk::PhysicalDeviceType::DISCRETE_GPU.as_raw());
    assert_eq!(vk::PHYSICAL_DEVICE_TYPE_VIRTUAL_GPU, ash::vk::PhysicalDeviceType::VIRTUAL_GPU.as_raw());
    assert_eq!(vk::PHYSICAL_DEVICE_TYPE_CPU, ash::vk::PhysicalDeviceType::CPU.as_raw());
}

#[test]
fn color_spacekhr_values() {
    assert_eq!(vk::COLOR_SPACE_SRGB_NONLINEAR_KHR, ash::vk::ColorSpaceKHR::SRGB_NONLINEAR.as_raw());
}

