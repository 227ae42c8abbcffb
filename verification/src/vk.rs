//! Numeric values of the Vulkan enumerants and flag bits that the backend uses.
//!
//! Enumerants are `i32` and flag words are `u32`, as in the Vulkan headers; object
//! handles are `u64`.
use vstd::prelude::*;

verus! {

pub const TIMEOUT: i32 = 2;

pub const ERROR_OUT_OF_HOST_MEMORY: i32 = -1;

pub const ERROR_OUT_OF_DEVICE_MEMORY: i32 = -2;

pub const ERROR_DEVICE_LOST: i32 = -4;

pub const ERROR_SURFACE_LOST_KHR: i32 = -1_000_000_000;

pub const ERROR_OUT_OF_DATE_KHR: i32 = -1_000_001_004;

pub const QUEUE_FAMILY_IGNORED: u32 = 0xffff_ffff;

pub const IMAGE_LAYOUT_UNDEFINED: i32 = 0;

pub const IMAGE_LAYOUT_COLOR_ATTACHMENT_OPTIMAL: i32 = 2;

pub const IMAGE_LAYOUT_SHADER_READ_ONLY_OPTIMAL: i32 = 5;

pub const IMAGE_LAYOUT_PRESENT_SRC_KHR: i32 = 1_000_001_002;

pub const PIPELINE_STAGE_TOP_OF_PIPE: u32 = 0x1;

pub const PIPELINE_STAGE_FRAGMENT_SHADER: u32 = 0x80;

pub const PIPELINE_STAGE_COLOR_ATTACHMENT_OUTPUT: u32 = 0x400;

pub const PIPELINE_STAGE_BOTTOM_OF_PIPE: u32 = 0x2000;

pub const PIPELINE_STAGE_ALL_COMMANDS: u32 = 0x1_0000;

pub const ACCESS_SHADER_READ: u32 = 0x20;

pub const ACCESS_COLOR_ATTACHMENT_WRITE: u32 = 0x100;

pub const ACCESS_MEMORY_READ: u32 = 0x8000;

pub const ACCESS_MEMORY_WRITE: u32 = 0x1_0000;

pub const IMAGE_ASPECT_COLOR: u32 = 0x1;

pub const FILTER_NEAREST: i32 = 0;

pub const FILTER_LINEAR: i32 = 1;

pub const SAMPLER_MIPMAP_MODE_NEAREST: i32 = 0;

pub const SAMPLER_MIPMAP_MODE_LINEAR: i32 = 1;

pub const SAMPLER_ADDRESS_MODE_REPEAT: i32 = 0;

pub const SAMPLER_ADDRESS_MODE_MIRRORED_REPEAT: i32 = 1;

pub const SAMPLER_ADDRESS_MODE_CLAMP_TO_EDGE: i32 = 2;

pub const BORDER_COLOR_FLOAT_TRANSPARENT_BLACK: i32 = 0;

pub const BORDER_COLOR_FLOAT_OPAQUE_BLACK: i32 = 2;

pub const BORDER_COLOR_FLOAT_OPAQUE_WHITE: i32 = 4;

pub const FORMAT_UNDEFINED: i32 = 0;

pub const FORMAT_R8G8B8A8_UNORM: i32 = 37;

pub const FORMAT_R8G8B8A8_SRGB: i32 = 43;

pub const FORMAT_B8G8R8A8_UNORM: i32 = 44;

pub const FORMAT_B8G8R8A8_SRGB: i32 = 50;

pub const FORMAT_R32_UINT: i32 = 98;

pub const FORMAT_R32_SFLOAT: i32 = 100;

pub const FORMAT_R32G32_SFLOAT: i32 = 103;

pub const FORMAT_R32G32B32_SFLOAT: i32 = 106;

pub const FORMAT_R32G32B32A32_SFLOAT: i32 = 109;

pub const FORMAT_D32_SFLOAT: i32 = 126;

pub const FORMAT_D24_UNORM_S8_UINT: i32 = 129;

pub const VERTEX_INPUT_RATE_VERTEX: i32 = 0;

pub const VERTEX_INPUT_RATE_INSTANCE: i32 = 1;

pub const PRIMITIVE_TOPOLOGY_POINT_LIST: i32 = 0;

pub const PRIMITIVE_TOPOLOGY_LINE_LIST: i32 = 1;

pub const PRIMITIVE_TOPOLOGY_TRIANGLE_LIST: i32 = 3;

pub const PRIMITIVE_TOPOLOGY_TRIANGLE_STRIP: i32 = 4;

pub const BLEND_FACTOR_ZERO: i32 = 0;

pub const BLEND_FACTOR_ONE: i32 = 1;

pub const BLEND_FACTOR_SRC_COLOR: i32 = 2;

pub const BLEND_FACTOR_ONE_MINUS_SRC_COLOR: i32 = 3;

pub const BLEND_FACTOR_DST_COLOR: i32 = 4;

pub const BLEND_FACTOR_ONE_MINUS_DST_COLOR: i32 = 5;

pub const BLEND_FACTOR_SRC_ALPHA: i32 = 6;

pub const BLEND_FACTOR_ONE_MINUS_SRC_ALPHA: i32 = 7;

pub const BLEND_FACTOR_DST_ALPHA: i32 = 8;

pub const BLEND_FACTOR_ONE_MINUS_DST_ALPHA: i32 = 9;

pub const BLEND_FACTOR_SRC1_COLOR: i32 = 15;

pub const BLEND_FACTOR_ONE_MINUS_SRC1_COLOR: i32 = 16;

pub const BLEND_FACTOR_SRC1_ALPHA: i32 = 17;

pub const BLEND_FACTOR_ONE_MINUS_SRC1_ALPHA: i32 = 18;

pub const BLEND_OP_ADD: i32 = 0;

pub const BLEND_OP_SUBTRACT: i32 = 1;

pub const BLEND_OP_REVERSE_SUBTRACT: i32 = 2;

pub const BLEND_OP_MIN: i32 = 3;

pub const BLEND_OP_MAX: i32 = 4;

pub const FRONT_FACE_COUNTER_CLOCKWISE: i32 = 0;

pub const FRONT_FACE_CLOCKWISE: i32 = 1;

pub const POLYGON_MODE_FILL: i32 = 0;

pub const POLYGON_MODE_LINE: i32 = 1;

pub const POLYGON_MODE_POINT: i32 = 2;

pub const COMPARE_OP_NEVER: i32 = 0;

pub const COMPARE_OP_LESS: i32 = 1;

pub const COMPARE_OP_EQUAL: i32 = 2;

pub const COMPARE_OP_LESS_OR_EQUAL: i32 = 3;

pub const COMPARE_OP_GREATER: i32 = 4;

pub const COMPARE_OP_NOT_EQUAL: i32 = 5;

pub const COMPARE_OP_GREATER_OR_EQUAL: i32 = 6;

pub const COMPARE_OP_ALWAYS: i32 = 7;

pub const PRESENT_MODE_IMMEDIATE_KHR: i32 = 0;

pub const PRESENT_MODE_MAILBOX_KHR: i32 = 1;

pub const PRESENT_MODE_FIFO_KHR: i32 = 2;

pub const CULL_MODE_NONE: u32 = 0x0;

pub const CULL_MODE_FRONT: u32 = 0x1;

pub const CULL_MODE_BACK: u32 = 0x2;

pub const BUFFER_USAGE_TRANSFER_SRC: u32 = 0x1;

pub const BUFFER_USAGE_TRANSFER_DST: u32 = 0x2;

pub const BUFFER_USAGE_UNIFORM_BUFFER: u32 = 0x10;

pub const BUFFER_USAGE_STORAGE_BUFFER: u32 = 0x20;

pub const BUFFER_USAGE_INDEX_BUFFER: u32 = 0x40;

pub const BUFFER_USAGE_VERTEX_BUFFER: u32 = 0x80;

pub const BUFFER_USAGE_INDIRECT_BUFFER: u32 = 0x100;

pub const MEMORY_PROPERTY_DEVICE_LOCAL: u32 = 0x1;

pub const MEMORY_PROPERTY_HOST_VISIBLE: u32 = 0x2;

pub const MEMORY_PROPERTY_HOST_COHERENT: u32 = 0x4;

pub const MEMORY_PROPERTY_HOST_CACHED: u32 = 0x8;

pub const IMAGE_USAGE_TRANSFER_SRC: u32 = 0x1;

pub const IMAGE_USAGE_TRANSFER_DST: u32 = 0x2;

pub const IMAGE_USAGE_SAMPLED: u32 = 0x4;

pub const IMAGE_USAGE_STORAGE: u32 = 0x8;

pub const IMAGE_USAGE_COLOR_ATTACHMENT: u32 = 0x10;

pub const IMAGE_USAGE_DEPTH_STENCIL_ATTACHMENT: u32 = 0x20;

pub const SAMPLE_COUNT_1: u32 = 0x1;

pub const SAMPLE_COUNT_2: u32 = 0x2;

pub const SAMPLE_COUNT_4: u32 = 0x4;

pub const SAMPLE_COUNT_8: u32 = 0x8;

pub const SAMPLE_COUNT_16: u32 = 0x10;

pub const COLOR_COMPONENT_RGBA: u32 = 0xf;

pub const QUEUE_GRAPHICS: u32 = 0x1;

pub const QUEUE_COMPUTE: u32 = 0x2;

pub const PIPELINE_STAGE_EARLY_FRAGMENT_TESTS: u32 = 0x100;

pub const PIPELINE_STAGE_COMPUTE_SHADER: u32 = 0x800;

pub const PIPELINE_STAGE_TRANSFER: u32 = 0x1000;

pub const ACCESS_SHADER_WRITE: u32 = 0x40;

pub const ACCESS_DEPTH_STENCIL_ATTACHMENT_WRITE: u32 = 0x400;

pub const ACCESS_TRANSFER_READ: u32 = 0x800;

pub const ACCESS_TRANSFER_WRITE: u32 = 0x1000;

pub const IMAGE_ASPECT_DEPTH: u32 = 0x2;

pub const IMAGE_LAYOUT_TRANSFER_SRC_OPTIMAL: i32 = 6;

pub const IMAGE_LAYOUT_TRANSFER_DST_OPTIMAL: i32 = 7;

pub const IMAGE_LAYOUT_DEPTH_ATTACHMENT_OPTIMAL: i32 = 1_000_241_000;

pub const PIPELINE_BIND_POINT_GRAPHICS: i32 = 0;

pub const PIPELINE_BIND_POINT_COMPUTE: i32 = 1;

pub const SHADER_STAGE_VERTEX: u32 = 0x1;

pub const SHADER_STAGE_FRAGMENT: u32 = 0x10;

pub const SHADER_STAGE_COMPUTE: u32 = 0x20;

pub const SHADER_STAGE_ALL: u32 = 0x7fff_ffff;

pub const DESCRIPTOR_TYPE_COMBINED_IMAGE_SAMPLER: i32 = 1;

pub const DESCRIPTOR_TYPE_STORAGE_BUFFER: i32 = 7;

pub const DESCRIPTOR_BINDING_UPDATE_AFTER_BIND: u32 = 0x1;

pub const DESCRIPTOR_BINDING_PARTIALLY_BOUND: u32 = 0x4;

pub const ATTACHMENT_LOAD_OP_LOAD: i32 = 0;

pub const ATTACHMENT_LOAD_OP_CLEAR: i32 = 1;

pub const ATTACHMENT_LOAD_OP_DONT_CARE: i32 = 2;

pub const ATTACHMENT_STORE_OP_STORE: i32 = 0;

pub const ATTACHMENT_STORE_OP_DONT_CARE: i32 = 1;

pub const INDEX_TYPE_UINT32: i32 = 1;

pub const WHOLE_SIZE: u64 = 0xffff_ffff_ffff_ffff;

pub const IMAGE_CREATE_CUBE_COMPATIBLE: u32 = 0x10;

pub const IMAGE_TYPE_2D: i32 = 1;

pub const IMAGE_TYPE_3D: i32 = 2;

pub const IMAGE_VIEW_TYPE_2D: i32 = 1;

pub const IMAGE_VIEW_TYPE_3D: i32 = 2;

pub const IMAGE_VIEW_TYPE_CUBE: i32 = 3;

pub const IMAGE_VIEW_TYPE_2D_ARRAY: i32 = 5;

pub const PHYSICAL_DEVICE_TYPE_INTEGRATED_GPU: i32 = 1;

pub const PHYSICAL_DEVICE_TYPE_DISCRETE_GPU: i32 = 2;

pub const PHYSICAL_DEVICE_TYPE_VIRTUAL_GPU: i32 = 3;

pub const PHYSICAL_DEVICE_TYPE_CPU: i32 = 4;

pub const COLOR_SPACE_SRGB_NONLINEAR_KHR: i32 = 0;

/// Width and height in texels.
#[derive(Clone, Copy, PartialEq, Eq, Structural, Debug)]
pub struct Extent2D {
    pub width: u32,
    pub height: u32,
}

/// Width, height and depth in texels.
#[derive(Clone, Copy, PartialEq, Eq, Structural, Debug)]
pub struct Extent3D {
    pub width: u32,
    pub height: u32,
    pub depth: u32,
}

/// Position in texels.
#[derive(Clone, Copy, PartialEq, Eq, Structural, Debug)]
pub struct Offset3D {
    pub x: i32,
    pub y: i32,
    pub z: i32,
}

/// Layers of one mip level.
#[derive(Clone, Copy, PartialEq, Eq, Structural, Debug)]
pub struct SubresourceLayers {
    pub aspect_mask: u32,
    pub mip_level: u32,
    pub base_array_layer: u32,
    pub layer_count: u32,
}

/// Accesses that a global memory barrier orders.
#[derive(Clone, Copy, PartialEq, Eq, Structural, Debug)]
pub struct MemoryBarrier {
    pub src_access_mask: u32,
    pub dst_access_mask: u32,
}

/// Part of an image that a barrier or a view covers.
#[derive(Clone, Copy, PartialEq, Eq, Structural, Debug)]
pub struct SubresourceRange {
    pub aspect_mask: u32,
    pub base_mip_level: u32,
    pub level_count: u32,
    pub base_array_layer: u32,
    pub layer_count: u32,
}

/// Layout transition of one image, with the accesses it orders. The queue family
/// indices of such a barrier are both [`QUEUE_FAMILY_IGNORED`].
#[derive(Clone, Copy, PartialEq, Eq, Structural, Debug)]
pub struct ImageBarrier {
    pub src_access_mask: u32,
    pub dst_access_mask: u32,
    pub old_layout: i32,
    pub new_layout: i32,
    pub image: u64,
    pub subresource_range: SubresourceRange,
}

} // verus!
