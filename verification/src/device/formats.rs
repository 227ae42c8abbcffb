//! Conversion of descriptors to Vulkan enumerants and flag words.
use vstd::prelude::*;

use crate::hal::{
    AddressMode, BlendComponent, BlendFactor, BlendMode, BlendOp, BorderColor, BufferUsage,
    CompareFn, CullMode, FilterMode, Format, FrontFace, MemoryUsage, PolygonMode, PresentMode,
    PrimitiveTopology, StepMode, TextureUsage, VertexFormat, BUFFER_INDEX, BUFFER_INDIRECT,
    BUFFER_READBACK, BUFFER_STORAGE, BUFFER_TRANSFER_DST, BUFFER_TRANSFER_SRC, BUFFER_UNIFORM,
    BUFFER_VERTEX, TEXTURE_DEPTH_STENCIL, TEXTURE_RENDER_TARGET, TEXTURE_SAMPLED, TEXTURE_STORAGE,
    TEXTURE_TRANSFER_DST, TEXTURE_TRANSFER_SRC,
};
use crate::vk;

verus! {

/// Texel filter.
pub open spec fn vk_filter(f: FilterMode) -> i32 {
    match f {
        FilterMode::Nearest => vk::FILTER_NEAREST,
        FilterMode::Linear => vk::FILTER_LINEAR,
    }
}

pub fn filter_to_vk(f: FilterMode) -> (v: i32)
    ensures
        v == vk_filter(f),
{
    match f {
        FilterMode::Nearest => vk::FILTER_NEAREST,
        FilterMode::Linear => vk::FILTER_LINEAR,
    }
}

/// Filter between mip levels.
pub open spec fn vk_mipmap_mode(f: FilterMode) -> i32 {
    match f {
        FilterMode::Nearest => vk::SAMPLER_MIPMAP_MODE_NEAREST,
        FilterMode::Linear => vk::SAMPLER_MIPMAP_MODE_LINEAR,
    }
}

pub fn mipmap_mode_to_vk(f: FilterMode) -> (v: i32)
    ensures
        v == vk_mipmap_mode(f),
{
    match f {
        FilterMode::Nearest => vk::SAMPLER_MIPMAP_MODE_NEAREST,
        FilterMode::Linear => vk::SAMPLER_MIPMAP_MODE_LINEAR,
    }
}

/// Addressing outside the unit square.
pub open spec fn vk_address(a: AddressMode) -> i32 {
    match a {
        AddressMode::ClampToEdge => vk::SAMPLER_ADDRESS_MODE_CLAMP_TO_EDGE,
        AddressMode::Repeat => vk::SAMPLER_ADDRESS_MODE_REPEAT,
        AddressMode::MirrorRepeat => vk::SAMPLER_ADDRESS_MODE_MIRRORED_REPEAT,
    }
}

pub fn address_to_vk(a: AddressMode) -> (v: i32)
    ensures
        v == vk_address(a),
{
    match a {
        AddressMode::ClampToEdge => vk::SAMPLER_ADDRESS_MODE_CLAMP_TO_EDGE,
        AddressMode::Repeat => vk::SAMPLER_ADDRESS_MODE_REPEAT,
        AddressMode::MirrorRepeat => vk::SAMPLER_ADDRESS_MODE_MIRRORED_REPEAT,
    }
}

/// Color outside a clamped image.
pub open spec fn vk_border_color(b: BorderColor) -> i32 {
    match b {
        BorderColor::TransparentBlack => vk::BORDER_COLOR_FLOAT_TRANSPARENT_BLACK,
        BorderColor::OpaqueBlack => vk::BORDER_COLOR_FLOAT_OPAQUE_BLACK,
        BorderColor::OpaqueWhite => vk::BORDER_COLOR_FLOAT_OPAQUE_WHITE,
    }
}

pub fn border_color_to_vk(b: BorderColor) -> (v: i32)
    ensures
        v == vk_border_color(b),
{
    match b {
        BorderColor::TransparentBlack => vk::BORDER_COLOR_FLOAT_TRANSPARENT_BLACK,
        BorderColor::OpaqueBlack => vk::BORDER_COLOR_FLOAT_OPAQUE_BLACK,
        BorderColor::OpaqueWhite => vk::BORDER_COLOR_FLOAT_OPAQUE_WHITE,
    }
}

/// Texel format.
pub open spec fn vk_hal_format(f: Format) -> i32 {
    match f {
        Format::Rgba8Unorm => vk::FORMAT_R8G8B8A8_UNORM,
        Format::Rgba8UnormSrgb => vk::FORMAT_R8G8B8A8_SRGB,
        Format::Bgra8Unorm => vk::FORMAT_B8G8R8A8_UNORM,
        Format::Bgra8UnormSrgb => vk::FORMAT_B8G8R8A8_SRGB,
        Format::R32Float => vk::FORMAT_R32_SFLOAT,
        Format::Depth32Float => vk::FORMAT_D32_SFLOAT,
        Format::Depth24PlusStencil8 => vk::FORMAT_D24_UNORM_S8_UINT,
    }
}

pub fn hal_format_to_vk(f: Format) -> (v: i32)
    ensures
        v == vk_hal_format(f),
{
    match f {
        Format::Rgba8Unorm => vk::FORMAT_R8G8B8A8_UNORM,
        Format::Rgba8UnormSrgb => vk::FORMAT_R8G8B8A8_SRGB,
        Format::Bgra8Unorm => vk::FORMAT_B8G8R8A8_UNORM,
        Format::Bgra8UnormSrgb => vk::FORMAT_B8G8R8A8_SRGB,
        Format::R32Float => vk::FORMAT_R32_SFLOAT,
        Format::Depth32Float => vk::FORMAT_D32_SFLOAT,
        Format::Depth24PlusStencil8 => vk::FORMAT_D24_UNORM_S8_UINT,
    }
}

/// Format of a vertex attribute.
pub open spec fn vk_vertex_format(f: VertexFormat) -> i32 {
    match f {
        VertexFormat::Float32 => vk::FORMAT_R32_SFLOAT,
        VertexFormat::Float32x2 => vk::FORMAT_R32G32_SFLOAT,
        VertexFormat::Float32x3 => vk::FORMAT_R32G32B32_SFLOAT,
        VertexFormat::Float32x4 => vk::FORMAT_R32G32B32A32_SFLOAT,
        VertexFormat::Uint32 => vk::FORMAT_R32_UINT,
        VertexFormat::Uint8x4Unorm => vk::FORMAT_R8G8B8A8_UNORM,
    }
}

pub fn vertex_format_to_vk(f: VertexFormat) -> (v: i32)
    ensures
        v == vk_vertex_format(f),
{
    match f {
        VertexFormat::Float32 => vk::FORMAT_R32_SFLOAT,
        VertexFormat::Float32x2 => vk::FORMAT_R32G32_SFLOAT,
        VertexFormat::Float32x3 => vk::FORMAT_R32G32B32_SFLOAT,
        VertexFormat::Float32x4 => vk::FORMAT_R32G32B32A32_SFLOAT,
        VertexFormat::Uint32 => vk::FORMAT_R32_UINT,
        VertexFormat::Uint8x4Unorm => vk::FORMAT_R8G8B8A8_UNORM,
    }
}

/// Rate at which a vertex stream advances.
pub open spec fn vk_step_mode(s: StepMode) -> i32 {
    match s {
        StepMode::Vertex => vk::VERTEX_INPUT_RATE_VERTEX,
        StepMode::Instance => vk::VERTEX_INPUT_RATE_INSTANCE,
    }
}

pub fn step_mode_to_vk(s: StepMode) -> (v: i32)
    ensures
        v == vk_step_mode(s),
{
    match s {
        StepMode::Vertex => vk::VERTEX_INPUT_RATE_VERTEX,
        StepMode::Instance => vk::VERTEX_INPUT_RATE_INSTANCE,
    }
}

/// Primitive topology.
pub open spec fn vk_topology(p: PrimitiveTopology) -> i32 {
    match p {
        PrimitiveTopology::TriangleList => vk::PRIMITIVE_TOPOLOGY_TRIANGLE_LIST,
        PrimitiveTopology::TriangleStrip => vk::PRIMITIVE_TOPOLOGY_TRIANGLE_STRIP,
        PrimitiveTopology::LineList => vk::PRIMITIVE_TOPOLOGY_LINE_LIST,
        PrimitiveTopology::PointList => vk::PRIMITIVE_TOPOLOGY_POINT_LIST,
    }
}

pub fn topology_to_vk(p: PrimitiveTopology) -> (v: i32)
    ensures
        v == vk_topology(p),
{
    match p {
        PrimitiveTopology::TriangleList => vk::PRIMITIVE_TOPOLOGY_TRIANGLE_LIST,
        PrimitiveTopology::TriangleStrip => vk::PRIMITIVE_TOPOLOGY_TRIANGLE_STRIP,
        PrimitiveTopology::LineList => vk::PRIMITIVE_TOPOLOGY_LINE_LIST,
        PrimitiveTopology::PointList => vk::PRIMITIVE_TOPOLOGY_POINT_LIST,
    }
}

/// Blend factor.
pub open spec fn vk_blend_factor(b: BlendFactor) -> i32 {
    match b {
        BlendFactor::Zero => vk::BLEND_FACTOR_ZERO,
        BlendFactor::One => vk::BLEND_FACTOR_ONE,
        BlendFactor::SrcColor => vk::BLEND_FACTOR_SRC_COLOR,
        BlendFactor::OneMinusSrcColor => vk::BLEND_FACTOR_ONE_MINUS_SRC_COLOR,
        BlendFactor::DstColor => vk::BLEND_FACTOR_DST_COLOR,
        BlendFactor::OneMinusDstColor => vk::BLEND_FACTOR_ONE_MINUS_DST_COLOR,
        BlendFactor::SrcAlpha => vk::BLEND_FACTOR_SRC_ALPHA,
        BlendFactor::OneMinusSrcAlpha => vk::BLEND_FACTOR_ONE_MINUS_SRC_ALPHA,
        BlendFactor::DstAlpha => vk::BLEND_FACTOR_DST_ALPHA,
        BlendFactor::OneMinusDstAlpha => vk::BLEND_FACTOR_ONE_MINUS_DST_ALPHA,
        BlendFactor::Src1Color => vk::BLEND_FACTOR_SRC1_COLOR,
        BlendFactor::OneMinusSrc1Color => vk::BLEND_FACTOR_ONE_MINUS_SRC1_COLOR,
        BlendFactor::Src1Alpha => vk::BLEND_FACTOR_SRC1_ALPHA,
        BlendFactor::OneMinusSrc1Alpha => vk::BLEND_FACTOR_ONE_MINUS_SRC1_ALPHA,
    }
}

pub fn blend_factor_to_vk(b: BlendFactor) -> (v: i32)
    ensures
        v == vk_blend_factor(b),
{
    match b {
        BlendFactor::Zero => vk::BLEND_FACTOR_ZERO,
        BlendFactor::One => vk::BLEND_FACTOR_ONE,
        BlendFactor::SrcColor => vk::BLEND_FACTOR_SRC_COLOR,
        BlendFactor::OneMinusSrcColor => vk::BLEND_FACTOR_ONE_MINUS_SRC_COLOR,
        BlendFactor::DstColor => vk::BLEND_FACTOR_DST_COLOR,
        BlendFactor::OneMinusDstColor => vk::BLEND_FACTOR_ONE_MINUS_DST_COLOR,
        BlendFactor::SrcAlpha => vk::BLEND_FACTOR_SRC_ALPHA,
        BlendFactor::OneMinusSrcAlpha => vk::BLEND_FACTOR_ONE_MINUS_SRC_ALPHA,
        BlendFactor::DstAlpha => vk::BLEND_FACTOR_DST_ALPHA,
        BlendFactor::OneMinusDstAlpha => vk::BLEND_FACTOR_ONE_MINUS_DST_ALPHA,
        BlendFactor::Src1Color => vk::BLEND_FACTOR_SRC1_COLOR,
        BlendFactor::OneMinusSrc1Color => vk::BLEND_FACTOR_ONE_MINUS_SRC1_COLOR,
        BlendFactor::Src1Alpha => vk::BLEND_FACTOR_SRC1_ALPHA,
        BlendFactor::OneMinusSrc1Alpha => vk::BLEND_FACTOR_ONE_MINUS_SRC1_ALPHA,
    }
}

/// Blend operation.
pub open spec fn vk_blend_op(b: BlendOp) -> i32 {
    match b {
        BlendOp::Add => vk::BLEND_OP_ADD,
        BlendOp::Subtract => vk::BLEND_OP_SUBTRACT,
        BlendOp::ReverseSubtract => vk::BLEND_OP_REVERSE_SUBTRACT,
        BlendOp::Min => vk::BLEND_OP_MIN,
        BlendOp::Max => vk::BLEND_OP_MAX,
    }
}

pub fn blend_op_to_vk(b: BlendOp) -> (v: i32)
    ensures
        v == vk_blend_op(b),
{
    match b {
        BlendOp::Add => vk::BLEND_OP_ADD,
        BlendOp::Subtract => vk::BLEND_OP_SUBTRACT,
        BlendOp::ReverseSubtract => vk::BLEND_OP_REVERSE_SUBTRACT,
        BlendOp::Min => vk::BLEND_OP_MIN,
        BlendOp::Max => vk::BLEND_OP_MAX,
    }
}

/// Faces that are culled.
pub open spec fn vk_cull_mode(c: CullMode) -> u32 {
    match c {
        CullMode::Neither => vk::CULL_MODE_NONE,
        CullMode::Front => vk::CULL_MODE_FRONT,
        CullMode::Back => vk::CULL_MODE_BACK,
    }
}

pub fn cull_mode_to_vk(c: CullMode) -> (v: u32)
    ensures
        v == vk_cull_mode(c),
{
    match c {
        CullMode::Neither => vk::CULL_MODE_NONE,
        CullMode::Front => vk::CULL_MODE_FRONT,
        CullMode::Back => vk::CULL_MODE_BACK,
    }
}

/// Winding of front faces.
pub open spec fn vk_front_face(f: FrontFace) -> i32 {
    match f {
        FrontFace::Ccw => vk::FRONT_FACE_COUNTER_CLOCKWISE,
        FrontFace::Cw => vk::FRONT_FACE_CLOCKWISE,
    }
}

pub fn front_face_to_vk(f: FrontFace) -> (v: i32)
    ensures
        v == vk_front_face(f),
{
    match f {
        FrontFace::Ccw => vk::FRONT_FACE_COUNTER_CLOCKWISE,
        FrontFace::Cw => vk::FRONT_FACE_CLOCKWISE,
    }
}

/// Polygon fill mode.
pub open spec fn vk_polygon_mode(p: PolygonMode) -> i32 {
    match p {
        PolygonMode::Fill => vk::POLYGON_MODE_FILL,
        PolygonMode::Line => vk::POLYGON_MODE_LINE,
        PolygonMode::Point => vk::POLYGON_MODE_POINT,
    }
}

pub fn polygon_mode_to_vk(p: PolygonMode) -> (v: i32)
    ensures
        v == vk_polygon_mode(p),
{
    match p {
        PolygonMode::Fill => vk::POLYGON_MODE_FILL,
        PolygonMode::Line => vk::POLYGON_MODE_LINE,
        PolygonMode::Point => vk::POLYGON_MODE_POINT,
    }
}

/// Comparison.
pub open spec fn vk_compare_fn(c: CompareFn) -> i32 {
    match c {
        CompareFn::Never => vk::COMPARE_OP_NEVER,
        CompareFn::Less => vk::COMPARE_OP_LESS,
        CompareFn::Equal => vk::COMPARE_OP_EQUAL,
        CompareFn::LessEqual => vk::COMPARE_OP_LESS_OR_EQUAL,
        CompareFn::Greater => vk::COMPARE_OP_GREATER,
        CompareFn::GreaterEqual => vk::COMPARE_OP_GREATER_OR_EQUAL,
        CompareFn::NotEqual => vk::COMPARE_OP_NOT_EQUAL,
        CompareFn::Always => vk::COMPARE_OP_ALWAYS,
    }
}

pub fn compare_fn_to_vk(c: CompareFn) -> (v: i32)
    ensures
        v == vk_compare_fn(c),
{
    match c {
        CompareFn::Never => vk::COMPARE_OP_NEVER,
        CompareFn::Less => vk::COMPARE_OP_LESS,
        CompareFn::Equal => vk::COMPARE_OP_EQUAL,
        CompareFn::LessEqual => vk::COMPARE_OP_LESS_OR_EQUAL,
        CompareFn::Greater => vk::COMPARE_OP_GREATER,
        CompareFn::GreaterEqual => vk::COMPARE_OP_GREATER_OR_EQUAL,
        CompareFn::NotEqual => vk::COMPARE_OP_NOT_EQUAL,
        CompareFn::Always => vk::COMPARE_OP_ALWAYS,
    }
}

/// Presentation mode.
pub open spec fn vk_present_mode(p: PresentMode) -> i32 {
    match p {
        PresentMode::Fifo => vk::PRESENT_MODE_FIFO_KHR,
        PresentMode::Mailbox => vk::PRESENT_MODE_MAILBOX_KHR,
        PresentMode::Immediate => vk::PRESENT_MODE_IMMEDIATE_KHR,
    }
}

pub fn present_mode_to_vk(p: PresentMode) -> (v: i32)
    ensures
        v == vk_present_mode(p),
{
    match p {
        PresentMode::Fifo => vk::PRESENT_MODE_FIFO_KHR,
        PresentMode::Mailbox => vk::PRESENT_MODE_MAILBOX_KHR,
        PresentMode::Immediate => vk::PRESENT_MODE_IMMEDIATE_KHR,
    }
}

/// `flag` if `on`, else no flag.
pub open spec fn flag_if(on: bool, flag: u32) -> u32 {
    if on {
        flag
    } else {
        0
    }
}

fn pick_flag(on: bool, flag: u32) -> (r: u32)
    ensures
        r == flag_if(on, flag),
{
    if on {
        flag
    } else {
        0
    }
}

/// Vulkan flags of the uses in `usage`, before the default for no use at all.
pub open spec fn vk_named_buffer_usage(usage: BufferUsage) -> u32 {
    flag_if(usage.has(BUFFER_STORAGE), vk::BUFFER_USAGE_STORAGE_BUFFER) | flag_if(
        usage.has(BUFFER_UNIFORM),
        vk::BUFFER_USAGE_UNIFORM_BUFFER,
    ) | flag_if(usage.has(BUFFER_VERTEX), vk::BUFFER_USAGE_VERTEX_BUFFER) | flag_if(
        usage.has(BUFFER_INDEX),
        vk::BUFFER_USAGE_INDEX_BUFFER,
    ) | flag_if(usage.has(BUFFER_INDIRECT), vk::BUFFER_USAGE_INDIRECT_BUFFER) | flag_if(
        usage.has(BUFFER_TRANSFER_SRC),
        vk::BUFFER_USAGE_TRANSFER_SRC,
    ) | flag_if(
        usage.has(BUFFER_TRANSFER_DST) || usage.has(BUFFER_READBACK),
        vk::BUFFER_USAGE_TRANSFER_DST,
    )
}

/// Vulkan usage flags of a buffer. A readback buffer is a transfer destination, and a buffer
/// without any use may be copied from and to.
pub open spec fn vk_buffer_usage(usage: BufferUsage) -> u32 {
    let flags = vk_named_buffer_usage(usage);
    if flags == 0 {
        vk::BUFFER_USAGE_TRANSFER_SRC | vk::BUFFER_USAGE_TRANSFER_DST
    } else {
        flags
    }
}

pub fn buffer_usage_to_vk(usage: BufferUsage) -> (flags: u32)
    ensures
        flags == vk_buffer_usage(usage),
{
    let flags: u32 = pick_flag(usage.contains(BUFFER_STORAGE), vk::BUFFER_USAGE_STORAGE_BUFFER)
        | pick_flag(usage.contains(BUFFER_UNIFORM), vk::BUFFER_USAGE_UNIFORM_BUFFER) | pick_flag(
        usage.contains(BUFFER_VERTEX),
        vk::BUFFER_USAGE_VERTEX_BUFFER,
    ) | pick_flag(usage.contains(BUFFER_INDEX), vk::BUFFER_USAGE_INDEX_BUFFER) | pick_flag(
        usage.contains(BUFFER_INDIRECT),
        vk::BUFFER_USAGE_INDIRECT_BUFFER,
    ) | pick_flag(usage.contains(BUFFER_TRANSFER_SRC), vk::BUFFER_USAGE_TRANSFER_SRC) | pick_flag(
        usage.contains(BUFFER_TRANSFER_DST) || usage.contains(BUFFER_READBACK),
        vk::BUFFER_USAGE_TRANSFER_DST,
    );
    if flags == 0 {
        vk::BUFFER_USAGE_TRANSFER_SRC | vk::BUFFER_USAGE_TRANSFER_DST
    } else {
        flags
    }
}

/// Every buffer has some Vulkan usage, and exactly the Vulkan usage that its own implies: the
/// transfer flags are set for transfers, readback, or want of any other use.
pub proof fn buffer_usage_is_exact(usage: BufferUsage)
    ensures
        vk_buffer_usage(usage) != 0,
        has_bit(vk_buffer_usage(usage), vk::BUFFER_USAGE_STORAGE_BUFFER) == usage.has(
            BUFFER_STORAGE,
        ),
        has_bit(vk_buffer_usage(usage), vk::BUFFER_USAGE_UNIFORM_BUFFER) == usage.has(
            BUFFER_UNIFORM,
        ),
        has_bit(vk_buffer_usage(usage), vk::BUFFER_USAGE_VERTEX_BUFFER) == usage.has(
            BUFFER_VERTEX,
        ),
        has_bit(vk_buffer_usage(usage), vk::BUFFER_USAGE_INDEX_BUFFER) == usage.has(BUFFER_INDEX),
        has_bit(vk_buffer_usage(usage), vk::BUFFER_USAGE_INDIRECT_BUFFER) == usage.has(
            BUFFER_INDIRECT,
        ),
        vk_named_buffer_usage(usage) != 0 ==> has_bit(
            vk_buffer_usage(usage),
            vk::BUFFER_USAGE_TRANSFER_SRC,
        ) == usage.has(BUFFER_TRANSFER_SRC),
        vk_named_buffer_usage(usage) != 0 ==> has_bit(
            vk_buffer_usage(usage),
            vk::BUFFER_USAGE_TRANSFER_DST,
        ) == (usage.has(BUFFER_TRANSFER_DST) || usage.has(BUFFER_READBACK)),
{
    let a = flag_if(usage.has(BUFFER_STORAGE), vk::BUFFER_USAGE_STORAGE_BUFFER);
    let b = flag_if(usage.has(BUFFER_UNIFORM), vk::BUFFER_USAGE_UNIFORM_BUFFER);
    let c = flag_if(usage.has(BUFFER_VERTEX), vk::BUFFER_USAGE_VERTEX_BUFFER);
    let d = flag_if(usage.has(BUFFER_INDEX), vk::BUFFER_USAGE_INDEX_BUFFER);
    let e = flag_if(usage.has(BUFFER_INDIRECT), vk::BUFFER_USAGE_INDIRECT_BUFFER);
    let f = flag_if(usage.has(BUFFER_TRANSFER_SRC), vk::BUFFER_USAGE_TRANSFER_SRC);
    let g = flag_if(
        usage.has(BUFFER_TRANSFER_DST) || usage.has(BUFFER_READBACK),
        vk::BUFFER_USAGE_TRANSFER_DST,
    );
    let w = a | b | c | d | e | f | g;
    assert(w & 0x20 == a && w & 0x10 == b && w & 0x80 == c && w & 0x40 == d && w & 0x100 == e && w
        & 0x1 == f && w & 0x2 == g && (w == 0 ==> a == 0 && b == 0 && c == 0 && d == 0 && e == 0))
        by (bit_vector)
        requires
            w == a | b | c | d | e | f | g,
            a == 0 || a == 0x20,
            b == 0 || b == 0x10,
            c == 0 || c == 0x80,
            d == 0 || d == 0x40,
            e == 0 || e == 0x100,
            f == 0 || f == 0x1,
            g == 0 || g == 0x2,
    ;
    assert(0x1u32 | 0x2u32 == 3 && 3u32 & 0x20 == 0 && 3u32 & 0x10 == 0 && 3u32 & 0x80 == 0 && 3u32
        & 0x40 == 0 && 3u32 & 0x100 == 0) by (bit_vector);
}

/// The bit `flag` is set in `flags`.
pub open spec fn has_bit(flags: u32, flag: u32) -> bool {
    flags & flag != 0
}

/// Vulkan usage flags of a texture.
pub open spec fn vk_texture_usage(usage: TextureUsage) -> u32 {
    flag_if(usage.has(TEXTURE_SAMPLED), vk::IMAGE_USAGE_SAMPLED) | flag_if(
        usage.has(TEXTURE_STORAGE),
        vk::IMAGE_USAGE_STORAGE,
    ) | flag_if(usage.has(TEXTURE_RENDER_TARGET), vk::IMAGE_USAGE_COLOR_ATTACHMENT) | flag_if(
        usage.has(TEXTURE_DEPTH_STENCIL),
        vk::IMAGE_USAGE_DEPTH_STENCIL_ATTACHMENT,
    ) | flag_if(usage.has(TEXTURE_TRANSFER_SRC), vk::IMAGE_USAGE_TRANSFER_SRC) | flag_if(
        usage.has(TEXTURE_TRANSFER_DST),
        vk::IMAGE_USAGE_TRANSFER_DST,
    )
}

pub fn texture_usage_to_vk(usage: TextureUsage) -> (flags: u32)
    ensures
        flags == vk_texture_usage(usage),
{
    pick_flag(usage.contains(TEXTURE_SAMPLED), vk::IMAGE_USAGE_SAMPLED) | pick_flag(
        usage.contains(TEXTURE_STORAGE),
        vk::IMAGE_USAGE_STORAGE,
    ) | pick_flag(usage.contains(TEXTURE_RENDER_TARGET), vk::IMAGE_USAGE_COLOR_ATTACHMENT)
        | pick_flag(
        usage.contains(TEXTURE_DEPTH_STENCIL),
        vk::IMAGE_USAGE_DEPTH_STENCIL_ATTACHMENT,
    ) | pick_flag(usage.contains(TEXTURE_TRANSFER_SRC), vk::IMAGE_USAGE_TRANSFER_SRC) | pick_flag(
        usage.contains(TEXTURE_TRANSFER_DST),
        vk::IMAGE_USAGE_TRANSFER_DST,
    )
}

/// Memory properties that a memory usage asks for.
pub open spec fn vk_memory_usage(usage: MemoryUsage) -> u32 {
    match usage {
        MemoryUsage::GpuOnly | MemoryUsage::Pooled => vk::MEMORY_PROPERTY_DEVICE_LOCAL,
        MemoryUsage::Upload | MemoryUsage::Transient | MemoryUsage::Persistent => {
            vk::MEMORY_PROPERTY_HOST_VISIBLE | vk::MEMORY_PROPERTY_HOST_COHERENT
        },
        MemoryUsage::CpuToGpu => {
            vk::MEMORY_PROPERTY_DEVICE_LOCAL | vk::MEMORY_PROPERTY_HOST_VISIBLE
                | vk::MEMORY_PROPERTY_HOST_COHERENT
        },
        MemoryUsage::Readback => {
            vk::MEMORY_PROPERTY_HOST_VISIBLE | vk::MEMORY_PROPERTY_HOST_COHERENT
                | vk::MEMORY_PROPERTY_HOST_CACHED
        },
    }
}

pub fn memory_usage_to_vk(usage: MemoryUsage) -> (props: u32)
    ensures
        props == vk_memory_usage(usage),
{
    match usage {
        MemoryUsage::GpuOnly | MemoryUsage::Pooled => vk::MEMORY_PROPERTY_DEVICE_LOCAL,
        MemoryUsage::Upload | MemoryUsage::Transient | MemoryUsage::Persistent => {
            vk::MEMORY_PROPERTY_HOST_VISIBLE | vk::MEMORY_PROPERTY_HOST_COHERENT
        },
        MemoryUsage::CpuToGpu => {
            vk::MEMORY_PROPERTY_DEVICE_LOCAL | vk::MEMORY_PROPERTY_HOST_VISIBLE
                | vk::MEMORY_PROPERTY_HOST_COHERENT
        },
        MemoryUsage::Readback => {
            vk::MEMORY_PROPERTY_HOST_VISIBLE | vk::MEMORY_PROPERTY_HOST_COHERENT
                | vk::MEMORY_PROPERTY_HOST_CACHED
        },
    }
}

/// Memory properties to settle for when no memory type has the preferred ones.
pub open spec fn vk_memory_fallback(usage: MemoryUsage) -> Option<u32> {
    match usage {
        MemoryUsage::CpuToGpu | MemoryUsage::Readback => Some(
            vk::MEMORY_PROPERTY_HOST_VISIBLE | vk::MEMORY_PROPERTY_HOST_COHERENT,
        ),
        _ => None,
    }
}

pub fn memory_usage_fallback(usage: MemoryUsage) -> (props: Option<u32>)
    ensures
        props == vk_memory_fallback(usage),
{
    match usage {
        MemoryUsage::CpuToGpu | MemoryUsage::Readback => Some(
            vk::MEMORY_PROPERTY_HOST_VISIBLE | vk::MEMORY_PROPERTY_HOST_COHERENT,
        ),
        _ => None,
    }
}

/// Sample count flag; counts that are not supported mean one sample.
pub open spec fn vk_sample_count(samples: u32) -> u32 {
    if samples == 2 {
        vk::SAMPLE_COUNT_2
    } else if samples == 4 {
        vk::SAMPLE_COUNT_4
    } else if samples == 8 {
        vk::SAMPLE_COUNT_8
    } else if samples == 16 {
        vk::SAMPLE_COUNT_16
    } else {
        vk::SAMPLE_COUNT_1
    }
}

pub fn sample_count_to_vk(samples: u32) -> (flag: u32)
    ensures
        flag == vk_sample_count(samples),
{
    match samples {
        2 => vk::SAMPLE_COUNT_2,
        4 => vk::SAMPLE_COUNT_4,
        8 => vk::SAMPLE_COUNT_8,
        16 => vk::SAMPLE_COUNT_16,
        _ => vk::SAMPLE_COUNT_1,
    }
}

/// Source factor, destination factor and operation of a blend component.
pub fn blend_component_to_vk(c: BlendComponent) -> (v: (i32, i32, i32))
    ensures
        v.0 == vk_blend_factor(c.src_factor),
        v.1 == vk_blend_factor(c.dst_factor),
        v.2 == vk_blend_op(c.op),
{
    (blend_factor_to_vk(c.src_factor), blend_factor_to_vk(c.dst_factor), blend_op_to_vk(c.op))
}

/// Blend state of one color attachment.
#[derive(Clone, Copy, PartialEq, Eq, Structural, Debug)]
pub struct BlendAttachment {
    pub blend_enable: bool,
    pub src_color_blend_factor: i32,
    pub dst_color_blend_factor: i32,
    pub color_blend_op: i32,
    pub src_alpha_blend_factor: i32,
    pub dst_alpha_blend_factor: i32,
    pub alpha_blend_op: i32,
    pub color_write_mask: u32,
}

/// Blend state of a preset. All of them write the four color components.
pub open spec fn vk_blend_mode(b: BlendMode) -> BlendAttachment {
    match b {
        BlendMode::Opaque => BlendAttachment {
            blend_enable: false,
            src_color_blend_factor: vk::BLEND_FACTOR_ZERO,
            dst_color_blend_factor: vk::BLEND_FACTOR_ZERO,
            color_blend_op: vk::BLEND_OP_ADD,
            src_alpha_blend_factor: vk::BLEND_FACTOR_ZERO,
            dst_alpha_blend_factor: vk::BLEND_FACTOR_ZERO,
            alpha_blend_op: vk::BLEND_OP_ADD,
            color_write_mask: vk::COLOR_COMPONENT_RGBA,
        },
        BlendMode::AlphaBlend => BlendAttachment {
            blend_enable: true,
            src_color_blend_factor: vk::BLEND_FACTOR_SRC_ALPHA,
            dst_color_blend_factor: vk::BLEND_FACTOR_ONE_MINUS_SRC_ALPHA,
            color_blend_op: vk::BLEND_OP_ADD,
            src_alpha_blend_factor: vk::BLEND_FACTOR_ONE,
            dst_alpha_blend_factor: vk::BLEND_FACTOR_ONE_MINUS_SRC_ALPHA,
            alpha_blend_op: vk::BLEND_OP_ADD,
            color_write_mask: vk::COLOR_COMPONENT_RGBA,
        },
        BlendMode::DualSourceAlpha => BlendAttachment {
            blend_enable: true,
            src_color_blend_factor: vk::BLEND_FACTOR_SRC1_COLOR,
            dst_color_blend_factor: vk::BLEND_FACTOR_ONE_MINUS_SRC1_COLOR,
            color_blend_op: vk::BLEND_OP_ADD,
            src_alpha_blend_factor: vk::BLEND_FACTOR_SRC1_ALPHA,
            dst_alpha_blend_factor: vk::BLEND_FACTOR_ONE_MINUS_SRC1_ALPHA,
            alpha_blend_op: vk::BLEND_OP_ADD,
            color_write_mask: vk::COLOR_COMPONENT_RGBA,
        },
    }
}

pub fn blend_mode_to_vk(b: BlendMode) -> (v: BlendAttachment)
    ensures
        v == vk_blend_mode(b),
{
    match b {
        BlendMode::Opaque => BlendAttachment {
            blend_enable: false,
            src_color_blend_factor: vk::BLEND_FACTOR_ZERO,
            dst_color_blend_factor: vk::BLEND_FACTOR_ZERO,
            color_blend_op: vk::BLEND_OP_ADD,
            src_alpha_blend_factor: vk::BLEND_FACTOR_ZERO,
            dst_alpha_blend_factor: vk::BLEND_FACTOR_ZERO,
            alpha_blend_op: vk::BLEND_OP_ADD,
            color_write_mask: vk::COLOR_COMPONENT_RGBA,
        },
        BlendMode::AlphaBlend => BlendAttachment {
            blend_enable: true,
            src_color_blend_factor: vk::BLEND_FACTOR_SRC_ALPHA,
            dst_color_blend_factor: vk::BLEND_FACTOR_ONE_MINUS_SRC_ALPHA,
            color_blend_op: vk::BLEND_OP_ADD,
            src_alpha_blend_factor: vk::BLEND_FACTOR_ONE,
            dst_alpha_blend_factor: vk::BLEND_FACTOR_ONE_MINUS_SRC_ALPHA,
            alpha_blend_op: vk::BLEND_OP_ADD,
            color_write_mask: vk::COLOR_COMPONENT_RGBA,
        },
        BlendMode::DualSourceAlpha => BlendAttachment {
            blend_enable: true,
            src_color_blend_factor: vk::BLEND_FACTOR_SRC1_COLOR,
            dst_color_blend_factor: vk::BLEND_FACTOR_ONE_MINUS_SRC1_COLOR,
            color_blend_op: vk::BLEND_OP_ADD,
            src_alpha_blend_factor: vk::BLEND_FACTOR_SRC1_ALPHA,
            dst_alpha_blend_factor: vk::BLEND_FACTOR_ONE_MINUS_SRC1_ALPHA,
            alpha_blend_op: vk::BLEND_OP_ADD,
            color_write_mask: vk::COLOR_COMPONENT_RGBA,
        },
    }
}

/// A filter becomes the Vulkan filter of its name, between texels and between mip levels.
pub proof fn filters_keep_their_names(f: FilterMode)
    ensures
        vk_filter(f) == vk::FILTER_NEAREST <==> f is Nearest,
        vk_filter(f) == vk::FILTER_LINEAR <==> f is Linear,
        vk_mipmap_mode(f) == vk::SAMPLER_MIPMAP_MODE_NEAREST <==> f is Nearest,
        vk_mipmap_mode(f) == vk::SAMPLER_MIPMAP_MODE_LINEAR <==> f is Linear,
{
}

/// An addressing mode and a border color become the Vulkan ones of their names.
pub proof fn addressing_keeps_its_name(a: AddressMode, b: BorderColor)
    ensures
        vk_address(a) == vk::SAMPLER_ADDRESS_MODE_CLAMP_TO_EDGE <==> a is ClampToEdge,
        vk_address(a) == vk::SAMPLER_ADDRESS_MODE_REPEAT <==> a is Repeat,
        vk_address(a) == vk::SAMPLER_ADDRESS_MODE_MIRRORED_REPEAT <==> a is MirrorRepeat,
        vk_border_color(b) == vk::BORDER_COLOR_FLOAT_TRANSPARENT_BLACK <==> b is TransparentBlack,
        vk_border_color(b) == vk::BORDER_COLOR_FLOAT_OPAQUE_BLACK <==> b is OpaqueBlack,
        vk_border_color(b) == vk::BORDER_COLOR_FLOAT_OPAQUE_WHITE <==> b is OpaqueWhite,
{
}

/// A texel format becomes the Vulkan format of its name, so that no two formats are confused.
pub proof fn formats_keep_their_names(f: Format)
    ensures
        vk_hal_format(f) == vk::FORMAT_R8G8B8A8_UNORM <==> f is Rgba8Unorm,
        vk_hal_format(f) == vk::FORMAT_R8G8B8A8_SRGB <==> f is Rgba8UnormSrgb,
        vk_hal_format(f) == vk::FORMAT_B8G8R8A8_UNORM <==> f is Bgra8Unorm,
        vk_hal_format(f) == vk::FORMAT_B8G8R8A8_SRGB <==> f is Bgra8UnormSrgb,
        vk_hal_format(f) == vk::FORMAT_R32_SFLOAT <==> f is R32Float,
        vk_hal_format(f) == vk::FORMAT_D32_SFLOAT <==> f is Depth32Float,
        vk_hal_format(f) == vk::FORMAT_D24_UNORM_S8_UINT <==> f is Depth24PlusStencil8,
{
}

/// The format and the step mode of a vertex stream become the Vulkan ones of their names.
pub proof fn vertex_formats_keep_their_names(f: VertexFormat, s: StepMode)
    ensures
        vk_vertex_format(f) == vk::FORMAT_R32_SFLOAT <==> f is Float32,
        vk_vertex_format(f) == vk::FORMAT_R32G32_SFLOAT <==> f is Float32x2,
        vk_vertex_format(f) == vk::FORMAT_R32G32B32_SFLOAT <==> f is Float32x3,
        vk_vertex_format(f) == vk::FORMAT_R32G32B32A32_SFLOAT <==> f is Float32x4,
        vk_vertex_format(f) == vk::FORMAT_R32_UINT <==> f is Uint32,
        vk_vertex_format(f) == vk::FORMAT_R8G8B8A8_UNORM <==> f is Uint8x4Unorm,
        vk_step_mode(s) == vk::VERTEX_INPUT_RATE_VERTEX <==> s is Vertex,
        vk_step_mode(s) == vk::VERTEX_INPUT_RATE_INSTANCE <==> s is Instance,
{
}

/// Topology, culling, winding and fill mode become the Vulkan ones of their names.
pub proof fn rasterization_keeps_its_names(t: PrimitiveTopology, c: CullMode, f: FrontFace, p: PolygonMode)
    ensures
        vk_topology(t) == vk::PRIMITIVE_TOPOLOGY_TRIANGLE_LIST <==> t is TriangleList,
        vk_topology(t) == vk::PRIMITIVE_TOPOLOGY_TRIANGLE_STRIP <==> t is TriangleStrip,
        vk_topology(t) == vk::PRIMITIVE_TOPOLOGY_LINE_LIST <==> t is LineList,
        vk_topology(t) == vk::PRIMITIVE_TOPOLOGY_POINT_LIST <==> t is PointList,
        vk_cull_mode(c) == vk::CULL_MODE_NONE <==> c is Neither,
        vk_cull_mode(c) == vk::CULL_MODE_FRONT <==> c is Front,
        vk_cull_mode(c) == vk::CULL_MODE_BACK <==> c is Back,
        vk_front_face(f) == vk::FRONT_FACE_COUNTER_CLOCKWISE <==> f is Ccw,
        vk_front_face(f) == vk::FRONT_FACE_CLOCKWISE <==> f is Cw,
        vk_polygon_mode(p) == vk::POLYGON_MODE_FILL <==> p is Fill,
        vk_polygon_mode(p) == vk::POLYGON_MODE_LINE <==> p is Line,
        vk_polygon_mode(p) == vk::POLYGON_MODE_POINT <==> p is Point,
{
}

/// A blend factor and a blend operation become the Vulkan ones of their names.
pub proof fn blending_keeps_its_names(b: BlendFactor, o: BlendOp)
    ensures
        vk_blend_factor(b) == vk::BLEND_FACTOR_ZERO <==> b is Zero,
        vk_blend_factor(b) == vk::BLEND_FACTOR_ONE <==> b is One,
        vk_blend_factor(b) == vk::BLEND_FACTOR_SRC_COLOR <==> b is SrcColor,
        vk_blend_factor(b) == vk::BLEND_FACTOR_ONE_MINUS_SRC_COLOR <==> b is OneMinusSrcColor,
        vk_blend_factor(b) == vk::BLEND_FACTOR_DST_COLOR <==> b is DstColor,
        vk_blend_factor(b) == vk::BLEND_FACTOR_ONE_MINUS_DST_COLOR <==> b is OneMinusDstColor,
        vk_blend_factor(b) == vk::BLEND_FACTOR_SRC_ALPHA <==> b is SrcAlpha,
        vk_blend_factor(b) == vk::BLEND_FACTOR_ONE_MINUS_SRC_ALPHA <==> b is OneMinusSrcAlpha,
        vk_blend_factor(b) == vk::BLEND_FACTOR_DST_ALPHA <==> b is DstAlpha,
        vk_blend_factor(b) == vk::BLEND_FACTOR_ONE_MINUS_DST_ALPHA <==> b is OneMinusDstAlpha,
        vk_blend_factor(b) == vk::BLEND_FACTOR_SRC1_COLOR <==> b is Src1Color,
        vk_blend_factor(b) == vk::BLEND_FACTOR_ONE_MINUS_SRC1_COLOR <==> b is OneMinusSrc1Color,
        vk_blend_factor(b) == vk::BLEND_FACTOR_SRC1_ALPHA <==> b is Src1Alpha,
        vk_blend_factor(b) == vk::BLEND_FACTOR_ONE_MINUS_SRC1_ALPHA <==> b is OneMinusSrc1Alpha,
        vk_blend_op(o) == vk::BLEND_OP_ADD <==> o is Add,
        vk_blend_op(o) == vk::BLEND_OP_SUBTRACT <==> o is Subtract,
        vk_blend_op(o) == vk::BLEND_OP_REVERSE_SUBTRACT <==> o is ReverseSubtract,
        vk_blend_op(o) == vk::BLEND_OP_MIN <==> o is Min,
        vk_blend_op(o) == vk::BLEND_OP_MAX <==> o is Max,
{
}

/// A comparison becomes the Vulkan comparison of its name.
pub proof fn comparisons_keep_their_names(c: CompareFn)
    ensures
        vk_compare_fn(c) == vk::COMPARE_OP_NEVER <==> c is Never,
        vk_compare_fn(c) == vk::COMPARE_OP_LESS <==> c is Less,
        vk_compare_fn(c) == vk::COMPARE_OP_EQUAL <==> c is Equal,
        vk_compare_fn(c) == vk::COMPARE_OP_LESS_OR_EQUAL <==> c is LessEqual,
        vk_compare_fn(c) == vk::COMPARE_OP_GREATER <==> c is Greater,
        vk_compare_fn(c) == vk::COMPARE_OP_GREATER_OR_EQUAL <==> c is GreaterEqual,
        vk_compare_fn(c) == vk::COMPARE_OP_NOT_EQUAL <==> c is NotEqual,
        vk_compare_fn(c) == vk::COMPARE_OP_ALWAYS <==> c is Always,
{
}

/// A presentation mode becomes the Vulkan mode of its name.
pub proof fn present_modes_keep_their_names(p: PresentMode)
    ensures
        vk_present_mode(p) == vk::PRESENT_MODE_FIFO_KHR <==> p is Fifo,
        vk_present_mode(p) == vk::PRESENT_MODE_MAILBOX_KHR <==> p is Mailbox,
        vk_present_mode(p) == vk::PRESENT_MODE_IMMEDIATE_KHR <==> p is Immediate,
{
}

/// A texture has exactly the Vulkan usage that its own implies, flag for flag.
pub proof fn texture_usage_is_exact(usage: TextureUsage)
    ensures
        has_bit(vk_texture_usage(usage), vk::IMAGE_USAGE_SAMPLED) <==> has_bit(
            usage.bits,
            TEXTURE_SAMPLED,
        ),
        has_bit(vk_texture_usage(usage), vk::IMAGE_USAGE_STORAGE) <==> has_bit(
            usage.bits,
            TEXTURE_STORAGE,
        ),
        has_bit(vk_texture_usage(usage), vk::IMAGE_USAGE_COLOR_ATTACHMENT) <==> has_bit(
            usage.bits,
            TEXTURE_RENDER_TARGET,
        ),
        has_bit(vk_texture_usage(usage), vk::IMAGE_USAGE_DEPTH_STENCIL_ATTACHMENT) <==> has_bit(
            usage.bits,
            TEXTURE_DEPTH_STENCIL,
        ),
        has_bit(vk_texture_usage(usage), vk::IMAGE_USAGE_TRANSFER_SRC) <==> has_bit(
            usage.bits,
            TEXTURE_TRANSFER_SRC,
        ),
        has_bit(vk_texture_usage(usage), vk::IMAGE_USAGE_TRANSFER_DST) <==> has_bit(
            usage.bits,
            TEXTURE_TRANSFER_DST,
        ),
        vk_texture_usage(usage) < 0x40,
{
    let w = vk_texture_usage(usage);
    let u = usage.bits;
    let a = flag_if(usage.has(TEXTURE_SAMPLED), vk::IMAGE_USAGE_SAMPLED);
    let b = flag_if(usage.has(TEXTURE_STORAGE), vk::IMAGE_USAGE_STORAGE);
    let c = flag_if(usage.has(TEXTURE_RENDER_TARGET), vk::IMAGE_USAGE_COLOR_ATTACHMENT);
    let d = flag_if(usage.has(TEXTURE_DEPTH_STENCIL), vk::IMAGE_USAGE_DEPTH_STENCIL_ATTACHMENT);
    let e = flag_if(usage.has(TEXTURE_TRANSFER_SRC), vk::IMAGE_USAGE_TRANSFER_SRC);
    let f = flag_if(usage.has(TEXTURE_TRANSFER_DST), vk::IMAGE_USAGE_TRANSFER_DST);
    assert(w & 0x4 == a && w & 0x8 == b && w & 0x10 == c && w & 0x20 == d && w & 0x1 == e && w & 0x2
        == f && w < 0x40) by (bit_vector)
        requires
            w == a | b | c | d | e | f,
            a == 0 || a == 0x4,
            b == 0 || b == 0x8,
            c == 0 || c == 0x10,
            d == 0 || d == 0x20,
            e == 0 || e == 0x1,
            f == 0 || f == 0x2,
    ;
    lemma_single_bits(u);
}

/// Having one flag set is having its bit set.
proof fn lemma_single_bits(u: u32)
    ensures
        u & 0x1 != 0 <==> u & 0x1 == 0x1,
        u & 0x2 != 0 <==> u & 0x2 == 0x2,
        u & 0x4 != 0 <==> u & 0x4 == 0x4,
        u & 0x8 != 0 <==> u & 0x8 == 0x8,
        u & 0x10 != 0 <==> u & 0x10 == 0x10,
        u & 0x20 != 0 <==> u & 0x20 == 0x20,
        u & 0x40 != 0 <==> u & 0x40 == 0x40,
        u & 0x80 != 0 <==> u & 0x80 == 0x80,
{
    assert((u & 0x1 != 0 <==> u & 0x1 == 0x1) && (u & 0x2 != 0 <==> u & 0x2 == 0x2) && (u & 0x4 != 0
        <==> u & 0x4 == 0x4) && (u & 0x8 != 0 <==> u & 0x8 == 0x8) && (u & 0x10 != 0 <==> u & 0x10
        == 0x10) && (u & 0x20 != 0 <==> u & 0x20 == 0x20) && (u & 0x40 != 0 <==> u & 0x40 == 0x40)
        && (u & 0x80 != 0 <==> u & 0x80 == 0x80)) by (bit_vector);
}

/// A buffer that names a use has exactly the Vulkan usage that its uses imply, flag for flag;
/// one that names none may be copied from and to, and nothing else.
pub proof fn buffer_usage_follows_bits(usage: BufferUsage)
    ensures
        ({
            let flags = vk_buffer_usage(usage);
            let u = usage.bits;
            if u % 0x100 == 0 {
                flags == vk::BUFFER_USAGE_TRANSFER_SRC + vk::BUFFER_USAGE_TRANSFER_DST
            } else {
                &&& has_bit(flags, vk::BUFFER_USAGE_STORAGE_BUFFER) <==> has_bit(u, BUFFER_STORAGE)
                &&& has_bit(flags, vk::BUFFER_USAGE_UNIFORM_BUFFER) <==> has_bit(u, BUFFER_UNIFORM)
                &&& has_bit(flags, vk::BUFFER_USAGE_VERTEX_BUFFER) <==> has_bit(u, BUFFER_VERTEX)
                &&& has_bit(flags, vk::BUFFER_USAGE_INDEX_BUFFER) <==> has_bit(u, BUFFER_INDEX)
                &&& has_bit(flags, vk::BUFFER_USAGE_INDIRECT_BUFFER) <==> has_bit(
                    u,
                    BUFFER_INDIRECT,
                )
                &&& has_bit(flags, vk::BUFFER_USAGE_TRANSFER_SRC) <==> has_bit(
                    u,
                    BUFFER_TRANSFER_SRC,
                )
                &&& has_bit(flags, vk::BUFFER_USAGE_TRANSFER_DST) <==> has_bit(
                    u,
                    BUFFER_TRANSFER_DST,
                ) || has_bit(u, BUFFER_READBACK)
                &&& flags < 0x200
            }
        }),
{
    let u = usage.bits;
    let a = flag_if(usage.has(BUFFER_STORAGE), vk::BUFFER_USAGE_STORAGE_BUFFER);
    let b = flag_if(usage.has(BUFFER_UNIFORM), vk::BUFFER_USAGE_UNIFORM_BUFFER);
    let c = flag_if(usage.has(BUFFER_VERTEX), vk::BUFFER_USAGE_VERTEX_BUFFER);
    let d = flag_if(usage.has(BUFFER_INDEX), vk::BUFFER_USAGE_INDEX_BUFFER);
    let e = flag_if(usage.has(BUFFER_INDIRECT), vk::BUFFER_USAGE_INDIRECT_BUFFER);
    let f = flag_if(usage.has(BUFFER_TRANSFER_SRC), vk::BUFFER_USAGE_TRANSFER_SRC);
    let g = flag_if(
        usage.has(BUFFER_TRANSFER_DST) || usage.has(BUFFER_READBACK),
        vk::BUFFER_USAGE_TRANSFER_DST,
    );
    let w = a | b | c | d | e | f | g;
    assert(w & 0x20 == a && w & 0x10 == b && w & 0x80 == c && w & 0x40 == d && w & 0x100 == e && w
        & 0x1 == f && w & 0x2 == g && w < 0x200 && (w == 0 <==> a == 0 && b == 0 && c == 0 && d == 0
        && e == 0 && f == 0 && g == 0)) by (bit_vector)
        requires
            w == a | b | c | d | e | f | g,
            a == 0 || a == 0x20,
            b == 0 || b == 0x10,
            c == 0 || c == 0x80,
            d == 0 || d == 0x40,
            e == 0 || e == 0x100,
            f == 0 || f == 0x1,
            g == 0 || g == 0x2,
    ;
    assert(0x1u32 | 0x2u32 == 3) by (bit_vector);
    lemma_single_bits(u);
    assert(u % 0x100 == 0 <==> u & 0x1 == 0 && u & 0x2 == 0 && u & 0x4 == 0 && u & 0x8 == 0 && u
        & 0x10 == 0 && u & 0x20 == 0 && u & 0x40 == 0 && u & 0x80 == 0) by (bit_vector);
}

/// Memory that the host reads or writes is asked for as visible and coherent, with or without
/// a fallback; memory that is never mapped is asked for on the device, without one. Only
/// readback asks for cached memory, and only the usages that the device reads or writes at
/// full speed ask for memory on the device.
pub proof fn memory_usage_is_exact(usage: MemoryUsage)
    ensures
        ({
            let props = vk_memory_usage(usage);
            let mapped = !(usage is GpuOnly) && !(usage is Pooled);
            &&& has_bit(props, vk::MEMORY_PROPERTY_HOST_VISIBLE) <==> mapped
            &&& has_bit(props, vk::MEMORY_PROPERTY_HOST_COHERENT) <==> mapped
            &&& has_bit(props, vk::MEMORY_PROPERTY_HOST_CACHED) <==> usage is Readback
            &&& has_bit(props, vk::MEMORY_PROPERTY_DEVICE_LOCAL) <==> usage is GpuOnly
                || usage is Pooled || usage is CpuToGpu
            &&& props < 0x10
            &&& vk_memory_fallback(usage) is Some <==> usage is CpuToGpu || usage is Readback
            &&& vk_memory_fallback(usage) matches Some(least) ==> least
                == vk::MEMORY_PROPERTY_HOST_VISIBLE + vk::MEMORY_PROPERTY_HOST_COHERENT
        }),
{
    assert(0x2u32 | 0x4u32 == 6 && 0x1u32 | 0x2u32 | 0x4u32 == 7 && 0x2u32 | 0x4u32 | 0x8u32 == 14
        && 1u32 & 1 == 1 && 1u32 & 2 == 0 && 1u32 & 4 == 0 && 1u32 & 8 == 0 && 6u32 & 1 == 0 && 6u32
        & 2 == 2 && 6u32 & 4 == 4 && 6u32 & 8 == 0 && 7u32 & 1 == 1 && 7u32 & 2 == 2 && 7u32 & 4
        == 4 && 7u32 & 8 == 0 && 14u32 & 1 == 0 && 14u32 & 2 == 2 && 14u32 & 4 == 4 && 14u32 & 8
        == 8) by (bit_vector);
}

/// A sample count that Vulkan has a flag for up to sixteen keeps its value; any other count
/// means one sample.
pub proof fn sample_count_is_kept(samples: u32)
    ensures
        samples == 2 || samples == 4 || samples == 8 || samples == 16 ==> vk_sample_count(samples)
            == samples,
        !(samples == 2 || samples == 4 || samples == 8 || samples == 16) ==> vk_sample_count(
            samples,
        ) == 1,
{
}

/// What blending leaves of a color: the source weighted by its factor plus the destination
/// weighted by its factor. An opaque preset does not blend at all; alpha blending weighs by the
/// alpha of the source and keeps coverage in the alpha channel; dual-source blending weighs by
/// the second output of the shader, each channel by itself. All channels are written.
pub proof fn blend_presets_are_exact(b: BlendMode)
    ensures
        ({
            let v = vk_blend_mode(b);
            &&& v.blend_enable <==> !(b is Opaque)
            &&& v.color_blend_op == vk::BLEND_OP_ADD
            &&& v.alpha_blend_op == vk::BLEND_OP_ADD
            &&& v.color_write_mask == 0xf
            &&& b is AlphaBlend ==> {
                &&& v.src_color_blend_factor == vk::BLEND_FACTOR_SRC_ALPHA
                &&& v.dst_color_blend_factor == vk::BLEND_FACTOR_ONE_MINUS_SRC_ALPHA
                &&& v.src_alpha_blend_factor == vk::BLEND_FACTOR_ONE
                &&& v.dst_alpha_blend_factor == vk::BLEND_FACTOR_ONE_MINUS_SRC_ALPHA
            }
            &&& b is DualSourceAlpha ==> {
                &&& v.src_color_blend_factor == vk::BLEND_FACTOR_SRC1_COLOR
                &&& v.dst_color_blend_factor == vk::BLEND_FACTOR_ONE_MINUS_SRC1_COLOR
                &&& v.src_alpha_blend_factor == vk::BLEND_FACTOR_SRC1_ALPHA
                &&& v.dst_alpha_blend_factor == vk::BLEND_FACTOR_ONE_MINUS_SRC1_ALPHA
            }
            &&& b is Opaque ==> {
                &&& v.src_color_blend_factor == vk::BLEND_FACTOR_ZERO
                &&& v.dst_color_blend_factor == vk::BLEND_FACTOR_ZERO
                &&& v.src_alpha_blend_factor == vk::BLEND_FACTOR_ZERO
                &&& v.dst_alpha_blend_factor == vk::BLEND_FACTOR_ZERO
            }
        }),
{
}

} // verus!
