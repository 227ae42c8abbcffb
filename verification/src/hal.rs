//! Descriptors, flags and limits of the hardware abstraction layer.
use vstd::prelude::*;

verus! {

/// Texel format.
#[derive(Clone, Copy, PartialEq, Eq, Structural, Debug)]
pub enum Format {
    Rgba8Unorm,
    Rgba8UnormSrgb,
    Bgra8Unorm,
    Bgra8UnormSrgb,
    R32Float,
    Depth32Float,
    Depth24PlusStencil8,
}

#[derive(Clone, Copy, PartialEq, Eq, Structural, Debug)]
pub enum FilterMode {
    Nearest,
    Linear,
}

#[derive(Clone, Copy, PartialEq, Eq, Structural, Debug)]
pub enum AddressMode {
    ClampToEdge,
    Repeat,
    MirrorRepeat,
}

#[derive(Clone, Copy, PartialEq, Eq, Structural, Debug)]
pub enum BorderColor {
    TransparentBlack,
    OpaqueBlack,
    OpaqueWhite,
}

#[derive(Clone, Copy, PartialEq, Eq, Structural, Debug)]
pub enum CompareFn {
    Never,
    Less,
    Equal,
    LessEqual,
    Greater,
    GreaterEqual,
    NotEqual,
    Always,
}

#[derive(Clone, Copy, PartialEq, Eq, Structural, Debug)]
pub enum CullMode {
    /// Draws both faces.
    Neither,
    Front,
    Back,
}

#[derive(Clone, Copy, PartialEq, Eq, Structural, Debug)]
pub enum FrontFace {
    Ccw,
    Cw,
}

#[derive(Clone, Copy, PartialEq, Eq, Structural, Debug)]
pub enum PolygonMode {
    Fill,
    Line,
    Point,
}

#[derive(Clone, Copy, PartialEq, Eq, Structural, Debug)]
pub enum PrimitiveTopology {
    TriangleList,
    TriangleStrip,
    LineList,
    PointList,
}

#[derive(Clone, Copy, PartialEq, Eq, Structural, Debug)]
pub enum StepMode {
    Vertex,
    Instance,
}

#[derive(Clone, Copy, PartialEq, Eq, Structural, Debug)]
pub enum VertexFormat {
    Float32,
    Float32x2,
    Float32x3,
    Float32x4,
    Uint32,
    Uint8x4Unorm,
}

#[derive(Clone, Copy, PartialEq, Eq, Structural, Debug)]
pub enum BlendFactor {
    Zero,
    One,
    SrcColor,
    OneMinusSrcColor,
    DstColor,
    OneMinusDstColor,
    SrcAlpha,
    OneMinusSrcAlpha,
    DstAlpha,
    OneMinusDstAlpha,
    Src1Color,
    OneMinusSrc1Color,
    Src1Alpha,
    OneMinusSrc1Alpha,
}

#[derive(Clone, Copy, PartialEq, Eq, Structural, Debug)]
pub enum BlendOp {
    Add,
    Subtract,
    ReverseSubtract,
    Min,
    Max,
}

/// Blend equation of one channel group.
#[derive(Clone, Copy, PartialEq, Eq, Structural, Debug)]
pub struct BlendComponent {
    pub src_factor: BlendFactor,
    pub dst_factor: BlendFactor,
    pub op: BlendOp,
}

/// Blend preset of a graphics pipeline.
#[derive(Clone, Copy, PartialEq, Eq, Structural, Debug)]
pub enum BlendMode {
    Opaque,
    AlphaBlend,
    DualSourceAlpha,
}

/// Where a resource's memory lives and who reads and writes it.
#[derive(Clone, Copy, PartialEq, Eq, Structural, Debug)]
pub enum MemoryUsage {
    GpuOnly,
    Pooled,
    Upload,
    Transient,
    Persistent,
    CpuToGpu,
    Readback,
}

#[derive(Clone, Copy, PartialEq, Eq, Structural, Debug)]
pub enum TexDim {
    D2,
    D3,
    Cube,
}

#[derive(Clone, Copy, PartialEq, Eq, Structural, Debug)]
pub enum PresentMode {
    Fifo,
    Mailbox,
    Immediate,
}

/// Wanted size and presentation mode of a surface.
#[derive(Clone, Copy, PartialEq, Eq, Structural, Debug)]
pub struct SurfaceConfig {
    pub width: u32,
    pub height: u32,
    pub present_mode: PresentMode,
}

pub const BUFFER_STORAGE: u32 = 0x1;

pub const BUFFER_UNIFORM: u32 = 0x2;

pub const BUFFER_VERTEX: u32 = 0x4;

pub const BUFFER_INDEX: u32 = 0x8;

pub const BUFFER_INDIRECT: u32 = 0x10;

pub const BUFFER_TRANSFER_SRC: u32 = 0x20;

pub const BUFFER_TRANSFER_DST: u32 = 0x40;

pub const BUFFER_READBACK: u32 = 0x80;

pub const TEXTURE_SAMPLED: u32 = 0x1;

pub const TEXTURE_STORAGE: u32 = 0x2;

pub const TEXTURE_RENDER_TARGET: u32 = 0x4;

pub const TEXTURE_DEPTH_STENCIL: u32 = 0x8;

pub const TEXTURE_TRANSFER_SRC: u32 = 0x10;

pub const TEXTURE_TRANSFER_DST: u32 = 0x20;

pub const FEATURE_COMPUTE: u32 = 0x1;

pub const FEATURE_GRAPHICS: u32 = 0x2;

pub const FEATURE_DESCRIPTOR_INDEXING: u32 = 0x4;

pub const FEATURE_TIMESTAMPS: u32 = 0x8;

/// All bits of `flags` are set in `bits`.
pub open spec fn has_flags(bits: u32, flags: u32) -> bool {
    bits & flags == flags
}

/// Whether all bits of `flags` are set in `bits`.
pub fn contains_flags(bits: u32, flags: u32) -> (r: bool)
    ensures
        r == has_flags(bits, flags),
{
    bits & flags == flags
}

/// Allowed uses of a buffer, a union of the `BUFFER_` bits.
#[derive(Clone, Copy, PartialEq, Eq, Structural, Debug)]
pub struct BufferUsage {
    pub bits: u32,
}

impl BufferUsage {
    pub open spec fn has(self, flags: u32) -> bool {
        has_flags(self.bits, flags)
    }

    /// Whether all of `flags` are set.
    pub fn contains(self, flags: u32) -> (r: bool)
        ensures
            r == self.has(flags),
    {
        contains_flags(self.bits, flags)
    }
}

/// Allowed uses of a texture, a union of the `TEXTURE_` bits.
#[derive(Clone, Copy, PartialEq, Eq, Structural, Debug)]
pub struct TextureUsage {
    pub bits: u32,
}

impl TextureUsage {
    pub open spec fn has(self, flags: u32) -> bool {
        has_flags(self.bits, flags)
    }

    /// Whether all of `flags` are set.
    pub fn contains(self, flags: u32) -> (r: bool)
        ensures
            r == self.has(flags),
    {
        contains_flags(self.bits, flags)
    }
}

/// Device features, a union of the `FEATURE_` bits.
#[derive(Clone, Copy, PartialEq, Eq, Structural, Debug)]
pub struct Features {
    pub bits: u32,
}

impl Features {
    pub open spec fn has(self, flags: u32) -> bool {
        has_flags(self.bits, flags)
    }

    /// Whether all of `flags` are set.
    pub fn contains(self, flags: u32) -> (r: bool)
        ensures
            r == self.has(flags),
    {
        contains_flags(self.bits, flags)
    }

    /// The features of `self` that are not in `other`.
    pub fn difference(self, other: Features) -> (r: Features)
        ensures
            r.bits == self.bits & !other.bits,
    {
        Features { bits: self.bits & !other.bits }
    }

    pub fn is_empty(self) -> (r: bool)
        ensures
            r == (self.bits == 0),
    {
        self.bits == 0
    }
}

/// Limits of a device. The timestamp period is a number of nanoseconds as the bits of an
/// IEEE 754 single.
#[derive(Clone, Copy, PartialEq, Eq, Debug)]
pub struct DeviceLimits {
    pub max_workgroup_size: [u32; 3],
    pub max_workgroup_invocations: u32,
    pub max_dispatch_size: [u32; 3],
    pub max_storage_buffer_range: u64,
    pub max_push_constant_size: u32,
    pub max_storage_buffers: u32,
    pub max_sampled_textures: u32,
    pub max_update_after_bind_descriptors: u32,
    pub max_memory_allocations: u32,
    pub timestamp_supported: bool,
    pub timestamp_period_ns_bits: u32,
}

impl Default for DeviceLimits {
    fn default() -> (limits: Self)
        ensures
            limits == no_limits(),
    {
        DeviceLimits {
            max_workgroup_size: [0, 0, 0],
            max_workgroup_invocations: 0,
            max_dispatch_size: [0, 0, 0],
            max_storage_buffer_range: 0,
            max_push_constant_size: 0,
            max_storage_buffers: 0,
            max_sampled_textures: 0,
            max_update_after_bind_descriptors: 0,
            max_memory_allocations: 0,
            timestamp_supported: false,
            timestamp_period_ns_bits: 0,
        }
    }
}

/// Limits of a device that offers nothing.
pub open spec fn no_limits() -> DeviceLimits {
    DeviceLimits {
        max_workgroup_size: [0, 0, 0],
        max_workgroup_invocations: 0,
        max_dispatch_size: [0, 0, 0],
        max_storage_buffer_range: 0,
        max_push_constant_size: 0,
        max_storage_buffers: 0,
        max_sampled_textures: 0,
        max_update_after_bind_descriptors: 0,
        max_memory_allocations: 0,
        timestamp_supported: false,
        timestamp_period_ns_bits: 0,
    }
}

/// Features asked of a device.
#[derive(Clone, Copy, PartialEq, Eq, Structural, Debug)]
pub struct DeviceRequest {
    pub required: Features,
    pub optional: Features,
}

#[derive(Clone, Copy, PartialEq, Eq, Structural, Debug)]
pub struct HalCapabilities {
    pub graphics: bool,
    pub compute: bool,
    pub features: Features,
}

#[derive(Clone, Copy, PartialEq, Eq, Structural, Debug)]
pub struct BufferDesc {
    pub size: u64,
    pub usage: BufferUsage,
    pub memory: MemoryUsage,
}

#[derive(Clone, Copy, PartialEq, Eq, Structural, Debug)]
pub struct TextureDesc {
    pub width: u32,
    pub height: u32,
    pub depth: u32,
    pub format: Format,
    pub usage: TextureUsage,
    pub samples: u32,
    pub dimension: TexDim,
    pub mip_levels: u32,
    pub array_layers: u32,
}

// ── Laws ───────────────────────────────────────────────────────────────────────

/// Flags are held where adding them changes nothing: no flag is always held, flags hold
/// themselves, and a union is held where each of its parts is.
pub proof fn flags_are_held_together(bits: u32, a: u32, b: u32)
    ensures
        has_flags(bits, a) <==> bits | a == bits,
        has_flags(bits, 0),
        has_flags(a, a),
        has_flags(bits, a | b) <==> has_flags(bits, a) && has_flags(bits, b),
{
    assert(bits & a == a <==> bits | a == bits) by (bit_vector);
    assert(bits & 0 == 0 && a & a == a) by (bit_vector);
    assert(bits & (a | b) == a | b <==> bits & a == a && bits & b == b) by (bit_vector);
}

/// A device that offers nothing has no limit above zero and no timestamps.
pub proof fn no_limits_are_zero()
    ensures
        ({
            let l = no_limits();
            &&& l.max_workgroup_size@ == seq![0u32, 0u32, 0u32]
            &&& l.max_workgroup_invocations == 0
            &&& l.max_dispatch_size@ == seq![0u32, 0u32, 0u32]
            &&& l.max_storage_buffer_range == 0
            &&& l.max_push_constant_size == 0
            &&& l.max_storage_buffers == 0
            &&& l.max_sampled_textures == 0
            &&& l.max_update_after_bind_descriptors == 0
            &&& l.max_memory_allocations == 0
            &&& !l.timestamp_supported
            &&& l.timestamp_period_ns_bits == 0
        }),
{
    assert(no_limits().max_workgroup_size@ =~= seq![0u32, 0u32, 0u32]);
    assert(no_limits().max_dispatch_size@ =~= seq![0u32, 0u32, 0u32]);
}

} // verus!
