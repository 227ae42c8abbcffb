//! Surface that draws one textured quad, with an array of textures that a shader indexes.
//!
//! Slot 0 of the array is the texture that is drawn. A white placeholder of one texel fills all
//! slots first, so that none is ever invalid. The command buffers, one per swapchain image, are
//! recorded once.
//!
//! A frame goes through stages, with one Vulkan call between any two: `acquire_frame` names the
//! fence to wait for, then come `acquire_waited`, `acquire_reset` and `frame_acquired`;
//! `present_frame` says how to submit, `frame_submitted` how to present, and `frame_presented`
//! ends the frame.
use vstd::prelude::*;

use crate::calls;
use crate::calls::{call_result, VkCall};
use crate::canvas;
use crate::command;
use crate::command::{ClearValue, Cleanup, Command, CommandOf, CommandView};
use crate::command_list;
use crate::device::bindless::TableBinding;
use crate::device::buffers;
use crate::device::buffers::{find_memory_type, unwind_one, unwind_two, Unwind, UnwindView};
use crate::device::formats::BlendAttachment;
use crate::device::pipelines::PushRange;
use crate::device::textures::{
    ImageCreateInfo, SamplerCreateInfo, TextureDescriptor, ViewCreateInfo,
};
use crate::device::{SamplerHandle, TextureHandle, VulkanDevice};
use crate::error;
use crate::error::{backend_error, GpuError, GpuErrorView};
use crate::hal::PresentMode;
use crate::quads;
use crate::quads::{
    map_quad_surface_err, push_framebuffers, QuadPipelinePlan, MAX_FRAMES_IN_FLIGHT, ONE_BITS,
};
use crate::search;
use crate::swapchain;
use crate::swapchain::{
    pick_extent, pick_image_count, pick_present_mode, view_steps, AcquireInfo, FramePresent,
    FrameSubmit, SurfaceCapabilities, SurfaceFormat, SwapchainCreateInfo,
};
use crate::vk;

verus! {

/// Slots of the texture array. The shader declares as many.
pub const BINDLESS_CAPACITY: u32 = 64;

/// Bits of the single 0.02, a component of the clear color.
pub const DARK_BITS: u32 = 0x3ca3_d70a;

// ── Swapchain ──────────────────────────────────────────────────────────────────

/// The surface format is BGRA with sRGB conversion.
pub open spec fn is_srgb(f: SurfaceFormat) -> bool {
    f.format == vk::FORMAT_B8G8R8A8_SRGB && f.color_space == vk::COLOR_SPACE_SRGB_NONLINEAR_KHR
}

/// Surface format to use: the first with sRGB conversion, or else the first.
pub open spec fn textured_format(formats: Seq<SurfaceFormat>) -> Option<SurfaceFormat> {
    if formats.len() == 0 {
        None
    } else {
        match search::first_below(|i: int| is_srgb(formats[i]), formats.len() as int) {
            Some(i) => Some(formats[i]),
            None => Some(formats[0]),
        }
    }
}

/// Picks the surface format.
pub fn pick_textured_format(formats: &Vec<SurfaceFormat>) -> (r: Result<SurfaceFormat, GpuError>)
    ensures
        match r {
            Ok(f) => textured_format(formats@) == Some(f),
            Err(e) => textured_format(formats@) is None && e@ == GpuErrorView::Backend(
                "no surface formats"@,
            ),
        },
{
    let n: usize = formats.len();
    if n == 0 {
        return Err(GpuError::Backend("no surface formats".to_owned()));
    }
    let ghost p = |i: int| is_srgb(formats@[i]);
    let mut i: usize = 0;
    while i < n
        invariant
            n == formats.len(),
            i <= n,
            p == (|i: int| is_srgb(formats@[i])),
            forall|j: int| 0 <= j < i ==> !#[trigger] p(j),
        decreases n - i,
    {
        if formats[i].format == vk::FORMAT_B8G8R8A8_SRGB && formats[i].color_space
            == vk::COLOR_SPACE_SRGB_NONLINEAR_KHR {
            proof {
                search::lemma_is_first(p, n as int, i as int);
            }
            return Ok(formats[i]);
        }
        assert(!p(i as int));
        i += 1;
    }
    proof {
        search::lemma_none_below(p, n as int);
    }
    Ok(formats[0])
}

/// Decides on the swapchain.
pub fn create_textured_swapchain(
    caps: &SurfaceCapabilities,
    formats: &Vec<SurfaceFormat>,
    modes: &Vec<i32>,
    surface: u64,
    requested: PresentMode,
    width: u32,
    height: u32,
) -> (r: Result<SwapchainCreateInfo, GpuError>)
    requires
        caps.valid(),
    ensures
        match r {
            Ok(info) => textured_format(formats@) is Some && info == (SwapchainCreateInfo {
                surface,
                min_image_count: swapchain::swapchain_images(*caps),
                image_format: textured_format(formats@)->0.format,
                image_color_space: textured_format(formats@)->0.color_space,
                image_extent: swapchain::swapchain_extent(*caps, width, height),
                pre_transform: caps.current_transform,
                present_mode: swapchain::chosen_present_mode(modes@, requested),
                old_swapchain: 0,
            }),
            Err(e) => textured_format(formats@) is None && e@ == GpuErrorView::Backend(
                "no surface formats"@,
            ),
        },
{
    match pick_textured_format(formats) {
        Err(e) => Err(e),
        Ok(f) => Ok(
            SwapchainCreateInfo {
                surface,
                min_image_count: pick_image_count(caps),
                image_format: f.format,
                image_color_space: f.color_space,
                image_extent: pick_extent(caps, width, height),
                pre_transform: caps.current_transform,
                present_mode: pick_present_mode(modes, requested),
                old_swapchain: 0,
            },
        ),
    }
}

// ── Placeholder ────────────────────────────────────────────────────────────────

/// White texture of one texel.
#[derive(Clone, Copy, PartialEq, Eq, Structural, Debug)]
pub struct Placeholder {
    pub image: u64,
    pub view: u64,
    pub memory: u64,
    pub sampler: u64,
}

/// What the image of the placeholder is created with.
pub fn create_placeholder() -> (info: ImageCreateInfo)
    ensures
        info == (ImageCreateInfo {
            flags: 0,
            image_type: vk::IMAGE_TYPE_2D,
            format: vk::FORMAT_R8G8B8A8_UNORM,
            extent: vk::Extent3D { width: 1, height: 1, depth: 1 },
            mip_levels: 1,
            array_layers: 1,
            usage: vk::IMAGE_USAGE_TRANSFER_DST | vk::IMAGE_USAGE_SAMPLED,
        }),
{
    ImageCreateInfo {
        flags: 0,
        image_type: vk::IMAGE_TYPE_2D,
        format: vk::FORMAT_R8G8B8A8_UNORM,
        extent: vk::Extent3D { width: 1, height: 1, depth: 1 },
        mip_levels: 1,
        array_layers: 1,
        usage: vk::IMAGE_USAGE_TRANSFER_DST | vk::IMAGE_USAGE_SAMPLED,
    }
}

/// Memory type for the placeholder.
pub fn placeholder_memory_type(memory_types: &Vec<u32>, image: u64, type_bits: u32) -> (r: Result<
    u32,
    Unwind,
>)
    requires
        memory_types.len() <= 32,
    ensures
        ({
            let found = buffers::memory_type(
                memory_types@,
                type_bits,
                vk::MEMORY_PROPERTY_DEVICE_LOCAL,
            );
            match r {
                Ok(i) => found == Some(i as int),
                Err(u) => found is None && u@ == (UnwindView {
                    cleanup: seq![Cleanup::DestroyImage(image)],
                    error: GpuErrorView::Backend("no device-local memory for placeholder"@),
                }),
            }
        }),
{
    match find_memory_type(memory_types, type_bits, vk::MEMORY_PROPERTY_DEVICE_LOCAL) {
        Some(i) => Ok(i),
        None => Err(
            unwind_one(
                Cleanup::DestroyImage(image),
                GpuError::Backend("no device-local memory for placeholder".to_owned()),
            ),
        ),
    }
}

/// Outcome of allocating the memory of the placeholder.
pub fn placeholder_allocated(image: u64, result: Result<u64, i32>) -> (r: Result<u64, Unwind>)
    ensures
        match (result, r) {
            (Ok(m), Ok(memory)) => memory == m,
            (Err(_), Err(u)) => u@ == (UnwindView {
                cleanup: seq![Cleanup::DestroyImage(image)],
                error: GpuErrorView::Backend("placeholder OOM"@),
            }),
            _ => false,
        },
{
    match result {
        Ok(memory) => Ok(memory),
        Err(_) => Err(
            unwind_one(
                Cleanup::DestroyImage(image),
                GpuError::Backend("placeholder OOM".to_owned()),
            ),
        ),
    }
}

/// Outcome of binding the memory of the placeholder: what its view is created with.
pub fn placeholder_bound(image: u64, memory: u64, result: Result<(), i32>) -> (r: Result<
    ViewCreateInfo,
    Unwind,
>)
    ensures
        match (result, r) {
            (Ok(_), Ok(info)) => info == swapchain::swapchain_view(
                image,
                vk::FORMAT_R8G8B8A8_UNORM,
            ),
            (Err(code), Err(u)) => u@ == (UnwindView {
                cleanup: seq![Cleanup::DestroyImage(image), Cleanup::FreeMemory(memory)],
                error: error::backend_failure("placeholder bind"@, code),
            }),
            _ => false,
        },
{
    match result {
        Ok(_) => Ok(
            ViewCreateInfo {
                image,
                view_type: vk::IMAGE_VIEW_TYPE_2D,
                format: vk::FORMAT_R8G8B8A8_UNORM,
                subresource_range: vk::SubresourceRange {
                    aspect_mask: vk::IMAGE_ASPECT_COLOR,
                    base_mip_level: 0,
                    level_count: 1,
                    base_array_layer: 0,
                    layer_count: 1,
                },
            },
        ),
        Err(code) => Err(
            unwind_two(
                Cleanup::DestroyImage(image),
                Cleanup::FreeMemory(memory),
                backend_error("placeholder bind", code),
            ),
        ),
    }
}

/// Outcome of creating the view of the placeholder: what its sampler is created with.
pub fn placeholder_viewed(image: u64, memory: u64, result: Result<u64, i32>) -> (r: Result<
    SamplerCreateInfo,
    Unwind,
>)
    ensures
        match (result, r) {
            (Ok(_), Ok(info)) => info == (SamplerCreateInfo {
                mag_filter: vk::FILTER_NEAREST,
                min_filter: vk::FILTER_NEAREST,
                mipmap_mode: vk::SAMPLER_MIPMAP_MODE_NEAREST,
                address_mode: vk::SAMPLER_ADDRESS_MODE_CLAMP_TO_EDGE,
                anisotropy_enable: false,
                compare_enable: false,
                compare_op: vk::COMPARE_OP_NEVER,
                border_color: vk::BORDER_COLOR_FLOAT_TRANSPARENT_BLACK,
            }),
            (Err(code), Err(u)) => u@ == (UnwindView {
                cleanup: seq![Cleanup::DestroyImage(image), Cleanup::FreeMemory(memory)],
                error: error::backend_failure("placeholder view"@, code),
            }),
            _ => false,
        },
{
    match result {
        Ok(_) => Ok(
            SamplerCreateInfo {
                mag_filter: vk::FILTER_NEAREST,
                min_filter: vk::FILTER_NEAREST,
                mipmap_mode: vk::SAMPLER_MIPMAP_MODE_NEAREST,
                address_mode: vk::SAMPLER_ADDRESS_MODE_CLAMP_TO_EDGE,
                anisotropy_enable: false,
                compare_enable: false,
                compare_op: vk::COMPARE_OP_NEVER,
                border_color: vk::BORDER_COLOR_FLOAT_TRANSPARENT_BLACK,
            },
        ),
        Err(code) => Err(
            unwind_two(
                Cleanup::DestroyImage(image),
                Cleanup::FreeMemory(memory),
                backend_error("placeholder view", code),
            ),
        ),
    }
}

/// Outcome of creating the sampler of the placeholder: the placeholder.
pub fn placeholder_sampled(image: u64, memory: u64, view: u64, result: Result<u64, i32>) -> (r:
    Result<Placeholder, Unwind>)
    ensures
        match (result, r) {
            (Ok(sampler), Ok(p)) => p == (Placeholder { image, view, memory, sampler }),
            (Err(code), Err(u)) => u@ == (UnwindView {
                cleanup: seq![
                    Cleanup::DestroyImageView(view),
                    Cleanup::DestroyImage(image),
                    Cleanup::FreeMemory(memory),
                ],
                error: error::backend_failure("placeholder sampler"@, code),
            }),
            _ => false,
        },
{
    match result {
        Ok(sampler) => Ok(Placeholder { image, view, memory, sampler }),
        Err(code) => {
            let mut cleanup: Vec<Cleanup> = Vec::new();
            cleanup.push(Cleanup::DestroyImageView(view));
            cleanup.push(Cleanup::DestroyImage(image));
            cleanup.push(Cleanup::FreeMemory(memory));
            let u = Unwind { cleanup, error: backend_error("placeholder sampler", code) };
            assert(u@.cleanup =~= seq![
                Cleanup::DestroyImageView(view),
                Cleanup::DestroyImage(image),
                Cleanup::FreeMemory(memory),
            ]);
            Err(u)
        },
    }
}

/// Commands that make the placeholder white and readable by fragment shaders.
pub open spec fn placeholder_commands(image: u64) -> Seq<CommandView> {
    seq![
        CommandView::ImageBarrier {
            src_stages: vk::PIPELINE_STAGE_TOP_OF_PIPE,
            dst_stages: vk::PIPELINE_STAGE_TRANSFER,
            barrier: vk::ImageBarrier {
                src_access_mask: 0,
                dst_access_mask: vk::ACCESS_TRANSFER_WRITE,
                old_layout: vk::IMAGE_LAYOUT_UNDEFINED,
                new_layout: vk::IMAGE_LAYOUT_TRANSFER_DST_OPTIMAL,
                image,
                subresource_range: command_list::first_layer(vk::IMAGE_ASPECT_COLOR),
            },
        },
        CommandView::ClearColorImage {
            image,
            image_layout: vk::IMAGE_LAYOUT_TRANSFER_DST_OPTIMAL,
            color: ClearValue { r: ONE_BITS, g: ONE_BITS, b: ONE_BITS, a: ONE_BITS },
            range: command_list::first_layer(vk::IMAGE_ASPECT_COLOR),
        },
        CommandView::ImageBarrier {
            src_stages: vk::PIPELINE_STAGE_TRANSFER,
            dst_stages: vk::PIPELINE_STAGE_FRAGMENT_SHADER,
            barrier: vk::ImageBarrier {
                src_access_mask: vk::ACCESS_TRANSFER_WRITE,
                dst_access_mask: vk::ACCESS_SHADER_READ,
                old_layout: vk::IMAGE_LAYOUT_TRANSFER_DST_OPTIMAL,
                new_layout: vk::IMAGE_LAYOUT_SHADER_READ_ONLY_OPTIMAL,
                image,
                subresource_range: command_list::first_layer(vk::IMAGE_ASPECT_COLOR),
            },
        },
    ]
}

/// Plans the commands that fill the placeholder.
pub fn plan_placeholder(image: u64) -> (commands: Vec<Command>)
    ensures
        command::command_views(commands@) == placeholder_commands(image),
{
    let range = vk::SubresourceRange {
        aspect_mask: vk::IMAGE_ASPECT_COLOR,
        base_mip_level: 0,
        level_count: 1,
        base_array_layer: 0,
        layer_count: 1,
    };
    let mut commands: Vec<Command> = Vec::new();
    commands.push(
        CommandOf::ImageBarrier {
            src_stages: vk::PIPELINE_STAGE_TOP_OF_PIPE,
            dst_stages: vk::PIPELINE_STAGE_TRANSFER,
            barrier: vk::ImageBarrier {
                src_access_mask: 0,
                dst_access_mask: vk::ACCESS_TRANSFER_WRITE,
                old_layout: vk::IMAGE_LAYOUT_UNDEFINED,
                new_layout: vk::IMAGE_LAYOUT_TRANSFER_DST_OPTIMAL,
                image,
                subresource_range: range,
            },
        },
    );
    commands.push(
        CommandOf::ClearColorImage {
            image,
            image_layout: vk::IMAGE_LAYOUT_TRANSFER_DST_OPTIMAL,
            color: ClearValue { r: ONE_BITS, g: ONE_BITS, b: ONE_BITS, a: ONE_BITS },
            range,
        },
    );
    commands.push(
        CommandOf::ImageBarrier {
            src_stages: vk::PIPELINE_STAGE_TRANSFER,
            dst_stages: vk::PIPELINE_STAGE_FRAGMENT_SHADER,
            barrier: vk::ImageBarrier {
                src_access_mask: vk::ACCESS_TRANSFER_WRITE,
                dst_access_mask: vk::ACCESS_SHADER_READ,
                old_layout: vk::IMAGE_LAYOUT_TRANSFER_DST_OPTIMAL,
                new_layout: vk::IMAGE_LAYOUT_SHADER_READ_ONLY_OPTIMAL,
                image,
                subresource_range: range,
            },
        },
    );
    assert(command::command_views(commands@) =~= placeholder_commands(image));
    commands
}

// ── Texture array ──────────────────────────────────────────────────────────────

/// Binding of the texture array. The pool holds as many descriptors.
pub fn create_bindless_descriptors() -> (binding: TableBinding)
    ensures
        binding == (TableBinding {
            binding: 0,
            descriptor_type: vk::DESCRIPTOR_TYPE_COMBINED_IMAGE_SAMPLER,
            descriptor_count: BINDLESS_CAPACITY,
            stage_flags: vk::SHADER_STAGE_FRAGMENT,
            binding_flags: 0,
        }),
{
    TableBinding {
        binding: 0,
        descriptor_type: vk::DESCRIPTOR_TYPE_COMBINED_IMAGE_SAMPLER,
        descriptor_count: BINDLESS_CAPACITY,
        stage_flags: vk::SHADER_STAGE_FRAGMENT,
        binding_flags: 0,
    }
}

/// Outcome of creating the descriptor pool.
pub fn array_pool_created(layout: u64, result: Result<u64, i32>) -> (r: Result<u64, Unwind>)
    ensures
        match (result, r) {
            (Ok(p), Ok(pool)) => pool == p,
            (Err(code), Err(u)) => u@ == (UnwindView {
                cleanup: seq![Cleanup::DestroyDescriptorSetLayout(layout)],
                error: error::backend_failure("create_descriptor_pool"@, code),
            }),
            _ => false,
        },
{
    match result {
        Ok(pool) => Ok(pool),
        Err(code) => Err(
            unwind_one(
                Cleanup::DestroyDescriptorSetLayout(layout),
                backend_error("create_descriptor_pool", code),
            ),
        ),
    }
}

/// Outcome of allocating the descriptor set.
pub fn array_set_allocated(layout: u64, pool: u64, result: Result<u64, i32>) -> (r: Result<
    u64,
    Unwind,
>)
    ensures
        match (result, r) {
            (Ok(s), Ok(set)) => set == s,
            (Err(code), Err(u)) => u@ == (UnwindView {
                cleanup: seq![
                    Cleanup::DestroyDescriptorPool(pool),
                    Cleanup::DestroyDescriptorSetLayout(layout),
                ],
                error: error::backend_failure("allocate_descriptor_sets"@, code),
            }),
            _ => false,
        },
{
    match result {
        Ok(set) => Ok(set),
        Err(code) => Err(
            unwind_two(
                Cleanup::DestroyDescriptorPool(pool),
                Cleanup::DestroyDescriptorSetLayout(layout),
                backend_error("allocate_descriptor_sets", code),
            ),
        ),
    }
}

/// Descriptor of one slot of the array.
pub open spec fn slot_descriptor(set: u64, slot: u32, view: u64, sampler: u64) -> TextureDescriptor {
    TextureDescriptor {
        set,
        binding: 0,
        element: slot,
        sampler,
        image_view: view,
        image_layout: vk::IMAGE_LAYOUT_SHADER_READ_ONLY_OPTIMAL,
    }
}

/// Descriptors that fill every slot of the array with one texture.
pub fn fill_bindless_slots(set: u64, view: u64, sampler: u64) -> (writes: Vec<TextureDescriptor>)
    ensures
        writes@ == Seq::new(
            BINDLESS_CAPACITY as nat,
            |i: int| slot_descriptor(set, i as u32, view, sampler),
        ),
{
    let mut writes: Vec<TextureDescriptor> = Vec::new();
    let mut i: u32 = 0;
    while i < BINDLESS_CAPACITY
        invariant
            i <= BINDLESS_CAPACITY,
            writes@ == Seq::new(i as nat, |i: int| slot_descriptor(set, i as u32, view, sampler)),
        decreases BINDLESS_CAPACITY - i,
    {
        writes.push(update_bindless_slot(set, i, view, sampler));
        i += 1;
        assert(writes@ =~= Seq::new(
            i as nat,
            |i: int| slot_descriptor(set, i as u32, view, sampler),
        ));
    }
    writes
}

/// Descriptor that puts a texture in one slot of the array.
pub fn update_bindless_slot(set: u64, slot: u32, view: u64, sampler: u64) -> (write: TextureDescriptor)
    ensures
        write == slot_descriptor(set, slot, view, sampler),
{
    TextureDescriptor {
        set,
        binding: 0,
        element: slot,
        sampler,
        image_view: view,
        image_layout: vk::IMAGE_LAYOUT_SHADER_READ_ONLY_OPTIMAL,
    }
}

/// Contents of the array after the first `k` of some writes: view and sampler of each slot.
pub open spec fn array_after(writes: Seq<TextureDescriptor>, k: int) -> Map<u32, (u64, u64)>
    decreases k,
{
    if k <= 0 {
        Map::empty()
    } else {
        let w = writes[k - 1];
        array_after(writes, k - 1).insert(w.element, (w.image_view, w.sampler))
    }
}

/// No slot of the array is ever invalid: once the placeholder was filled in and a texture was put
/// in slot 0, slot 0 holds the texture and every other slot the placeholder.
pub proof fn every_slot_is_valid(set: u64, p: Placeholder, view: u64, sampler: u64, slot: u32)
    requires
        slot < BINDLESS_CAPACITY,
    ensures
        ({
            let fill = Seq::new(
                BINDLESS_CAPACITY as nat,
                |i: int| slot_descriptor(set, i as u32, p.view, p.sampler),
            );
            let writes = fill.push(slot_descriptor(set, 0, view, sampler));
            let table = array_after(writes, writes.len() as int);
            table.dom().contains(slot) && table[slot] == (if slot == 0 {
                (view, sampler)
            } else {
                (p.view, p.sampler)
            })
        }),
{
    let fill = Seq::new(
        BINDLESS_CAPACITY as nat,
        |i: int| slot_descriptor(set, i as u32, p.view, p.sampler),
    );
    let writes = fill.push(slot_descriptor(set, 0, view, sampler));
    lemma_filled(writes, set, p, BINDLESS_CAPACITY as int, slot);
}

proof fn lemma_filled(writes: Seq<TextureDescriptor>, set: u64, p: Placeholder, k: int, slot: u32)
    requires
        0 <= k <= BINDLESS_CAPACITY,
        writes.len() == BINDLESS_CAPACITY + 1,
        forall|i: int|
            0 <= i < BINDLESS_CAPACITY ==> #[trigger] writes[i] == slot_descriptor(
                set,
                i as u32,
                p.view,
                p.sampler,
            ),
    ensures
        slot < k ==> array_after(writes, k).dom().contains(slot) && array_after(writes, k)[slot]
            == (p.view, p.sampler),
    decreases k,
{
    if k > 0 {
        lemma_filled(writes, set, p, k - 1, slot);
        assert(writes[k - 1] == slot_descriptor(set, (k - 1) as u32, p.view, p.sampler));
    }
}

impl VulkanDevice {
    /// Descriptor that puts a texture of the device in slot 0 of the array of a textured surface.
    pub fn textured_slot(&self, set: u64, texture: TextureHandle, sampler: SamplerHandle) -> (r:
        Result<TextureDescriptor, GpuError>)
        ensures
            match r {
                Ok(w) => self@.textures.live(texture) && self@.samplers.live(sampler) && w
                    == slot_descriptor(
                    set,
                    0,
                    self@.textures.value(texture).view,
                    self@.samplers.value(sampler),
                ),
                Err(e) => e@ == GpuErrorView::Backend(
                    if !self@.textures.live(texture) {
                        "create_textured_surface: stale TextureHandle"@
                    } else {
                        "create_textured_surface: stale SamplerHandle"@
                    },
                ) && !(self@.textures.live(texture) && self@.samplers.live(sampler)),
            },
    {
        match self.texture(texture) {
            None => Err(
                GpuError::Backend("create_textured_surface: stale TextureHandle".to_owned()),
            ),
            Some(t) => match self.sampler(sampler) {
                None => Err(
                    GpuError::Backend("create_textured_surface: stale SamplerHandle".to_owned()),
                ),
                Some(s) => Ok(update_bindless_slot(set, 0, t.view, s)),
            },
        }
    }
}

// ── Pipeline and commands ──────────────────────────────────────────────────────

/// Vertices of the quad: a strip of two triangles.
pub const QUAD_VERTICES: u32 = 4;

/// Where the vertex shader places vertex `i`: even ones left, odd ones right, the first two at
/// the top and the others at the bottom. The target reaches from -1 to 1 both ways.
pub open spec fn quad_corner(i: int) -> (int, int) {
    (2 * (i % 2) - 1, 2 * (i / 2) - 1)
}

/// On which side of the line from `a` to `b` the point (`x` / `scale`, `y` / `scale`) is, by sign.
pub open spec fn side(a: (int, int), b: (int, int), x: int, y: int, scale: int) -> int {
    (b.0 - a.0) * (y - scale * a.1) - (b.1 - a.1) * (x - scale * a.0)
}

/// Triangle `i` of the strip covers the point (`x` / `scale`, `y` / `scale`), whichever way it
/// faces.
pub open spec fn strip_covers(i: int, x: int, y: int, scale: int) -> bool {
    let (a, b, c) = (quad_corner(i), quad_corner(i + 1), quad_corner(i + 2));
    let (ab, bc, ca) = (
        side(a, b, x, y, scale),
        side(b, c, x, y, scale),
        side(c, a, x, y, scale),
    );
    (ab >= 0 && bc >= 0 && ca >= 0) || (ab <= 0 && bc <= 0 && ca <= 0)
}

/// What the pipeline is created with: a strip of filled triangles, whichever way they face, no
/// vertex input, no blending, and the index of the texture as push constant.
pub fn create_textured_pipeline() -> (plan: QuadPipelinePlan)
    ensures
        plan.bindings.len() == 0,
        plan.attributes.len() == 0,
        plan.topology == vk::PRIMITIVE_TOPOLOGY_TRIANGLE_STRIP,
        plan.polygon_mode == vk::POLYGON_MODE_FILL,
        plan.cull_mode == vk::CULL_MODE_NONE,
        plan.samples == vk::SAMPLE_COUNT_1,
        plan.front_face == vk::FRONT_FACE_CLOCKWISE,
        plan.blend == (BlendAttachment {
            blend_enable: false,
            src_color_blend_factor: vk::BLEND_FACTOR_ZERO,
            dst_color_blend_factor: vk::BLEND_FACTOR_ZERO,
            color_blend_op: vk::BLEND_OP_ADD,
            src_alpha_blend_factor: vk::BLEND_FACTOR_ZERO,
            dst_alpha_blend_factor: vk::BLEND_FACTOR_ZERO,
            alpha_blend_op: vk::BLEND_OP_ADD,
            color_write_mask: vk::COLOR_COMPONENT_RGBA,
        }),
        plan.push_constants == (PushRange { stages: vk::SHADER_STAGE_FRAGMENT, size: 4 }),
        !plan.dynamic_viewport,
{
    QuadPipelinePlan {
        bindings: Vec::new(),
        attributes: Vec::new(),
        topology: vk::PRIMITIVE_TOPOLOGY_TRIANGLE_STRIP,
        polygon_mode: vk::POLYGON_MODE_FILL,
        cull_mode: vk::CULL_MODE_NONE,
        samples: vk::SAMPLE_COUNT_1,
        front_face: vk::FRONT_FACE_CLOCKWISE,
        blend: BlendAttachment {
            blend_enable: false,
            src_color_blend_factor: vk::BLEND_FACTOR_ZERO,
            dst_color_blend_factor: vk::BLEND_FACTOR_ZERO,
            color_blend_op: vk::BLEND_OP_ADD,
            src_alpha_blend_factor: vk::BLEND_FACTOR_ZERO,
            dst_alpha_blend_factor: vk::BLEND_FACTOR_ZERO,
            alpha_blend_op: vk::BLEND_OP_ADD,
            color_write_mask: vk::COLOR_COMPONENT_RGBA,
        },
        push_constants: PushRange { stages: vk::SHADER_STAGE_FRAGMENT, size: 4 },
        dynamic_viewport: false,
    }
}

/// Commands that draw the quad over all of a framebuffer with the texture in slot 0.
pub open spec fn quad_commands(
    render_pass: u64,
    framebuffer: u64,
    pipeline: u64,
    layout: u64,
    set: u64,
    area: vk::Extent2D,
) -> Seq<CommandView> {
    seq![
        CommandView::BeginRenderPass {
            render_pass,
            framebuffer,
            area,
            clear: ClearValue { r: DARK_BITS, g: DARK_BITS, b: DARK_BITS, a: ONE_BITS },
        },
        CommandView::BindPipeline { bind_point: vk::PIPELINE_BIND_POINT_GRAPHICS, pipeline },
        CommandView::BindDescriptorSet {
            bind_point: vk::PIPELINE_BIND_POINT_GRAPHICS,
            layout,
            set,
        },
        CommandView::PushConstants {
            layout,
            stages: vk::SHADER_STAGE_FRAGMENT,
            bytes: seq![0u8, 0u8, 0u8, 0u8],
        },
        CommandView::Draw {
            vertex_count: QUAD_VERTICES,
            instance_count: 1,
            first_vertex: 0,
            first_instance: 0,
        },
        CommandView::EndRenderPass,
    ]
}

fn plan_quad(
    render_pass: u64,
    framebuffer: u64,
    pipeline: u64,
    layout: u64,
    set: u64,
    area: vk::Extent2D,
) -> (commands: Vec<Command>)
    ensures
        command::command_views(commands@) == quad_commands(
            render_pass,
            framebuffer,
            pipeline,
            layout,
            set,
            area,
        ),
{
    let mut bytes: Vec<u8> = Vec::new();
    bytes.push(0);
    bytes.push(0);
    bytes.push(0);
    bytes.push(0);
    assert(bytes@ =~= seq![0u8, 0u8, 0u8, 0u8]);
    let mut commands: Vec<Command> = Vec::new();
    commands.push(
        CommandOf::BeginRenderPass {
            render_pass,
            framebuffer,
            area,
            clear: ClearValue { r: DARK_BITS, g: DARK_BITS, b: DARK_BITS, a: ONE_BITS },
        },
    );
    commands.push(
        CommandOf::BindPipeline { bind_point: vk::PIPELINE_BIND_POINT_GRAPHICS, pipeline },
    );
    commands.push(
        CommandOf::BindDescriptorSet {
            bind_point: vk::PIPELINE_BIND_POINT_GRAPHICS,
            layout,
            set,
        },
    );
    commands.push(
        CommandOf::PushConstants { layout, stages: vk::SHADER_STAGE_FRAGMENT, bytes },
    );
    commands.push(
        CommandOf::Draw {
            vertex_count: QUAD_VERTICES,
            instance_count: 1,
            first_vertex: 0,
            first_instance: 0,
        },
    );
    commands.push(CommandOf::EndRenderPass);
    assert(command::command_views(commands@) =~= quad_commands(
        render_pass,
        framebuffer,
        pipeline,
        layout,
        set,
        area,
    ));
    commands
}

/// Commands of each command buffer: number `i` draws into framebuffer `i`.
pub fn record_cmd_buffers(
    render_pass: u64,
    framebuffers: &Vec<u64>,
    pipeline: u64,
    layout: u64,
    set: u64,
    area: vk::Extent2D,
) -> (lists: Vec<Vec<Command>>)
    ensures
        lists.len() == framebuffers.len(),
        forall|i: int|
            0 <= i < lists.len() ==> command::command_views((#[trigger] lists@[i])@)
                == quad_commands(render_pass, framebuffers@[i], pipeline, layout, set, area),
{
    let mut lists: Vec<Vec<Command>> = Vec::new();
    let n: usize = framebuffers.len();
    let mut i: usize = 0;
    while i < n
        invariant
            n == framebuffers.len(),
            i <= n,
            lists.len() == i,
            forall|j: int|
                0 <= j < i ==> command::command_views((#[trigger] lists@[j])@) == quad_commands(
                    render_pass,
                    framebuffers@[j],
                    pipeline,
                    layout,
                    set,
                    area,
                ),
        decreases n - i,
    {
        lists.push(plan_quad(render_pass, framebuffers[i], pipeline, layout, set, area));
        i += 1;
    }
    lists
}

// ── Surface ────────────────────────────────────────────────────────────────────

/// Acquired swapchain image.
#[derive(Clone, Copy, PartialEq, Eq, Structural, Debug)]
pub struct SurfaceFrame {
    pub index: u32,
}

/// Vulkan objects of a textured surface. There is one framebuffer and one command buffer per
/// image, and one set of sync objects per frame in flight.
pub struct TexturedObjects {
    pub surface: u64,
    pub swapchain: u64,
    pub images: Vec<u64>,
    pub image_views: Vec<u64>,
    pub extent: vk::Extent2D,
    pub render_pass: u64,
    pub framebuffers: Vec<u64>,
    pub descriptor_pool: u64,
    pub descriptor_set_layout: u64,
    pub pipeline_layout: u64,
    pub pipeline: u64,
    pub cmd_pool: u64,
    pub cmd_buffers: Vec<u64>,
    pub image_available: Vec<u64>,
    pub render_finished: Vec<u64>,
    pub in_flight: Vec<u64>,
    pub placeholder: Placeholder,
}

/// Surface that draws one textured quad.
pub struct VulkanTexturedSwapchain {
    objects: TexturedObjects,
    current: usize,
}

/// Image to acquire for the frame in flight `current`.
pub open spec fn quad_acquire(o: TexturedObjects, current: usize) -> AcquireInfo {
    AcquireInfo { swapchain: o.swapchain, semaphore: o.image_available@[current as int] }
}

/// How the frame in flight `current` is submitted.
pub open spec fn quad_submit(o: TexturedObjects, current: usize) -> FrameSubmit {
    FrameSubmit {
        wait_semaphore: o.image_available@[current as int],
        wait_stage: vk::PIPELINE_STAGE_COLOR_ATTACHMENT_OUTPUT,
        signal_semaphore: o.render_finished@[current as int],
        fence: o.in_flight@[current as int],
    }
}

/// How the frame in flight `current` is presented, with image `index`.
pub open spec fn quad_present(o: TexturedObjects, current: usize, index: u32) -> FramePresent {
    FramePresent {
        wait_semaphore: o.render_finished@[current as int],
        swapchain: o.swapchain,
        index,
    }
}

impl VulkanTexturedSwapchain {
    pub closed spec fn objects_of(self) -> TexturedObjects {
        self.objects
    }

    pub closed spec fn current_of(self) -> usize {
        self.current
    }

    pub open spec fn wf(self) -> bool {
        &&& self.current_of() < MAX_FRAMES_IN_FLIGHT
        &&& self.objects_of().image_available.len() == MAX_FRAMES_IN_FLIGHT
        &&& self.objects_of().render_finished.len() == MAX_FRAMES_IN_FLIGHT
        &&& self.objects_of().in_flight.len() == MAX_FRAMES_IN_FLIGHT
    }

    /// Surface from its objects, at its first frame.
    pub fn new(objects: TexturedObjects) -> (s: Self)
        requires
            objects.image_available.len() == MAX_FRAMES_IN_FLIGHT,
            objects.render_finished.len() == MAX_FRAMES_IN_FLIGHT,
            objects.in_flight.len() == MAX_FRAMES_IN_FLIGHT,
        ensures
            s.wf(),
            s.objects_of() == objects,
            s.current_of() == 0,
    {
        VulkanTexturedSwapchain { objects, current: 0 }
    }

    pub fn size(&self) -> (r: (u32, u32))
        ensures
            r == (self.objects_of().extent.width, self.objects_of().extent.height),
    {
        (self.objects.extent.width, self.objects.extent.height)
    }

    /// Number of swapchain images.
    pub fn image_count(&self) -> (n: u32)
        ensures
            n == self.objects_of().images.len() as u32,
    {
        self.objects.images.len() as u32
    }

    /// Begins to acquire a frame: the fence to wait for.
    pub fn acquire_frame(&self) -> (fence: u64)
        requires
            self.wf(),
        ensures
            fence == self.objects_of().in_flight@[self.current_of() as int],
            fence == quad_submit(self.objects_of(), self.current_of()).fence,
    {
        self.objects.in_flight[self.current]
    }

    /// Outcome of waiting for the fence: the fence to reset.
    pub fn acquire_waited(&self, result: Result<(), i32>) -> (r: Result<u64, GpuError>)
        requires
            self.wf(),
        ensures
            match (result, r) {
                (Ok(_), Ok(fence)) => fence == self.objects_of().in_flight@[self.current_of() as int],
                (Err(code), Err(e)) => e@ == error::backend_failure(
                    calls::call_text(VkCall::WaitForFences),
                    code,
                ),
                _ => false,
            },
            r matches Ok(fence) ==> fence == quad_submit(
                self.objects_of(),
                self.current_of(),
            ).fence,
    {
        match call_result(VkCall::WaitForFences, result) {
            Ok(_) => Ok(self.objects.in_flight[self.current]),
            Err(e) => Err(e),
        }
    }

    /// Outcome of resetting the fence: the image to acquire.
    pub fn acquire_reset(&self, result: Result<(), i32>) -> (r: Result<AcquireInfo, GpuError>)
        requires
            self.wf(),
        ensures
            match (result, r) {
                (Ok(_), Ok(info)) => info == (AcquireInfo {
                    swapchain: self.objects_of().swapchain,
                    semaphore: self.objects_of().image_available@[self.current_of() as int],
                }),
                (Err(code), Err(e)) => e@ == error::backend_failure(
                    calls::call_text(VkCall::ResetFences),
                    code,
                ),
                _ => false,
            },
            r matches Ok(info) ==> info == quad_acquire(self.objects_of(), self.current_of()),
    {
        match call_result(VkCall::ResetFences, result) {
            Ok(_) => Ok(
                AcquireInfo {
                    swapchain: self.objects.swapchain,
                    semaphore: self.objects.image_available[self.current],
                },
            ),
            Err(e) => Err(e),
        }
    }

    /// Outcome of acquiring an image: the frame.
    pub fn frame_acquired(&self, result: Result<u32, i32>) -> (r: Result<SurfaceFrame, GpuError>)
        ensures
            match (result, r) {
                (Ok(i), Ok(frame)) => frame.index == i,
                (Err(code), Err(e)) => e@ == GpuErrorView::Surface(quads::quad_surface_error(code)),
                _ => false,
            },
    {
        match result {
            Ok(index) => Ok(SurfaceFrame { index }),
            Err(code) => Err(map_quad_surface_err(code)),
        }
    }

    /// Begins to present a frame: the command buffer to submit, and how.
    pub fn present_frame(&self, frame: SurfaceFrame) -> (r: (u64, FrameSubmit))
        requires
            self.wf(),
            frame.index < self.objects_of().cmd_buffers.len(),
        ensures
            r.0 == self.objects_of().cmd_buffers@[frame.index as int],
            r.1 == (FrameSubmit {
                wait_semaphore: self.objects_of().image_available@[self.current_of() as int],
                wait_stage: vk::PIPELINE_STAGE_COLOR_ATTACHMENT_OUTPUT,
                signal_semaphore: self.objects_of().render_finished@[self.current_of() as int],
                fence: self.objects_of().in_flight@[self.current_of() as int],
            }),
            r.1 == quad_submit(self.objects_of(), self.current_of()),
    {
        (
            self.objects.cmd_buffers[frame.index as usize],
            FrameSubmit {
                wait_semaphore: self.objects.image_available[self.current],
                wait_stage: vk::PIPELINE_STAGE_COLOR_ATTACHMENT_OUTPUT,
                signal_semaphore: self.objects.render_finished[self.current],
                fence: self.objects.in_flight[self.current],
            },
        )
    }

    /// Outcome of submitting a frame: how it is presented.
    pub fn frame_submitted(&self, frame: SurfaceFrame, result: Result<(), i32>) -> (r: Result<
        FramePresent,
        GpuError,
    >)
        requires
            self.wf(),
        ensures
            match (result, r) {
                (Ok(_), Ok(p)) => p == (FramePresent {
                    wait_semaphore: self.objects_of().render_finished@[self.current_of() as int],
                    swapchain: self.objects_of().swapchain,
                    index: frame.index,
                }),
                (Err(code), Err(e)) => e@ == error::backend_failure(
                    calls::call_text(VkCall::QueueSubmit),
                    code,
                ),
                _ => false,
            },
            r matches Ok(p) ==> p == quad_present(
                self.objects_of(),
                self.current_of(),
                frame.index,
            ),
    {
        match call_result(VkCall::QueueSubmit, result) {
            Ok(_) => Ok(
                FramePresent {
                    wait_semaphore: self.objects.render_finished[self.current],
                    swapchain: self.objects.swapchain,
                    index: frame.index,
                },
            ),
            Err(e) => Err(e),
        }
    }

    /// Outcome of presenting a frame. Once it is presented, the next frame in flight is current.
    pub fn frame_presented(&mut self, result: Result<(), i32>) -> (r: Result<(), GpuError>)
        requires
            old(self).wf(),
        ensures
            final(self).wf(),
            final(self).objects_of() == old(self).objects_of(),
            match (result, r) {
                (Ok(_), Ok(_)) => final(self).current_of() == (old(self).current_of() + 1)
                    % MAX_FRAMES_IN_FLIGHT as int,
                (Err(code), Err(e)) => e@ == GpuErrorView::Surface(quads::quad_surface_error(code))
                    && final(self).current_of() == old(self).current_of(),
                _ => false,
            },
    {
        match result {
            Ok(_) => {
                self.current = if self.current + 1 == MAX_FRAMES_IN_FLIGHT {
                    0
                } else {
                    self.current + 1
                };
                Ok(())
            },
            Err(code) => Err(map_quad_surface_err(code)),
        }
    }

    /// Destruction of everything that the surface holds, once the device is idle.
    pub fn destroy(self) -> (steps: Vec<Cleanup>)
        requires
            self.wf(),
        ensures
            steps@ == textured_cleanup(self.objects_of()),
    {
        let o = &self.objects;
        let mut steps: Vec<Cleanup> = Vec::new();
        let n: usize = o.cmd_buffers.len();
        let mut i: usize = 0;
        while i < n
            invariant
                n == o.cmd_buffers.len(),
                i <= n,
                steps@ == swapchain::free_commands(o.cmd_pool, o.cmd_buffers@, i as int),
            decreases n - i,
        {
            steps.push(
                Cleanup::FreeCommandBuffer { pool: o.cmd_pool, cmd: o.cmd_buffers[i] },
            );
            i += 1;
            assert(steps@ =~= swapchain::free_commands(o.cmd_pool, o.cmd_buffers@, i as int));
        }
        let ghost freed = steps@;
        let mut j: usize = 0;
        while j < MAX_FRAMES_IN_FLIGHT
            invariant
                j <= MAX_FRAMES_IN_FLIGHT,
                o.image_available.len() == MAX_FRAMES_IN_FLIGHT,
                o.render_finished.len() == MAX_FRAMES_IN_FLIGHT,
                o.in_flight.len() == MAX_FRAMES_IN_FLIGHT,
                steps@ == freed + frames_cleanup(*o, j as int),
            decreases MAX_FRAMES_IN_FLIGHT - j,
        {
            steps.push(Cleanup::DestroySemaphore(o.image_available[j]));
            steps.push(Cleanup::DestroySemaphore(o.render_finished[j]));
            steps.push(Cleanup::DestroyFence(o.in_flight[j]));
            j += 1;
            assert(steps@ =~= freed + frames_cleanup(*o, j as int));
        }
        steps.push(Cleanup::DestroyCommandPool(o.cmd_pool));
        steps.push(Cleanup::DestroyPipeline(o.pipeline));
        steps.push(Cleanup::DestroyPipelineLayout(o.pipeline_layout));
        steps.push(Cleanup::DestroyDescriptorPool(o.descriptor_pool));
        steps.push(Cleanup::DestroyDescriptorSetLayout(o.descriptor_set_layout));
        steps.push(Cleanup::DestroySampler(o.placeholder.sampler));
        steps.push(Cleanup::DestroyImageView(o.placeholder.view));
        steps.push(Cleanup::DestroyImage(o.placeholder.image));
        steps.push(Cleanup::FreeMemory(o.placeholder.memory));
        push_framebuffers(&mut steps, &o.framebuffers);
        steps.push(Cleanup::DestroyRenderPass(o.render_pass));
        let mut views = view_steps(&o.image_views);
        steps.append(&mut views);
        steps.push(Cleanup::DestroySwapchain(o.swapchain));
        steps.push(Cleanup::DestroySurface(o.surface));
        assert(steps@ =~= textured_cleanup(self.objects_of()));
        steps
    }
}

/// Destruction of the sync objects of the first `k` frames in flight.
pub open spec fn frames_cleanup(o: TexturedObjects, k: int) -> Seq<Cleanup>
    decreases k,
{
    if k <= 0 {
        Seq::empty()
    } else {
        frames_cleanup(o, k - 1) + seq![
            Cleanup::DestroySemaphore(o.image_available@[k - 1]),
            Cleanup::DestroySemaphore(o.render_finished@[k - 1]),
            Cleanup::DestroyFence(o.in_flight@[k - 1]),
        ]
    }
}

/// Destruction of a textured surface.
pub open spec fn textured_cleanup(o: TexturedObjects) -> Seq<Cleanup> {
    swapchain::free_commands(o.cmd_pool, o.cmd_buffers@, o.cmd_buffers.len() as int)
        + frames_cleanup(o, MAX_FRAMES_IN_FLIGHT as int) + seq![
        Cleanup::DestroyCommandPool(o.cmd_pool),
        Cleanup::DestroyPipeline(o.pipeline),
        Cleanup::DestroyPipelineLayout(o.pipeline_layout),
        Cleanup::DestroyDescriptorPool(o.descriptor_pool),
        Cleanup::DestroyDescriptorSetLayout(o.descriptor_set_layout),
        Cleanup::DestroySampler(o.placeholder.sampler),
        Cleanup::DestroyImageView(o.placeholder.view),
        Cleanup::DestroyImage(o.placeholder.image),
        Cleanup::FreeMemory(o.placeholder.memory),
    ] + quads::framebuffers_cleanup(o.framebuffers@) + seq![
        Cleanup::DestroyRenderPass(o.render_pass),
    ] + swapchain::views_cleanup(o.image_views@) + seq![
        Cleanup::DestroySwapchain(o.swapchain),
        Cleanup::DestroySurface(o.surface),
    ]
}

/// The quad is fullscreen: every point of the target is covered by one of the triangles of the
/// strip that is drawn.
pub proof fn quad_covers_the_target(x: int, y: int, scale: int)
    requires
        scale > 0,
        -scale <= x <= scale,
        -scale <= y <= scale,
    ensures
        exists|i: int| 0 <= i < QUAD_VERTICES - 2 && #[trigger] strip_covers(i, x, y, scale),
{
    assert(quad_corner(0) == (-1int, -1int));
    assert(quad_corner(1) == (1int, -1int));
    assert(quad_corner(2) == (-1int, 1int));
    assert(quad_corner(3) == (1int, 1int));
    assert(side((-1int, -1int), (1int, -1int), x, y, scale) == 2 * (y + scale))
        by (nonlinear_arith);
    assert(side((1int, -1int), (-1int, 1int), x, y, scale) == -2 * (x + y)) by (nonlinear_arith);
    assert(side((-1int, 1int), (-1int, -1int), x, y, scale) == 2 * (x + scale))
        by (nonlinear_arith);
    assert(side((-1int, 1int), (1int, 1int), x, y, scale) == 2 * (y - scale))
        by (nonlinear_arith);
    assert(side((1int, 1int), (1int, -1int), x, y, scale) == 2 * (x - scale))
        by (nonlinear_arith);
    if x + y <= 0 {
        assert(strip_covers(0, x, y, scale));
    } else {
        assert(strip_covers(1, x, y, scale));
    }
}

/// The commands of an image begin one render pass on its framebuffer, over all of the area, and
/// end it. In that pass they draw the four vertices of the quad once, with the texture in slot 0
/// of the array that the surface has bound.
pub proof fn quad_is_drawn_once(
    render_pass: u64,
    framebuffer: u64,
    pipeline: u64,
    layout: u64,
    set: u64,
    area: vk::Extent2D,
)
    ensures
        ({
            let done = canvas::painted(
                quad_commands(render_pass, framebuffer, pipeline, layout, set, area),
            );
            let d = done.drawn[0];
            &&& done.passes.len() == 1
            &&& done.passes[0].render_pass == render_pass
            &&& done.passes[0].framebuffer == framebuffer
            &&& done.passes[0].area == area
            &&& done.passes[0].clear.r == 0x3ca3_d70a
            &&& done.passes[0].clear.g == 0x3ca3_d70a
            &&& done.passes[0].clear.b == 0x3ca3_d70a
            &&& done.passes[0].clear.a == 0x3f80_0000
            &&& done.ended == 1
            &&& done.bound.pass is None
            &&& done.drawn.len() == 1
            &&& d.pass == Some(done.passes[0])
            &&& d.pipeline == Some(pipeline)
            &&& d.set == Some(set)
            &&& d.set_layout == Some(layout)
            &&& d.constants_layout == Some(layout)
            &&& d.fragment_constants matches Some(bytes) && bytes.len() == 4 && forall|i: int|
                0 <= i < 4 ==> #[trigger] bytes[i] == 0
            &&& d.vertices == (0u32, 4u32)
            &&& d.instances == (0u32, 1u32)
        }),
{
    reveal_with_fuel(canvas::painted_up_to, 7);
}

/// The placeholder is cleared to white while it is a transfer destination, and is readable by
/// shaders afterwards: its old contents are discarded, the clear waits for the first transition,
/// and fragment shaders wait for the clear.
pub proof fn placeholder_becomes_white(image: u64)
    ensures
        ({
            let c = placeholder_commands(image);
            &&& c.len() == 3
            &&& c[0] matches CommandOf::ImageBarrier { dst_stages, barrier, .. }
                && barrier.old_layout == vk::IMAGE_LAYOUT_UNDEFINED && barrier.new_layout
                == vk::IMAGE_LAYOUT_TRANSFER_DST_OPTIMAL && barrier.image == image && dst_stages
                == vk::PIPELINE_STAGE_TRANSFER && barrier.dst_access_mask
                == vk::ACCESS_TRANSFER_WRITE
            &&& c[1] matches CommandOf::ClearColorImage { image: cleared, image_layout, color, range }
                && cleared == image && image_layout == vk::IMAGE_LAYOUT_TRANSFER_DST_OPTIMAL
                && color.r == 0x3f80_0000 && color.g == 0x3f80_0000 && color.b == 0x3f80_0000
                && color.a == 0x3f80_0000 && range.aspect_mask == vk::IMAGE_ASPECT_COLOR
                && range.base_mip_level == 0 && range.level_count == 1 && range.base_array_layer
                == 0 && range.layer_count == 1
            &&& c[2] matches CommandOf::ImageBarrier { src_stages, dst_stages, barrier }
                && barrier.old_layout == vk::IMAGE_LAYOUT_TRANSFER_DST_OPTIMAL
                && barrier.new_layout == vk::IMAGE_LAYOUT_SHADER_READ_ONLY_OPTIMAL && barrier.image
                == image && src_stages == vk::PIPELINE_STAGE_TRANSFER && barrier.src_access_mask
                == vk::ACCESS_TRANSFER_WRITE && dst_stages == vk::PIPELINE_STAGE_FRAGMENT_SHADER
                && barrier.dst_access_mask == vk::ACCESS_SHADER_READ
        }),
{
}

/// The format of a textured surface is BGRA with sRGB conversion where that is offered, and is
/// always one that is offered; there is none only where nothing is offered.
pub proof fn textured_format_is_offered(formats: Seq<SurfaceFormat>)
    ensures
        textured_format(formats) is None <==> formats.len() == 0,
        textured_format(formats) matches Some(f) ==> formats.contains(f),
        (exists|i: int|
            0 <= i < formats.len() && (#[trigger] formats[i]).format == vk::FORMAT_B8G8R8A8_SRGB
                && formats[i].color_space == vk::COLOR_SPACE_SRGB_NONLINEAR_KHR) ==> (
        textured_format(formats) matches Some(f) && f.format == vk::FORMAT_B8G8R8A8_SRGB
            && f.color_space == vk::COLOR_SPACE_SRGB_NONLINEAR_KHR),
        !(exists|i: int|
            0 <= i < formats.len() && (#[trigger] formats[i]).format == vk::FORMAT_B8G8R8A8_SRGB
                && formats[i].color_space == vk::COLOR_SPACE_SRGB_NONLINEAR_KHR) && formats.len()
            > 0 ==> textured_format(formats) == Some(formats[0]),
{
    let p = |i: int| is_srgb(formats[i]);
    search::lemma_first_below(p, formats.len() as int);
    if exists|i: int|
        0 <= i < formats.len() && (#[trigger] formats[i]).format == vk::FORMAT_B8G8R8A8_SRGB
            && formats[i].color_space == vk::COLOR_SPACE_SRGB_NONLINEAR_KHR {
        let i = choose|i: int|
            0 <= i < formats.len() && (#[trigger] formats[i]).format == vk::FORMAT_B8G8R8A8_SRGB
                && formats[i].color_space == vk::COLOR_SPACE_SRGB_NONLINEAR_KHR;
        assert(p(i));
    }
}

/// A descriptor of the array names its slot, its view and its sampler, and reads an image that
/// shaders can read.
pub proof fn slot_descriptor_is_readable(set: u64, slot: u32, view: u64, sampler: u64)
    ensures
        ({
            let d = slot_descriptor(set, slot, view, sampler);
            &&& d.set == set
            &&& d.binding == 0
            &&& d.element == slot
            &&& d.image_view == view
            &&& d.sampler == sampler
            &&& d.image_layout == vk::IMAGE_LAYOUT_SHADER_READ_ONLY_OPTIMAL
        }),
{
}

/// What one step of a frame hands on, the next takes up: the submission waits for the semaphore
/// that the acquired image signals, and the presentation for the one that the submission signals.
/// Image and swapchain stay the same, and the sync objects are each of their own kind.
pub proof fn quad_frame_is_handed_on(o: TexturedObjects, current: usize, index: u32)
    requires
        current < o.image_available.len(),
        current < o.render_finished.len(),
        current < o.in_flight.len(),
    ensures
        quad_acquire(o, current).semaphore == quad_submit(o, current).wait_semaphore,
        quad_submit(o, current).signal_semaphore == quad_present(o, current, index).wait_semaphore,
        quad_acquire(o, current).swapchain == o.swapchain,
        quad_present(o, current, index).swapchain == o.swapchain,
        quad_present(o, current, index).index == index,
        quad_submit(o, current).wait_stage == vk::PIPELINE_STAGE_COLOR_ATTACHMENT_OUTPUT,
        o.image_available@.contains(quad_acquire(o, current).semaphore),
        o.render_finished@.contains(quad_submit(o, current).signal_semaphore),
        o.in_flight@.contains(quad_submit(o, current).fence),
{
    assert(o.image_available@[current as int] == quad_acquire(o, current).semaphore);
    assert(o.render_finished@[current as int] == quad_submit(o, current).signal_semaphore);
    assert(o.in_flight@[current as int] == quad_submit(o, current).fence);
}

/// Frames in flight do not share their sync objects.
pub proof fn quad_frames_do_not_share(o: TexturedObjects, a: usize, b: usize)
    requires
        a != b,
        a < o.image_available.len() && b < o.image_available.len(),
        a < o.render_finished.len() && b < o.render_finished.len(),
        a < o.in_flight.len() && b < o.in_flight.len(),
        o.image_available@.no_duplicates(),
        o.render_finished@.no_duplicates(),
        o.in_flight@.no_duplicates(),
    ensures
        quad_acquire(o, a).semaphore != quad_acquire(o, b).semaphore,
        quad_submit(o, a).signal_semaphore != quad_submit(o, b).signal_semaphore,
        quad_submit(o, a).fence != quad_submit(o, b).fence,
{
}

proof fn lemma_frames_cleanup(o: TexturedObjects, k: int, f: int)
    requires
        0 <= k,
    ensures
        frames_cleanup(o, k).len() == 3 * k,
        0 <= f < k ==> {
            let steps = frames_cleanup(o, k);
            &&& steps[3 * f] == Cleanup::DestroySemaphore(o.image_available@[f])
            &&& steps[3 * f + 1] == Cleanup::DestroySemaphore(o.render_finished@[f])
            &&& steps[3 * f + 2] == Cleanup::DestroyFence(o.in_flight@[f])
        },
    decreases k,
{
    if k > 0 {
        lemma_frames_cleanup(o, k - 1, f);
    }
}

/// Destroying a textured surface destroys all that it holds and nothing else, each thing before
/// what it depends on: the command buffers before their pool, the placeholder's view before its
/// image and that before its memory, the framebuffers before the render pass and the views, these
/// before the swapchain, and the surface last.
pub proof fn textured_goes_whole(o: TexturedObjects, c: int, f: int, i: int, j: int)
    requires
        0 <= f < MAX_FRAMES_IN_FLIGHT,
    ensures
        ({
            let steps = textured_cleanup(o);
            let sync = o.cmd_buffers.len() as int;
            let pool = sync + 3 * MAX_FRAMES_IN_FLIGHT;
            let views = pool + 10 + o.framebuffers.len();
            let last = views + o.image_views.len();
            &&& steps.len() == last + 2
            &&& 0 <= c < o.cmd_buffers.len() ==> steps[c] == (Cleanup::FreeCommandBuffer {
                pool: o.cmd_pool,
                cmd: o.cmd_buffers@[c],
            })
            &&& steps[sync + 3 * f] == Cleanup::DestroySemaphore(o.image_available@[f])
            &&& steps[sync + 3 * f + 1] == Cleanup::DestroySemaphore(o.render_finished@[f])
            &&& steps[sync + 3 * f + 2] == Cleanup::DestroyFence(o.in_flight@[f])
            &&& steps[pool] == Cleanup::DestroyCommandPool(o.cmd_pool)
            &&& steps[pool + 1] == Cleanup::DestroyPipeline(o.pipeline)
            &&& steps[pool + 2] == Cleanup::DestroyPipelineLayout(o.pipeline_layout)
            &&& steps[pool + 3] == Cleanup::DestroyDescriptorPool(o.descriptor_pool)
            &&& steps[pool + 4] == Cleanup::DestroyDescriptorSetLayout(o.descriptor_set_layout)
            &&& steps[pool + 5] == Cleanup::DestroySampler(o.placeholder.sampler)
            &&& steps[pool + 6] == Cleanup::DestroyImageView(o.placeholder.view)
            &&& steps[pool + 7] == Cleanup::DestroyImage(o.placeholder.image)
            &&& steps[pool + 8] == Cleanup::FreeMemory(o.placeholder.memory)
            &&& 0 <= i < o.framebuffers.len() ==> steps[pool + 9 + i]
                == Cleanup::DestroyFramebuffer(o.framebuffers@[i])
            &&& steps[views - 1] == Cleanup::DestroyRenderPass(o.render_pass)
            &&& 0 <= j < o.image_views.len() ==> steps[views + j] == Cleanup::DestroyImageView(
                o.image_views@[j],
            )
            &&& steps[last] == Cleanup::DestroySwapchain(o.swapchain)
            &&& steps[last + 1] == Cleanup::DestroySurface(o.surface)
        }),
{
    lemma_frames_cleanup(o, MAX_FRAMES_IN_FLIGHT as int, f);
    let frames = frames_cleanup(o, MAX_FRAMES_IN_FLIGHT as int);
    let sync = o.cmd_buffers.len() as int;
    assert(textured_cleanup(o)[sync + 3 * f] == frames[3 * f]);
    assert(textured_cleanup(o)[sync + 3 * f + 1] == frames[3 * f + 1]);
    assert(textured_cleanup(o)[sync + 3 * f + 2] == frames[3 * f + 2]);
}

} // verus!
