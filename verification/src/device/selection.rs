//! What a logical device is opened with: extensions, queue family, features and limits.
use vstd::prelude::*;
use vstd::string::StringExecFns;

use crate::error::{GpuError, GpuErrorView};
use crate::hal;
use crate::hal::{
    contains_flags, DeviceLimits, DeviceRequest, Features, FEATURE_COMPUTE,
    FEATURE_DESCRIPTOR_INDEXING, FEATURE_GRAPHICS,
};
use crate::search;
use crate::text;
use crate::vk;

verus! {

/// Maximum number of storage buffers in the bindless descriptor table.
pub const MAX_BINDLESS_BUFFERS: u32 = 4096;

/// Maximum number of combined image samplers in the bindless texture table.
pub const MAX_BINDLESS_TEXTURES: u32 = 1024;

/// The smaller of two numbers.
pub open spec fn least(a: int, b: int) -> int {
    if a <= b {
        a
    } else {
        b
    }
}

/// `a - b`, or zero where that is negative.
pub open spec fn monus(a: int, b: int) -> int {
    if a >= b {
        a - b
    } else {
        0
    }
}

/// Storage buffers in the bindless table: at most the table's maximum and the device's, and
/// at least one descriptor is left for textures.
pub open spec fn buffer_slots(limits: DeviceLimits) -> int {
    least(
        least(MAX_BINDLESS_BUFFERS as int, limits.max_storage_buffers as int),
        monus(limits.max_update_after_bind_descriptors as int, 1),
    )
}

/// Textures in the bindless table: at most the table's maximum, the device's, and the
/// descriptors that buffers leave.
pub open spec fn texture_slots(limits: DeviceLimits) -> int {
    least(
        least(MAX_BINDLESS_TEXTURES as int, limits.max_sampled_textures as int),
        monus(limits.max_update_after_bind_descriptors as int, buffer_slots(limits)),
    )
}

/// Message for limits that leave a bindless table empty.
pub open spec fn small_limits_text(limits: DeviceLimits) -> Seq<char> {
    "bindless descriptor limits are too small: storage="@ + text::decimal_text(
        limits.max_storage_buffers as nat,
    ) + ", textures="@ + text::decimal_text(limits.max_sampled_textures as nat) + ", total="@
        + text::decimal_text(limits.max_update_after_bind_descriptors as nat)
}

fn min_u32(a: u32, b: u32) -> (r: u32)
    ensures
        r == least(a as int, b as int),
{
    if a <= b {
        a
    } else {
        b
    }
}

fn sub_or_zero(a: u32, b: u32) -> (r: u32)
    ensures
        r == monus(a as int, b as int),
{
    if a >= b {
        a - b
    } else {
        0
    }
}

/// Sizes of the bindless buffer and texture tables.
pub fn bindless_capacities(limits: &DeviceLimits) -> (r: Result<(u32, u32), GpuError>)
    ensures
        match r {
            Ok((buffers, textures)) => buffers == buffer_slots(*limits) && textures
                == texture_slots(*limits) && buffers > 0 && textures > 0,
            Err(e) => (buffer_slots(*limits) == 0 || texture_slots(*limits) == 0) && e@
                == GpuErrorView::Unsupported(small_limits_text(*limits)),
        },
{
    let total: u32 = limits.max_update_after_bind_descriptors;
    let buffer_capacity: u32 = min_u32(
        min_u32(MAX_BINDLESS_BUFFERS, limits.max_storage_buffers),
        sub_or_zero(total, 1),
    );
    let texture_capacity: u32 = min_u32(
        min_u32(MAX_BINDLESS_TEXTURES, limits.max_sampled_textures),
        sub_or_zero(total, buffer_capacity),
    );
    if buffer_capacity == 0 || texture_capacity == 0 {
        let mut message = "bindless descriptor limits are too small: storage=".to_owned();
        message.append(text::decimal(limits.max_storage_buffers as u64).as_str());
        message.append(", textures=");
        message.append(text::decimal(limits.max_sampled_textures as u64).as_str());
        message.append(", total=");
        message.append(text::decimal(total as u64).as_str());
        return Err(GpuError::Unsupported(message));
    }
    Ok((buffer_capacity, texture_capacity))
}

/// The bindless tables respect every limit: neither exceeds its own, and together they fit in
/// the descriptors that may be updated after binding.
pub proof fn bindless_tables_fit(limits: DeviceLimits)
    ensures
        buffer_slots(limits) <= limits.max_storage_buffers,
        texture_slots(limits) <= limits.max_sampled_textures,
        buffer_slots(limits) <= MAX_BINDLESS_BUFFERS,
        texture_slots(limits) <= MAX_BINDLESS_TEXTURES,
        buffer_slots(limits) + texture_slots(limits) <= limits.max_update_after_bind_descriptors,
{
}

/// The bindless tables are refused exactly when a device limit leaves no room for one buffer
/// and one texture.
pub proof fn bindless_tables_exist(limits: DeviceLimits)
    ensures
        (buffer_slots(limits) > 0 && texture_slots(limits) > 0) <==> (limits.max_storage_buffers > 0
            && limits.max_sampled_textures > 0 && limits.max_update_after_bind_descriptors >= 2),
{
}

/// Properties of a queue family.
#[derive(Clone, Copy, PartialEq, Eq, Structural, Debug)]
pub struct QueueFamily {
    pub flags: u32,
    pub timestamp_valid_bits: u32,
}

/// Lowest queue family that supports all of `wanted` and none of `unwanted`.
pub open spec fn first_family(families: Seq<QueueFamily>, wanted: u32, unwanted: u32) -> Option<int> {
    search::first_below(
        |i: int| family_fits(families, wanted, unwanted, i),
        families.len() as int,
    )
}

pub open spec fn family_fits(families: Seq<QueueFamily>, wanted: u32, unwanted: u32, i: int) -> bool {
    hal::has_flags(families[i].flags, wanted) && !(unwanted != 0 && hal::has_flags(
        families[i].flags,
        unwanted,
    ))
}

/// Queue family of a device. Graphics prefers a family that computes as well; compute prefers
/// one that does no graphics.
pub open spec fn selected_family(families: Seq<QueueFamily>, needs_graphics: bool) -> Option<int> {
    if needs_graphics {
        match first_family(families, vk::QUEUE_GRAPHICS | vk::QUEUE_COMPUTE, 0) {
            Some(i) => Some(i),
            None => first_family(families, vk::QUEUE_GRAPHICS, 0),
        }
    } else {
        match first_family(families, vk::QUEUE_COMPUTE, vk::QUEUE_GRAPHICS) {
            Some(i) => Some(i),
            None => first_family(families, vk::QUEUE_COMPUTE, 0),
        }
    }
}

fn find_family(families: &Vec<QueueFamily>, wanted: u32, unwanted: u32) -> (r: Option<usize>)
    ensures
        match r {
            Some(i) => first_family(families@, wanted, unwanted) == Some(i as int),
            None => first_family(families@, wanted, unwanted) is None,
        },
{
    let ghost f = |i: int| family_fits(families@, wanted, unwanted, i);
    let n: usize = families.len();
    let mut i: usize = 0;
    while i < n
        invariant
            n == families.len(),
            i <= n,
            f == (|i: int| family_fits(families@, wanted, unwanted, i)),
            forall|j: int| 0 <= j < i ==> !#[trigger] f(j),
        decreases n - i,
    {
        let flags: u32 = families[i].flags;
        if contains_flags(flags, wanted) && !(unwanted != 0 && contains_flags(flags, unwanted)) {
            proof {
                search::lemma_is_first(f, n as int, i as int);
            }
            return Some(i);
        }
        i += 1;
    }
    proof {
        search::lemma_none_below(f, n as int);
    }
    None
}

/// Selects the queue family of a device.
pub fn queue_family(families: &Vec<QueueFamily>, needs_graphics: bool) -> (r: Option<usize>)
    ensures
        match r {
            Some(i) => selected_family(families@, needs_graphics) == Some(i as int) && i
                < families.len(),
            None => selected_family(families@, needs_graphics) is None,
        },
{
    let found = if needs_graphics {
        match find_family(families, vk::QUEUE_GRAPHICS | vk::QUEUE_COMPUTE, 0) {
            Some(i) => Some(i),
            None => find_family(families, vk::QUEUE_GRAPHICS, 0),
        }
    } else {
        match find_family(families, vk::QUEUE_COMPUTE, vk::QUEUE_GRAPHICS) {
            Some(i) => Some(i),
            None => find_family(families, vk::QUEUE_COMPUTE, 0),
        }
    };
    proof {
        search::lemma_first_below(
            |i: int| family_fits(families@, vk::QUEUE_GRAPHICS | vk::QUEUE_COMPUTE, 0, i),
            families.len() as int,
        );
        search::lemma_first_below(
            |i: int| family_fits(families@, vk::QUEUE_GRAPHICS, 0, i),
            families.len() as int,
        );
        search::lemma_first_below(
            |i: int| family_fits(families@, vk::QUEUE_COMPUTE, vk::QUEUE_GRAPHICS, i),
            families.len() as int,
        );
        search::lemma_first_below(
            |i: int| family_fits(families@, vk::QUEUE_COMPUTE, 0, i),
            families.len() as int,
        );
    }
    found
}

/// A queue family is selected if and only if some family supports what the device is for, and
/// the selected one does.
pub proof fn selected_family_supports_device(families: Seq<QueueFamily>, needs_graphics: bool)
    ensures
        ({
            let wanted = if needs_graphics {
                vk::QUEUE_GRAPHICS
            } else {
                vk::QUEUE_COMPUTE
            };
            match selected_family(families, needs_graphics) {
                Some(i) => 0 <= i < families.len() && hal::has_flags(families[i].flags, wanted),
                None => forall|j: int|
                    0 <= j < families.len() ==> !hal::has_flags(
                        (#[trigger] families[j]).flags,
                        wanted,
                    ),
            }
        }),
{
    let both = vk::QUEUE_GRAPHICS | vk::QUEUE_COMPUTE;
    let n = families.len() as int;
    let f1 = |i: int| family_fits(families, both, 0, i);
    let f2 = |i: int| family_fits(families, vk::QUEUE_GRAPHICS, 0, i);
    let f3 = |i: int| family_fits(families, vk::QUEUE_COMPUTE, vk::QUEUE_GRAPHICS, i);
    let f4 = |i: int| family_fits(families, vk::QUEUE_COMPUTE, 0, i);
    search::lemma_first_below(f1, n);
    search::lemma_first_below(f2, n);
    search::lemma_first_below(f3, n);
    search::lemma_first_below(f4, n);
    assert forall|j: int| 0 <= j < n implies f2(j) == hal::has_flags(
        (#[trigger] families[j]).flags,
        vk::QUEUE_GRAPHICS,
    ) by {}
    assert forall|j: int| 0 <= j < n implies f4(j) == hal::has_flags(
        (#[trigger] families[j]).flags,
        vk::QUEUE_COMPUTE,
    ) by {}
    assert forall|x: u32| #[trigger] hal::has_flags(x, both) implies hal::has_flags(
        x,
        vk::QUEUE_GRAPHICS,
    ) by {
        assert(x & (0x1u32 | 0x2u32) == 0x1u32 | 0x2u32 ==> x & 0x1 == 0x1) by (bit_vector);
    }
    if let Some(i) = first_family(families, both, 0) {
        assert(f1(i));
    }
}

/// Limits that the physical device reports.
#[derive(Clone, Copy, Debug)]
pub struct ReportedLimits {
    pub max_compute_work_group_size: [u32; 3],
    pub max_compute_work_group_invocations: u32,
    pub max_compute_work_group_count: [u32; 3],
    pub max_storage_buffer_range: u32,
    pub max_push_constants_size: u32,
    pub max_per_stage_update_after_bind_storage_buffers: u32,
    pub max_set_update_after_bind_storage_buffers: u32,
    pub max_per_stage_update_after_bind_sampled_images: u32,
    pub max_set_update_after_bind_sampled_images: u32,
    pub max_update_after_bind_descriptors_in_all_pools: u32,
    pub max_memory_allocation_count: u32,
    pub timestamp_period_bits: u32,
}

/// Limits of a device on the given queue family: descriptors are bounded per stage and per
/// set, and timestamps need a queue that has them.
pub open spec fn limits_of(
    reported: ReportedLimits,
    families: Seq<QueueFamily>,
    family: int,
) -> DeviceLimits {
    DeviceLimits {
        max_workgroup_size: reported.max_compute_work_group_size,
        max_workgroup_invocations: reported.max_compute_work_group_invocations,
        max_dispatch_size: reported.max_compute_work_group_count,
        max_storage_buffer_range: reported.max_storage_buffer_range as u64,
        max_push_constant_size: reported.max_push_constants_size,
        max_storage_buffers: least(
            reported.max_per_stage_update_after_bind_storage_buffers as int,
            reported.max_set_update_after_bind_storage_buffers as int,
        ) as u32,
        max_sampled_textures: least(
            reported.max_per_stage_update_after_bind_sampled_images as int,
            reported.max_set_update_after_bind_sampled_images as int,
        ) as u32,
        max_update_after_bind_descriptors: reported.max_update_after_bind_descriptors_in_all_pools,
        max_memory_allocations: reported.max_memory_allocation_count,
        timestamp_supported: family < families.len() && families[family].timestamp_valid_bits > 0,
        timestamp_period_ns_bits: reported.timestamp_period_bits,
    }
}

/// Limits of a device on queue family `family`.
pub fn physical_device_limits(
    reported: &ReportedLimits,
    families: &Vec<QueueFamily>,
    family: usize,
) -> (limits: DeviceLimits)
    ensures
        limits == limits_of(*reported, families@, family as int),
{
    DeviceLimits {
        max_workgroup_size: reported.max_compute_work_group_size,
        max_workgroup_invocations: reported.max_compute_work_group_invocations,
        max_dispatch_size: reported.max_compute_work_group_count,
        max_storage_buffer_range: reported.max_storage_buffer_range as u64,
        max_push_constant_size: reported.max_push_constants_size,
        max_storage_buffers: min_u32(
            reported.max_per_stage_update_after_bind_storage_buffers,
            reported.max_set_update_after_bind_storage_buffers,
        ),
        max_sampled_textures: min_u32(
            reported.max_per_stage_update_after_bind_sampled_images,
            reported.max_set_update_after_bind_sampled_images,
        ),
        max_update_after_bind_descriptors: reported.max_update_after_bind_descriptors_in_all_pools,
        max_memory_allocations: reported.max_memory_allocation_count,
        timestamp_supported: family < families.len() && families[family].timestamp_valid_bits > 0,
        timestamp_period_ns_bits: reported.timestamp_period_bits,
    }
}

/// Descriptor-indexing features that a physical device supports.
#[derive(Clone, Copy, PartialEq, Eq, Structural, Debug)]
pub struct IndexingSupport {
    pub storage_buffer_non_uniform_indexing: bool,
    pub sampled_image_non_uniform_indexing: bool,
    pub storage_buffer_update_after_bind: bool,
    pub sampled_image_update_after_bind: bool,
    pub partially_bound: bool,
    pub runtime_descriptor_array: bool,
}

impl IndexingSupport {
    /// All features that the bindless tables need.
    pub open spec fn complete(self) -> bool {
        &&& self.storage_buffer_non_uniform_indexing
        &&& self.sampled_image_non_uniform_indexing
        &&& self.storage_buffer_update_after_bind
        &&& self.sampled_image_update_after_bind
        &&& self.partially_bound
        &&& self.runtime_descriptor_array
    }
}

/// Optional features that a physical device supports.
#[derive(Clone, Copy, PartialEq, Eq, Structural, Debug)]
pub struct FeatureSupport {
    pub indexing: IndexingSupport,
    pub dynamic_rendering: bool,
    pub buffer_float32_atomic_add: bool,
    pub dual_src_blend: bool,
    pub fill_mode_non_solid: bool,
    pub sampler_anisotropy: bool,
}

/// What a physical device offers.
pub struct PhysicalSupport {
    pub extensions: Vec<String>,
    pub families: Vec<QueueFamily>,
    pub features: FeatureSupport,
    pub limits: ReportedLimits,
}

/// What a logical device is created with.
pub struct DevicePlan {
    pub extensions: Vec<String>,
    pub queue_family: usize,
    pub limits: DeviceLimits,
    pub features: Features,
    pub graphics: bool,
    pub shader_atomic_float: bool,
    pub dual_src_blend: bool,
    pub fill_mode_non_solid: bool,
    pub sampler_anisotropy: bool,
}

/// Mathematical form of a [`PhysicalSupport`].
pub struct PhysicalSupportView {
    pub extensions: Seq<Seq<char>>,
    pub families: Seq<QueueFamily>,
    pub features: FeatureSupport,
    pub limits: ReportedLimits,
}

/// Mathematical form of a [`DevicePlan`].
pub struct DevicePlanView {
    pub extensions: Seq<Seq<char>>,
    pub queue_family: int,
    pub limits: DeviceLimits,
    pub features: Features,
    pub graphics: bool,
    pub shader_atomic_float: bool,
    pub dual_src_blend: bool,
    pub fill_mode_non_solid: bool,
    pub sampler_anisotropy: bool,
}

/// Texts of a list of strings.
pub open spec fn texts(list: Seq<String>) -> Seq<Seq<char>> {
    list.map_values(|s: String| s@)
}

impl View for PhysicalSupport {
    type V = PhysicalSupportView;

    open spec fn view(&self) -> PhysicalSupportView {
        PhysicalSupportView {
            extensions: texts(self.extensions@),
            families: self.families@,
            features: self.features,
            limits: self.limits,
        }
    }
}

impl View for DevicePlan {
    type V = DevicePlanView;

    open spec fn view(&self) -> DevicePlanView {
        DevicePlanView {
            extensions: texts(self.extensions@),
            queue_family: self.queue_family as int,
            limits: self.limits,
            features: self.features,
            graphics: self.graphics,
            shader_atomic_float: self.shader_atomic_float,
            dual_src_blend: self.dual_src_blend,
            fill_mode_non_solid: self.fill_mode_non_solid,
            sampler_anisotropy: self.sampler_anisotropy,
        }
    }
}

/// `name` is among the `available` extensions.
pub open spec fn supports(available: Seq<Seq<char>>, name: Seq<char>) -> bool {
    exists|i: int| 0 <= i < available.len() && #[trigger] available[i] == name
}

/// First extension of `required` that is not available.
pub open spec fn first_unavailable(
    required: Seq<Seq<char>>,
    available: Seq<Seq<char>>,
) -> Option<int> {
    search::first_below(
        |i: int| !supports(available, required[i]),
        required.len() as int,
    )
}

/// Features that the backend exposes on a device.
pub open spec fn exposed_features(needs_graphics: bool) -> Features {
    Features {
        bits: if needs_graphics {
            FEATURE_COMPUTE | FEATURE_DESCRIPTOR_INDEXING | FEATURE_GRAPHICS
        } else {
            FEATURE_COMPUTE | FEATURE_DESCRIPTOR_INDEXING
        },
    }
}

/// Why a device cannot be opened, if it cannot.
pub open spec fn device_fault(
    support: PhysicalSupportView,
    required: Features,
    extra: Seq<Seq<char>>,
    needs_graphics: bool,
) -> Option<GpuErrorView> {
    let missing = required.bits & !exposed_features(needs_graphics).bits;
    if let Some(i) = first_unavailable(extra, support.extensions) {
        Some(
            GpuErrorView::Backend(
                "required Vulkan device extension is unavailable: "@ + extra[i],
            ),
        )
    } else if needs_graphics && !supports(support.extensions, "VK_KHR_dynamic_rendering"@) {
        Some(GpuErrorView::Backend("GPU does not support VK_KHR_dynamic_rendering"@))
    } else if selected_family(support.families, needs_graphics) is None {
        Some(
            GpuErrorView::Backend(
                if needs_graphics {
                    "no graphics queue family"@
                } else {
                    "no compute queue family"@
                },
            ),
        )
    } else if !support.features.indexing.complete() {
        Some(
            GpuErrorView::UnsupportedFeatures(
                Features { bits: FEATURE_DESCRIPTOR_INDEXING },
            ),
        )
    } else if needs_graphics && !support.features.dynamic_rendering {
        Some(GpuErrorView::Unsupported("Vulkan dynamic rendering feature is unavailable"@))
    } else if missing != 0 {
        Some(GpuErrorView::UnsupportedFeatures(Features { bits: missing }))
    } else {
        None
    }
}

/// The float atomics extension is offered and useful.
pub open spec fn has_atomic_float(support: PhysicalSupportView) -> bool {
    supports(support.extensions, "VK_EXT_shader_atomic_float"@)
        && support.features.buffer_float32_atomic_add
}

/// `list` followed by `name` if `on`.
pub open spec fn with_name(list: Seq<Seq<char>>, on: bool, name: Seq<char>) -> Seq<Seq<char>> {
    if on {
        list.push(name)
    } else {
        list
    }
}

/// Extensions that a device is created with: those asked for, the portability subset where it
/// is offered (a device that offers it must have it enabled), dynamic rendering for graphics,
/// and float atomics where they are usable.
pub open spec fn enabled_extensions(
    support: PhysicalSupportView,
    extra: Seq<Seq<char>>,
    needs_graphics: bool,
) -> Seq<Seq<char>> {
    with_name(
        with_name(
            with_name(
                extra,
                supports(support.extensions, "VK_KHR_portability_subset"@),
                "VK_KHR_portability_subset"@,
            ),
            needs_graphics,
            "VK_KHR_dynamic_rendering"@,
        ),
        has_atomic_float(support),
        "VK_EXT_shader_atomic_float"@,
    )
}

/// Plan of a device that can be opened. Graphics features are enabled on graphics devices only.
pub open spec fn device_plan(
    support: PhysicalSupportView,
    extra: Seq<Seq<char>>,
    needs_graphics: bool,
) -> DevicePlanView {
    let family = selected_family(support.families, needs_graphics)->Some_0;
    DevicePlanView {
        extensions: enabled_extensions(support, extra, needs_graphics),
        queue_family: family,
        limits: limits_of(support.limits, support.families, family),
        features: exposed_features(needs_graphics),
        graphics: needs_graphics,
        shader_atomic_float: has_atomic_float(support),
        dual_src_blend: needs_graphics && support.features.dual_src_blend,
        fill_mode_non_solid: needs_graphics && support.features.fill_mode_non_solid,
        sampler_anisotropy: needs_graphics && support.features.sampler_anisotropy,
    }
}

/// Whether `name` is among the `available` extensions.
pub fn supports_extension(available: &Vec<String>, name: &str) -> (found: bool)
    ensures
        found == supports(texts(available@), name@),
{
    let wanted: String = name.to_owned();
    let n: usize = available.len();
    let mut i: usize = 0;
    while i < n
        invariant
            n == available.len(),
            i <= n,
            wanted@ == name@,
            forall|j: int| 0 <= j < i ==> #[trigger] texts(available@)[j] != name@,
        decreases n - i,
    {
        if available[i] == wanted {
            assert(texts(available@)[i as int] == name@);
            return true;
        }
        i += 1;
    }
    false
}

/// Decides how to open a device. `extra` are extensions that the device must have; a required
/// feature that the backend does not expose is refused, an optional one is ignored.
pub fn plan_device(
    support: &PhysicalSupport,
    req: DeviceRequest,
    extra: &Vec<String>,
    needs_graphics: bool,
) -> (r: Result<DevicePlan, GpuError>)
    ensures
        match r {
            Ok(plan) => device_fault(support@, req.required, texts(extra@), needs_graphics) is None
                && plan@ == device_plan(support@, texts(extra@), needs_graphics),
            Err(e) => device_fault(support@, req.required, texts(extra@), needs_graphics) == Some(
                e@,
            ),
        },
{
    let ghost names = texts(extra@);
    let ghost offered = texts(support.extensions@);
    let ghost lacking = |i: int| !supports(offered, names[i]);
    let mut extensions: Vec<String> = Vec::new();
    let n: usize = extra.len();
    let mut i: usize = 0;
    while i < n
        invariant
            n == extra.len(),
            i <= n,
            names == texts(extra@),
            offered == texts(support.extensions@),
            lacking == (|i: int| !supports(offered, names[i])),
            texts(extensions@) == names.take(i as int),
            forall|j: int| 0 <= j < i ==> !#[trigger] lacking(j),
        decreases n - i,
    {
        if !supports_extension(&support.extensions, extra[i].as_str()) {
            proof {
                search::lemma_is_first(lacking, n as int, i as int);
            }
            let mut message = "required Vulkan device extension is unavailable: ".to_owned();
            message.append(extra[i].as_str());
            return Err(GpuError::Backend(message));
        }
        let ghost before = extensions@;
        extensions.push(extra[i].clone());
        i += 1;
        assert(texts(extensions@) =~= texts(before).push(names[i - 1]));
        assert(names.take(i as int) =~= names.take(i - 1).push(names[i - 1]));
    }
    proof {
        search::lemma_none_below(lacking, n as int);
        assert(names.take(n as int) =~= names);
    }
    let ghost asked = extensions@;
    let portability = supports_extension(&support.extensions, "VK_KHR_portability_subset");
    if portability {
        extensions.push("VK_KHR_portability_subset".to_owned());
    }
    let ghost first = with_name(names, portability, "VK_KHR_portability_subset"@);
    assert(texts(extensions@) =~= first);
    if needs_graphics {
        if !supports_extension(&support.extensions, "VK_KHR_dynamic_rendering") {
            return Err(
                GpuError::Backend("GPU does not support VK_KHR_dynamic_rendering".to_owned()),
            );
        }
        extensions.push("VK_KHR_dynamic_rendering".to_owned());
    }
    let ghost second = with_name(first, needs_graphics, "VK_KHR_dynamic_rendering"@);
    assert(texts(extensions@) =~= second);
    let family: usize = match queue_family(&support.families, needs_graphics) {
        Some(family) => family,
        None => {
            return Err(
                GpuError::Backend(
                    if needs_graphics {
                        "no graphics queue family".to_owned()
                    } else {
                        "no compute queue family".to_owned()
                    },
                ),
            );
        },
    };
    let features = support.features;
    let indexing = features.indexing;
    if !(indexing.storage_buffer_non_uniform_indexing && indexing.sampled_image_non_uniform_indexing
        && indexing.storage_buffer_update_after_bind && indexing.sampled_image_update_after_bind
        && indexing.partially_bound && indexing.runtime_descriptor_array) {
        return Err(
            GpuError::UnsupportedFeatures(Features { bits: FEATURE_DESCRIPTOR_INDEXING }),
        );
    }
    if needs_graphics && !features.dynamic_rendering {
        return Err(
            GpuError::Unsupported("Vulkan dynamic rendering feature is unavailable".to_owned()),
        );
    }
    let exposed = Features {
        bits: if needs_graphics {
            FEATURE_COMPUTE | FEATURE_DESCRIPTOR_INDEXING | FEATURE_GRAPHICS
        } else {
            FEATURE_COMPUTE | FEATURE_DESCRIPTOR_INDEXING
        },
    };
    let missing = req.required.difference(exposed);
    if !missing.is_empty() {
        return Err(GpuError::UnsupportedFeatures(missing));
    }
    let shader_atomic_float = supports_extension(&support.extensions, "VK_EXT_shader_atomic_float")
        && features.buffer_float32_atomic_add;
    if shader_atomic_float {
        extensions.push("VK_EXT_shader_atomic_float".to_owned());
    }
    assert(texts(extensions@) =~= with_name(
        second,
        shader_atomic_float,
        "VK_EXT_shader_atomic_float"@,
    ));
    Ok(
        DevicePlan {
            extensions,
            queue_family: family,
            limits: physical_device_limits(&support.limits, &support.families, family),
            features: exposed,
            graphics: needs_graphics,
            shader_atomic_float,
            dual_src_blend: needs_graphics && features.dual_src_blend,
            fill_mode_non_solid: needs_graphics && features.fill_mode_non_solid,
            sampler_anisotropy: needs_graphics && features.sampler_anisotropy,
        },
    )
}

/// Headless compute devices are not refused for want of anything that only graphics needs: only
/// the extensions that are asked for, the queue families and descriptor indexing count.
pub proof fn compute_ignores_graphics_support(
    support: PhysicalSupportView,
    other: PhysicalSupportView,
    required: Features,
    extra: Seq<Seq<char>>,
)
    requires
        forall|i: int|
            0 <= i < extra.len() ==> supports(support.extensions, #[trigger] extra[i])
                == supports(other.extensions, extra[i]),
        support.families == other.families,
        support.features.indexing == other.features.indexing,
    ensures
        device_fault(support, required, extra, false) == device_fault(
            other,
            required,
            extra,
            false,
        ),
{
    let n = extra.len() as int;
    let f = |i: int| !supports(support.extensions, extra[i]);
    let g = |i: int| !supports(other.extensions, extra[i]);
    search::lemma_first_below(f, n);
    search::lemma_first_below(g, n);
    assert forall|i: int| 0 <= i < n implies #[trigger] f(i) == g(i) by {
        assert(supports(support.extensions, extra[i]) == supports(other.extensions, extra[i]));
    }
    if let Some(i) = first_unavailable(extra, support.extensions) {
        assert(g(i));
    }
    if let Some(j) = first_unavailable(extra, other.extensions) {
        assert(f(j));
    }
}

/// A device that opens has every required feature.
pub proof fn required_features_are_met(
    support: PhysicalSupportView,
    required: Features,
    extra: Seq<Seq<char>>,
    needs_graphics: bool,
)
    requires
        device_fault(support, required, extra, needs_graphics) is None,
    ensures
        device_plan(support, extra, needs_graphics).features.has(required.bits),
{
    let r = required.bits;
    let e = exposed_features(needs_graphics).bits;
    assert(r & !e == 0 ==> e & r == r) by (bit_vector);
}

/// The family of a graphics device is the first that does both graphics and compute, or the
/// first that does graphics where none does both. The family of a compute device is the first
/// that computes and does no graphics, or the first that computes where none is without
/// graphics.
pub proof fn selected_family_is_preferred(families: Seq<QueueFamily>, needs_graphics: bool, j: int)
    requires
        0 <= j < families.len(),
    ensures
        ({
            let graphics = families[j].flags & 1 == 1;
            let compute = families[j].flags & 2 == 2;
            match selected_family(families, needs_graphics) {
                None => if needs_graphics {
                    !graphics
                } else {
                    !compute
                },
                Some(i) => {
                    let chosen_graphics = families[i].flags & 1 == 1;
                    let chosen_compute = families[i].flags & 2 == 2;
                    if needs_graphics {
                        &&& chosen_graphics
                        &&& graphics && compute ==> chosen_compute && i <= j
                        &&& !chosen_compute && graphics ==> i <= j
                    } else {
                        &&& chosen_compute
                        &&& compute && !graphics ==> !chosen_graphics && i <= j
                        &&& chosen_graphics && compute ==> i <= j
                    }
                },
            }
        }),
{
    let both = vk::QUEUE_GRAPHICS | vk::QUEUE_COMPUTE;
    let n = families.len() as int;
    let f1 = |i: int| family_fits(families, both, 0, i);
    let f2 = |i: int| family_fits(families, vk::QUEUE_GRAPHICS, 0, i);
    let f3 = |i: int| family_fits(families, vk::QUEUE_COMPUTE, vk::QUEUE_GRAPHICS, i);
    let f4 = |i: int| family_fits(families, vk::QUEUE_COMPUTE, 0, i);
    search::lemma_first_below(f1, n);
    search::lemma_first_below(f2, n);
    search::lemma_first_below(f3, n);
    search::lemma_first_below(f4, n);
    assert forall|x: u32| #[trigger] hal::has_flags(x, both) == (x & 1 == 1 && x & 2 == 2) by {
        assert(x & (0x1u32 | 0x2u32) == 0x1u32 | 0x2u32 <==> x & 1 == 1 && x & 2 == 2)
            by (bit_vector);
    }
    assert(f1(j) == (families[j].flags & 1 == 1 && families[j].flags & 2 == 2));
    assert(f2(j) == (families[j].flags & 1 == 1));
    assert(f3(j) == (families[j].flags & 2 == 2 && families[j].flags & 1 != 1));
    assert(f4(j) == (families[j].flags & 2 == 2));
    if let Some(i) = selected_family(families, needs_graphics) {
        assert(f1(i) == (families[i].flags & 1 == 1 && families[i].flags & 2 == 2));
        assert(f2(i) == (families[i].flags & 1 == 1));
        assert(f3(i) == (families[i].flags & 2 == 2 && families[i].flags & 1 != 1));
        assert(f4(i) == (families[i].flags & 2 == 2));
    }
}

/// The bindless tables are as large as the limits allow: a table smaller than its maximum is
/// bounded by the device, by the descriptors that one texture leaves for buffers, or by the
/// descriptors that the buffers leave for textures.
pub proof fn bindless_tables_are_largest(limits: DeviceLimits)
    requires
        limits.max_update_after_bind_descriptors > 0,
    ensures
        buffer_slots(limits) < 4096 ==> buffer_slots(limits) == limits.max_storage_buffers
            || buffer_slots(limits) == limits.max_update_after_bind_descriptors - 1,
        texture_slots(limits) < 1024 ==> texture_slots(limits) == limits.max_sampled_textures
            || texture_slots(limits) + buffer_slots(limits)
            == limits.max_update_after_bind_descriptors,
        0 <= buffer_slots(limits) <= 4096,
        0 <= texture_slots(limits) <= 1024,
        buffer_slots(limits) < limits.max_update_after_bind_descriptors,
{
}

/// Every limit of a device is the one that the physical device reports under its name.
/// Descriptors are bounded by the smaller of what a stage and what a set may hold, and
/// timestamps are supported where the queue has bits for them.
pub proof fn limits_are_the_reported_ones(
    reported: ReportedLimits,
    families: Seq<QueueFamily>,
    family: int,
)
    requires
        0 <= family < families.len(),
    ensures
        ({
            let limits = limits_of(reported, families, family);
            let storage = limits.max_storage_buffers;
            let sampled = limits.max_sampled_textures;
            &&& limits.max_workgroup_size == reported.max_compute_work_group_size
            &&& limits.max_workgroup_invocations == reported.max_compute_work_group_invocations
            &&& limits.max_dispatch_size == reported.max_compute_work_group_count
            &&& limits.max_storage_buffer_range == reported.max_storage_buffer_range
            &&& limits.max_push_constant_size == reported.max_push_constants_size
            &&& storage <= reported.max_per_stage_update_after_bind_storage_buffers
            &&& storage <= reported.max_set_update_after_bind_storage_buffers
            &&& storage == reported.max_per_stage_update_after_bind_storage_buffers || storage
                == reported.max_set_update_after_bind_storage_buffers
            &&& sampled <= reported.max_per_stage_update_after_bind_sampled_images
            &&& sampled <= reported.max_set_update_after_bind_sampled_images
            &&& sampled == reported.max_per_stage_update_after_bind_sampled_images || sampled
                == reported.max_set_update_after_bind_sampled_images
            &&& limits.max_update_after_bind_descriptors
                == reported.max_update_after_bind_descriptors_in_all_pools
            &&& limits.max_memory_allocations == reported.max_memory_allocation_count
            &&& limits.timestamp_supported <==> families[family].timestamp_valid_bits != 0
            &&& limits.timestamp_period_ns_bits == reported.timestamp_period_bits
        }),
{
}

/// A device opens exactly where everything that it needs is there: the extensions asked for, a
/// queue family, all of descriptor indexing, dynamic rendering for graphics, and no required
/// feature beyond compute, descriptor indexing and, for graphics, graphics.
pub proof fn device_opens_iff_supported(
    support: PhysicalSupportView,
    required: Features,
    extra: Seq<Seq<char>>,
    needs_graphics: bool,
)
    ensures
        device_fault(support, required, extra, needs_graphics) is None <==> {
            let indexing = support.features.indexing;
            let needed = if needs_graphics {
                1u32
            } else {
                2u32
            };
            &&& forall|i: int|
                0 <= i < extra.len() ==> support.extensions.contains(#[trigger] extra[i])
            &&& needs_graphics ==> support.extensions.contains("VK_KHR_dynamic_rendering"@)
            &&& exists|i: int|
                0 <= i < support.families.len() && (#[trigger] support.families[i]).flags & needed
                    == needed
            &&& indexing.storage_buffer_non_uniform_indexing
            &&& indexing.sampled_image_non_uniform_indexing
            &&& indexing.storage_buffer_update_after_bind
            &&& indexing.sampled_image_update_after_bind
            &&& indexing.partially_bound
            &&& indexing.runtime_descriptor_array
            &&& needs_graphics ==> support.features.dynamic_rendering
            &&& required.bits & 0x2 != 0 ==> needs_graphics
            &&& required.bits & !0x7u32 == 0
        },
{
    let n = extra.len() as int;
    let f = |i: int| !supports(support.extensions, extra[i]);
    search::lemma_first_below(f, n);
    assert forall|name: Seq<char>| #[trigger]
        supports(support.extensions, name) == support.extensions.contains(name) by {
        if support.extensions.contains(name) {
            let i = choose|i: int|
                0 <= i < support.extensions.len() && support.extensions[i] == name;
            assert(support.extensions[i] == name);
        }
    }
    assert forall|i: int| 0 <= i < n implies #[trigger] f(i) == !support.extensions.contains(
        extra[i],
    ) by {}
    if forall|i: int| 0 <= i < n ==> support.extensions.contains(#[trigger] extra[i]) {
        if let Some(i) = first_unavailable(extra, support.extensions) {
            assert(support.extensions.contains(extra[i]));
        }
    } else {
        let i = choose|i: int| 0 <= i < n && !support.extensions.contains(#[trigger] extra[i]);
        assert(f(i));
    }
    selected_family_supports_device(support.families, needs_graphics);
    if let Some(i) = selected_family(support.families, needs_graphics) {
        assert(support.families[i] == support.families[i]);
    }
    let r = required.bits;
    assert(0x1u32 | 0x4u32 == 5 && 0x1u32 | 0x4u32 | 0x2u32 == 7) by (bit_vector);
    assert(r & !7u32 == 0 ==> (r & !5u32 == 0 <==> r & 2 == 0)) by (bit_vector);
    assert(r & !5u32 == 0 ==> r & !7u32 == 0) by (bit_vector);
}

/// A device enables only extensions that it offers, and all that were asked for, in their
/// order. The portability subset is enabled wherever it is offered, dynamic rendering on
/// graphics devices, and float atomics where they are offered and the feature is there;
/// nothing else is enabled. Features that only graphics uses stay off on compute devices.
pub proof fn device_enables_what_is_offered(
    support: PhysicalSupportView,
    required: Features,
    extra: Seq<Seq<char>>,
    needs_graphics: bool,
)
    requires
        device_fault(support, required, extra, needs_graphics) is None,
    ensures
        ({
            let plan = device_plan(support, extra, needs_graphics);
            let offers_subset = support.extensions.contains("VK_KHR_portability_subset"@);
            let atomics = support.extensions.contains("VK_EXT_shader_atomic_float"@)
                && support.features.buffer_float32_atomic_add;
            &&& forall|i: int|
                0 <= i < plan.extensions.len() ==> support.extensions.contains(
                    #[trigger] plan.extensions[i],
                )
            &&& plan.extensions.take(extra.len() as int) == extra
            &&& plan.extensions.len() == extra.len() + if offers_subset {
                1int
            } else {
                0
            } + if needs_graphics {
                1int
            } else {
                0
            } + if atomics {
                1int
            } else {
                0
            }
            &&& offers_subset ==> plan.extensions.contains("VK_KHR_portability_subset"@)
            &&& needs_graphics ==> plan.extensions.contains("VK_KHR_dynamic_rendering"@)
            &&& atomics ==> plan.extensions.contains("VK_EXT_shader_atomic_float"@)
            &&& plan.shader_atomic_float <==> atomics
            &&& plan.dual_src_blend <==> needs_graphics && support.features.dual_src_blend
            &&& plan.fill_mode_non_solid <==> needs_graphics && support.features.fill_mode_non_solid
            &&& plan.sampler_anisotropy <==> needs_graphics && support.features.sampler_anisotropy
            &&& plan.graphics == needs_graphics
            &&& plan.features.bits == if needs_graphics {
                7u32
            } else {
                5u32
            }
            &&& selected_family(support.families, needs_graphics) == Some(plan.queue_family)
            &&& plan.limits == limits_of(support.limits, support.families, plan.queue_family)
        }),
{
    let plan = device_plan(support, extra, needs_graphics);
    device_opens_iff_supported(support, required, extra, needs_graphics);
    assert forall|name: Seq<char>| #[trigger]
        supports(support.extensions, name) == support.extensions.contains(name) by {
        if support.extensions.contains(name) {
            let i = choose|i: int|
                0 <= i < support.extensions.len() && support.extensions[i] == name;
            assert(support.extensions[i] == name);
        }
    }
    assert(0x1u32 | 0x4u32 == 5 && 0x1u32 | 0x4u32 | 0x2u32 == 7) by (bit_vector);
    let n = extra.len() as int;
    let a = supports(support.extensions, "VK_KHR_portability_subset"@);
    let first = with_name(extra, a, "VK_KHR_portability_subset"@);
    let second = with_name(first, needs_graphics, "VK_KHR_dynamic_rendering"@);
    assert(plan.extensions == with_name(
        second,
        has_atomic_float(support),
        "VK_EXT_shader_atomic_float"@,
    ));
    assert(plan.extensions.take(n) =~= extra);
    assert(a ==> plan.extensions[n] == "VK_KHR_portability_subset"@);
    assert(needs_graphics ==> plan.extensions[first.len() as int] == "VK_KHR_dynamic_rendering"@);
    assert(has_atomic_float(support) ==> plan.extensions[second.len() as int]
        == "VK_EXT_shader_atomic_float"@);
    assert forall|i: int| 0 <= i < plan.extensions.len() implies support.extensions.contains(
        #[trigger] plan.extensions[i],
    ) by {
        if i < n {
            assert(plan.extensions[i] == extra[i]);
        }
    }
}

} // verus!
