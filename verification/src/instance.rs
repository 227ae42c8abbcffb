//! Vulkan instance: extensions, layers and the choice of an adapter.
use vstd::prelude::*;
use vstd::string::StringExecFns;

use crate::device::selection;
use crate::device::selection::supports_extension;
use crate::error::{GpuError, GpuErrorView};
use crate::vk;

verus! {

/// Packed version number.
pub open spec fn packed_version(variant: u32, major: u32, minor: u32, patch: u32) -> u32 {
    (variant << 29u32) | (major << 22u32) | (minor << 12u32) | patch
}

fn api_version(variant: u32, major: u32, minor: u32, patch: u32) -> (version: u32)
    ensures
        version == packed_version(variant, major, minor, patch),
{
    (variant << 29u32) | (major << 22u32) | (minor << 12u32) | patch
}

/// Operating system that surfaces are created on.
#[derive(Clone, Copy, PartialEq, Eq, Structural, Debug)]
pub enum Platform {
    Windows,
    Linux,
    MacOs,
    Other,
}

/// What an instance is created with.
pub struct VulkanInstance {
    pub extensions: Vec<String>,
    pub layers: Vec<String>,
    /// Validation messages are logged.
    pub validation: bool,
    /// Devices that are not fully conforming are listed too.
    pub enumerate_portability: bool,
    /// Surfaces can be created.
    pub surface_extensions: bool,
    pub api_version: u32,
}

/// Mathematical form of a [`VulkanInstance`].
pub struct InstanceView {
    pub extensions: Seq<Seq<char>>,
    pub layers: Seq<Seq<char>>,
    pub validation: bool,
    pub enumerate_portability: bool,
    pub surface_extensions: bool,
    pub api_version: u32,
}

impl View for VulkanInstance {
    type V = InstanceView;

    open spec fn view(&self) -> InstanceView {
        InstanceView {
            extensions: selection::texts(self.extensions@),
            layers: selection::texts(self.layers@),
            validation: self.validation,
            enumerate_portability: self.enumerate_portability,
            surface_extensions: self.surface_extensions,
            api_version: self.api_version,
        }
    }
}

/// The validation layer is there and can report.
pub open spec fn validates(exts: Seq<Seq<char>>, layers: Seq<Seq<char>>) -> bool {
    selection::supports(layers, "VK_LAYER_KHRONOS_validation"@) && selection::supports(
        exts,
        "VK_EXT_debug_utils"@,
    )
}

/// Message for a missing extension.
pub open spec fn unavailable_text(name: Seq<char>) -> Seq<char> {
    "required Vulkan instance extension is unavailable: "@ + name
}

/// Why surfaces cannot be created, if they cannot.
pub open spec fn surface_fault(platform: Platform, exts: Seq<Seq<char>>) -> Option<GpuErrorView> {
    if !selection::supports(exts, "VK_KHR_surface"@) {
        Some(GpuErrorView::Backend(unavailable_text("VK_KHR_surface"@)))
    } else {
        match platform {
            Platform::Windows => if !selection::supports(exts, "VK_KHR_win32_surface"@) {
                Some(GpuErrorView::Backend(unavailable_text("VK_KHR_win32_surface"@)))
            } else {
                None
            },
            Platform::Linux => if !selection::supports(exts, "VK_KHR_xcb_surface"@)
                && !selection::supports(exts, "VK_KHR_wayland_surface"@) {
                Some(
                    GpuErrorView::Backend(
                        "Vulkan loader supports neither XCB nor Wayland surfaces"@,
                    ),
                )
            } else {
                None
            },
            Platform::MacOs => if !selection::supports(exts, "VK_MVK_macos_surface"@) {
                Some(GpuErrorView::Backend(unavailable_text("VK_MVK_macos_surface"@)))
            } else {
                None
            },
            Platform::Other => None,
        }
    }
}

/// Portability enumeration is wanted: only the surfaces of one platform need it.
pub open spec fn wants_portability(platform: Platform, surface: bool, exts: Seq<Seq<char>>) -> bool {
    surface && platform == Platform::MacOs && selection::supports(
        exts,
        "VK_KHR_portability_enumeration"@,
    )
}

/// Surface extensions of a platform.
pub open spec fn platform_extensions(platform: Platform, exts: Seq<Seq<char>>) -> Seq<Seq<char>> {
    let base = seq!["VK_KHR_surface"@];
    match platform {
        Platform::Windows => base.push("VK_KHR_win32_surface"@),
        Platform::Linux => selection::with_name(
            selection::with_name(
                base,
                selection::supports(exts, "VK_KHR_xcb_surface"@),
                "VK_KHR_xcb_surface"@,
            ),
            selection::supports(exts, "VK_KHR_wayland_surface"@),
            "VK_KHR_wayland_surface"@,
        ),
        Platform::MacOs => selection::with_name(
            base.push("VK_MVK_macos_surface"@),
            selection::supports(exts, "VK_KHR_portability_enumeration"@),
            "VK_KHR_portability_enumeration"@,
        ),
        Platform::Other => base,
    }
}

/// Extensions that an instance is created with: the one that validation reports through, then
/// those for surfaces.
pub open spec fn instance_extensions(
    platform: Platform,
    surface: bool,
    exts: Seq<Seq<char>>,
    layers: Seq<Seq<char>>,
) -> Seq<Seq<char>> {
    selection::with_name(Seq::empty(), validates(exts, layers), "VK_EXT_debug_utils"@) + (
    if surface {
        platform_extensions(platform, exts)
    } else {
        Seq::empty()
    })
}

/// Instance that is created.
pub open spec fn instance_plan(
    platform: Platform,
    surface: bool,
    exts: Seq<Seq<char>>,
    layers: Seq<Seq<char>>,
) -> InstanceView {
    InstanceView {
        extensions: instance_extensions(platform, surface, exts, layers),
        layers: selection::with_name(
            Seq::empty(),
            validates(exts, layers),
            "VK_LAYER_KHRONOS_validation"@,
        ),
        validation: validates(exts, layers),
        enumerate_portability: wants_portability(platform, surface, exts),
        surface_extensions: surface,
        api_version: packed_version(0, 1, 2, 0),
    }
}

fn unavailable(name: &str) -> (e: GpuError)
    ensures
        e@ == GpuErrorView::Backend(unavailable_text(name@)),
{
    let mut message = "required Vulkan instance extension is unavailable: ".to_owned();
    message.append(name);
    GpuError::Backend(message)
}

/// Appends `name` to `out`.
fn push_name(out: &mut Vec<String>, name: &str)
    ensures
        selection::texts(final(out)@) == selection::texts(old(out)@).push(name@),
{
    out.push(name.to_owned());
    assert(selection::texts(out@) =~= selection::texts(old(out)@).push(name@));
}

/// Appends the surface extensions of a platform.
fn push_surface_extensions(platform: Platform, exts: &Vec<String>, out: &mut Vec<String>) -> (r:
    Result<(), GpuError>)
    ensures
        match r {
            Ok(_) => surface_fault(platform, selection::texts(exts@)) is None && selection::texts(
                final(out)@,
            ) == selection::texts(old(out)@) + platform_extensions(
                platform,
                selection::texts(exts@),
            ),
            Err(e) => surface_fault(platform, selection::texts(exts@)) == Some(e@),
        },
{
    let ghost before = selection::texts(out@);
    if !supports_extension(exts, "VK_KHR_surface") {
        return Err(unavailable("VK_KHR_surface"));
    }
    push_name(out, "VK_KHR_surface");
    match platform {
        Platform::Windows => {
            if !supports_extension(exts, "VK_KHR_win32_surface") {
                return Err(unavailable("VK_KHR_win32_surface"));
            }
            push_name(out, "VK_KHR_win32_surface");
        },
        Platform::Linux => {
            let xcb = supports_extension(exts, "VK_KHR_xcb_surface");
            let wayland = supports_extension(exts, "VK_KHR_wayland_surface");
            if xcb {
                push_name(out, "VK_KHR_xcb_surface");
            }
            if wayland {
                push_name(out, "VK_KHR_wayland_surface");
            }
            if !xcb && !wayland {
                return Err(
                    GpuError::Backend(
                        "Vulkan loader supports neither XCB nor Wayland surfaces".to_owned(),
                    ),
                );
            }
        },
        Platform::MacOs => {
            if !supports_extension(exts, "VK_MVK_macos_surface") {
                return Err(unavailable("VK_MVK_macos_surface"));
            }
            push_name(out, "VK_MVK_macos_surface");
            if supports_extension(exts, "VK_KHR_portability_enumeration") {
                push_name(out, "VK_KHR_portability_enumeration");
            }
        },
        Platform::Other => {},
    }
    assert(selection::texts(out@) =~= before + platform_extensions(
        platform,
        selection::texts(exts@),
    ));
    Ok(())
}

/// Kind of a physical device.
#[derive(Clone, Copy, PartialEq, Eq, Structural, Debug)]
pub enum DeviceType {
    Discrete,
    Integrated,
    Cpu,
    Virtual,
    Unknown,
}

#[derive(Clone, Copy, PartialEq, Eq, Structural, Debug)]
pub enum PowerPreference {
    HighPerformance,
    LowPower,
}

/// Kind of a physical device with the given Vulkan device type.
pub open spec fn device_type_of(t: i32) -> DeviceType {
    if t == vk::PHYSICAL_DEVICE_TYPE_DISCRETE_GPU {
        DeviceType::Discrete
    } else if t == vk::PHYSICAL_DEVICE_TYPE_INTEGRATED_GPU {
        DeviceType::Integrated
    } else if t == vk::PHYSICAL_DEVICE_TYPE_CPU {
        DeviceType::Cpu
    } else if t == vk::PHYSICAL_DEVICE_TYPE_VIRTUAL_GPU {
        DeviceType::Virtual
    } else {
        DeviceType::Unknown
    }
}

pub fn vk_device_type(t: i32) -> (d: DeviceType)
    ensures
        d == device_type_of(t),
{
    if t == vk::PHYSICAL_DEVICE_TYPE_DISCRETE_GPU {
        DeviceType::Discrete
    } else if t == vk::PHYSICAL_DEVICE_TYPE_INTEGRATED_GPU {
        DeviceType::Integrated
    } else if t == vk::PHYSICAL_DEVICE_TYPE_CPU {
        DeviceType::Cpu
    } else if t == vk::PHYSICAL_DEVICE_TYPE_VIRTUAL_GPU {
        DeviceType::Virtual
    } else {
        DeviceType::Unknown
    }
}

/// What a physical device says of itself.
pub struct PhysicalProperties {
    pub name: String,
    pub vendor_id: u32,
    pub device_id: u32,
    pub device_type: i32,
}

/// Graphics interface that an adapter is driven through.
#[derive(Clone, Copy, PartialEq, Eq, Structural, Debug)]
pub enum BackendPreference {
    Vulkan,
}

/// Identity of an adapter.
pub struct AdapterInfo {
    pub name: String,
    pub vendor: u32,
    pub device: u32,
    pub device_type: DeviceType,
    pub backend: BackendPreference,
}

/// `info` is the identity of a physical device with properties `p`.
pub open spec fn describes(info: AdapterInfo, p: PhysicalProperties) -> bool {
    &&& info.name@ == p.name@
    &&& info.vendor == p.vendor_id
    &&& info.device == p.device_id
    &&& info.device_type == device_type_of(p.device_type)
    &&& info.backend == BackendPreference::Vulkan
}

/// Rank of a kind of device under a power preference.
pub open spec fn score_of(t: DeviceType, pref: PowerPreference) -> u32 {
    match (t, pref) {
        (DeviceType::Discrete, PowerPreference::HighPerformance) => 3,
        (DeviceType::Integrated, PowerPreference::LowPower) => 3,
        (DeviceType::Discrete, PowerPreference::LowPower) => 2,
        (DeviceType::Integrated, PowerPreference::HighPerformance) => 1,
        _ => 0,
    }
}

pub fn type_score(t: DeviceType, pref: PowerPreference) -> (score: u32)
    ensures
        score == score_of(t, pref),
{
    match (t, pref) {
        (DeviceType::Discrete, PowerPreference::HighPerformance) => 3,
        (DeviceType::Integrated, PowerPreference::LowPower) => 3,
        (DeviceType::Discrete, PowerPreference::LowPower) => 2,
        (DeviceType::Integrated, PowerPreference::HighPerformance) => 1,
        _ => 0,
    }
}

/// No adapter ranks above the one at `i`.
pub open spec fn top_ranked(types: Seq<DeviceType>, pref: PowerPreference, i: int) -> bool {
    0 <= i < types.len() && forall|j: int|
        0 <= j < types.len() ==> score_of(#[trigger] types[j], pref) <= score_of(types[i], pref)
}

impl VulkanInstance {
    /// Decides what an instance is created with, from the extensions and layers on offer.
    fn create(platform: Platform, surface_extensions: bool, exts: &Vec<String>, layers: &Vec<
        String,
    >) -> (r: Result<Self, GpuError>)
        ensures
            match r {
                Ok(plan) => (surface_extensions ==> surface_fault(
                    platform,
                    selection::texts(exts@),
                ) is None) && plan@ == instance_plan(
                    platform,
                    surface_extensions,
                    selection::texts(exts@),
                    selection::texts(layers@),
                ),
                Err(e) => surface_extensions && surface_fault(platform, selection::texts(exts@))
                    == Some(e@),
            },
    {
        let ghost offered = selection::texts(exts@);
        let ghost listed = selection::texts(layers@);
        let validation = supports_extension(layers, "VK_LAYER_KHRONOS_validation")
            && supports_extension(exts, "VK_EXT_debug_utils");
        let mut ext_names: Vec<String> = Vec::new();
        let mut layer_names: Vec<String> = Vec::new();
        assert(selection::texts(ext_names@) =~= Seq::<Seq<char>>::empty());
        assert(selection::texts(layer_names@) =~= Seq::<Seq<char>>::empty());
        if validation {
            push_name(&mut layer_names, "VK_LAYER_KHRONOS_validation");
            push_name(&mut ext_names, "VK_EXT_debug_utils");
        }
        let mut enumerate_portability = false;
        if surface_extensions {
            if let Err(e) = push_surface_extensions(platform, exts, &mut ext_names) {
                return Err(e);
            }
            enumerate_portability = platform == Platform::MacOs && supports_extension(
                exts,
                "VK_KHR_portability_enumeration",
            );
        }
        assert(selection::texts(ext_names@) =~= instance_extensions(
            platform,
            surface_extensions,
            offered,
            listed,
        ));
        Ok(
            VulkanInstance {
                extensions: ext_names,
                layers: layer_names,
                validation,
                enumerate_portability,
                surface_extensions,
                api_version: api_version(0, 1, 2, 0),
            },
        )
    }

    /// Compute-only instance, without surface extensions.
    pub fn new(platform: Platform, exts: &Vec<String>, layers: &Vec<String>) -> (r: Result<
        Self,
        GpuError,
    >)
        ensures
            r is Ok,
            r->Ok_0@ == instance_plan(
                platform,
                false,
                selection::texts(exts@),
                selection::texts(layers@),
            ),
    {
        VulkanInstance::create(platform, false, exts, layers)
    }

    /// Instance with surface extensions, which presenting to windows needs.
    pub fn new_with_surface(platform: Platform, exts: &Vec<String>, layers: &Vec<String>) -> (r:
        Result<Self, GpuError>)
        ensures
            match r {
                Ok(plan) => surface_fault(platform, selection::texts(exts@)) is None && plan@
                    == instance_plan(
                    platform,
                    true,
                    selection::texts(exts@),
                    selection::texts(layers@),
                ),
                Err(e) => surface_fault(platform, selection::texts(exts@)) == Some(e@),
            },
    {
        VulkanInstance::create(platform, true, exts, layers)
    }

    /// Identities of the physical devices, in their order.
    pub fn enumerate_adapters(&self, props: &Vec<PhysicalProperties>) -> (infos: Vec<AdapterInfo>)
        ensures
            infos.len() == props.len(),
            forall|i: int| 0 <= i < infos.len() ==> describes(#[trigger] infos@[i], props@[i]),
    {
        let mut infos: Vec<AdapterInfo> = Vec::new();
        let n: usize = props.len();
        let mut i: usize = 0;
        while i < n
            invariant
                n == props.len(),
                i <= n,
                infos.len() == i,
                forall|j: int| 0 <= j < i ==> describes(#[trigger] infos@[j], props@[j]),
            decreases n - i,
        {
            let p = &props[i];
            infos.push(
                AdapterInfo {
                    name: p.name.as_str().to_owned(),
                    vendor: p.vendor_id,
                    device: p.device_id,
                    device_type: vk_device_type(p.device_type),
                    backend: BackendPreference::Vulkan,
                },
            );
            i += 1;
        }
        infos
    }

    /// Best adapter for performance among physical devices of the given kinds.
    pub fn request_vulkan_adapter(&self, types: &Vec<DeviceType>) -> (r: Option<usize>)
        ensures
            match r {
                Some(i) => top_ranked(types@, PowerPreference::HighPerformance, i as int)
                    && forall|j: int|
                    i < j < types.len() ==> score_of(
                        #[trigger] types@[j],
                        PowerPreference::HighPerformance,
                    ) < score_of(types@[i as int], PowerPreference::HighPerformance),
                None => types.len() == 0,
            },
    {
        self.request_vulkan_adapter_with_pref(types, PowerPreference::HighPerformance)
    }

    /// Best adapter under a power preference: discrete beats integrated for performance, and
    /// integrated beats discrete for low power. Among equals the last one is taken.
    pub fn request_vulkan_adapter_with_pref(&self, types: &Vec<DeviceType>, pref: PowerPreference) -> (r:
        Option<usize>)
        ensures
            match r {
                Some(i) => top_ranked(types@, pref, i as int) && forall|j: int|
                    i < j < types.len() ==> score_of(#[trigger] types@[j], pref) < score_of(
                        types@[i as int],
                        pref,
                    ),
                None => types.len() == 0,
            },
    {
        let n: usize = types.len();
        if n == 0 {
            return None;
        }
        let mut best: usize = 0;
        let mut i: usize = 1;
        while i < n
            invariant
                n == types.len(),
                best < i <= n,
                forall|j: int|
                    0 <= j < i ==> score_of(#[trigger] types@[j], pref) <= score_of(
                        types@[best as int],
                        pref,
                    ),
                forall|j: int|
                    best < j < i ==> score_of(#[trigger] types@[j], pref) < score_of(
                        types@[best as int],
                        pref,
                    ),
            decreases n - i,
        {
            if type_score(types[i], pref) >= type_score(types[best], pref) {
                best = i;
            }
            i += 1;
        }
        Some(best)
    }

    /// Adapter for a request with a power preference. Among equals the first one is taken.
    pub fn request_adapter(&self, types: &Vec<DeviceType>, pref: PowerPreference) -> (r: Option<
        usize,
    >)
        ensures
            match r {
                Some(i) => top_ranked(types@, pref, i as int) && forall|j: int|
                    0 <= j < i ==> score_of(#[trigger] types@[j], pref) < score_of(
                        types@[i as int],
                        pref,
                    ),
                None => types.len() == 0,
            },
    {
        let n: usize = types.len();
        if n == 0 {
            return None;
        }
        let mut best: usize = 0;
        let mut i: usize = 1;
        while i < n
            invariant
                n == types.len(),
                best < i <= n,
                forall|j: int|
                    0 <= j < i ==> score_of(#[trigger] types@[j], pref) <= score_of(
                        types@[best as int],
                        pref,
                    ),
                forall|j: int|
                    0 <= j < best ==> score_of(#[trigger] types@[j], pref) < score_of(
                        types@[best as int],
                        pref,
                    ),
            decreases n - i,
        {
            if type_score(types[i], pref) > type_score(types[best], pref) {
                best = i;
            }
            i += 1;
        }
        Some(best)
    }
}

/// A discrete device outranks an integrated one for performance, and is outranked by it for
/// low power; both outrank every other kind.
pub proof fn ranking_follows_preference(other: DeviceType)
    requires
        other != DeviceType::Discrete,
        other != DeviceType::Integrated,
    ensures
        score_of(DeviceType::Discrete, PowerPreference::HighPerformance) > score_of(
            DeviceType::Integrated,
            PowerPreference::HighPerformance,
        ),
        score_of(DeviceType::Integrated, PowerPreference::LowPower) > score_of(
            DeviceType::Discrete,
            PowerPreference::LowPower,
        ),
        score_of(DeviceType::Integrated, PowerPreference::HighPerformance) > score_of(
            other,
            PowerPreference::HighPerformance,
        ),
        score_of(DeviceType::Discrete, PowerPreference::LowPower) > score_of(
            other,
            PowerPreference::LowPower,
        ),
{
}

/// The kind of a physical device is the name of its Vulkan type, and no other.
pub proof fn kind_names_vulkan_type(t: i32)
    ensures
        device_type_of(t) is Discrete <==> t == vk::PHYSICAL_DEVICE_TYPE_DISCRETE_GPU,
        device_type_of(t) is Integrated <==> t == vk::PHYSICAL_DEVICE_TYPE_INTEGRATED_GPU,
        device_type_of(t) is Cpu <==> t == vk::PHYSICAL_DEVICE_TYPE_CPU,
        device_type_of(t) is Virtual <==> t == vk::PHYSICAL_DEVICE_TYPE_VIRTUAL_GPU,
{
}

/// Some device has the Vulkan type `t`.
pub open spec fn any_of_type(types: Seq<i32>, t: i32) -> bool {
    exists|j: int| 0 <= j < types.len() && #[trigger] types[j] == t
}

/// The best adapter, by Vulkan type. For performance it is a discrete GPU whenever there is
/// one, and else an integrated GPU whenever there is one; for low power the two change places.
/// A device of any other type, such as a CPU, is taken only where there is neither.
pub proof fn best_adapter_by_vulkan_type(
    types: Seq<i32>,
    kinds: Seq<DeviceType>,
    pref: PowerPreference,
    best: int,
)
    requires
        kinds.len() == types.len(),
        forall|j: int| 0 <= j < types.len() ==> #[trigger] kinds[j] == device_type_of(types[j]),
        top_ranked(kinds, pref, best),
    ensures
        pref is HighPerformance && any_of_type(types, vk::PHYSICAL_DEVICE_TYPE_DISCRETE_GPU)
            ==> types[best] == vk::PHYSICAL_DEVICE_TYPE_DISCRETE_GPU,
        pref is HighPerformance && !any_of_type(types, vk::PHYSICAL_DEVICE_TYPE_DISCRETE_GPU)
            && any_of_type(types, vk::PHYSICAL_DEVICE_TYPE_INTEGRATED_GPU) ==> types[best]
            == vk::PHYSICAL_DEVICE_TYPE_INTEGRATED_GPU,
        pref is LowPower && any_of_type(types, vk::PHYSICAL_DEVICE_TYPE_INTEGRATED_GPU)
            ==> types[best] == vk::PHYSICAL_DEVICE_TYPE_INTEGRATED_GPU,
        pref is LowPower && !any_of_type(types, vk::PHYSICAL_DEVICE_TYPE_INTEGRATED_GPU)
            && any_of_type(types, vk::PHYSICAL_DEVICE_TYPE_DISCRETE_GPU) ==> types[best]
            == vk::PHYSICAL_DEVICE_TYPE_DISCRETE_GPU,
        types[best] == vk::PHYSICAL_DEVICE_TYPE_CPU ==> !any_of_type(
            types,
            vk::PHYSICAL_DEVICE_TYPE_DISCRETE_GPU,
        ) && !any_of_type(types, vk::PHYSICAL_DEVICE_TYPE_INTEGRATED_GPU),
{
    assert(kinds[best] == device_type_of(types[best]));
    assert forall|j: int| 0 <= j < types.len() implies score_of(
        device_type_of(#[trigger] types[j]),
        pref,
    ) <= score_of(device_type_of(types[best]), pref) by {
        assert(kinds[j] == device_type_of(types[j]));
    }
}

/// Kinds other than discrete and integrated are all of one rank, so that among them only the
/// order of the devices decides.
pub proof fn other_kinds_rank_alike(a: i32, b: i32, pref: PowerPreference)
    requires
        a != vk::PHYSICAL_DEVICE_TYPE_DISCRETE_GPU,
        a != vk::PHYSICAL_DEVICE_TYPE_INTEGRATED_GPU,
        b != vk::PHYSICAL_DEVICE_TYPE_DISCRETE_GPU,
        b != vk::PHYSICAL_DEVICE_TYPE_INTEGRATED_GPU,
    ensures
        score_of(device_type_of(a), pref) == score_of(device_type_of(b), pref),
{
}

/// The identity of an adapter tells the name, the two numbers and the Vulkan type of its
/// device, each in its own place.
pub proof fn identity_is_of_the_device(info: AdapterInfo, p: PhysicalProperties)
    requires
        describes(info, p),
    ensures
        info.name@ == p.name@,
        info.vendor == p.vendor_id,
        info.device == p.device_id,
        info.device_type is Discrete <==> p.device_type == 2,
        info.device_type is Integrated <==> p.device_type == 1,
        info.device_type is Virtual <==> p.device_type == 3,
        info.device_type is Cpu <==> p.device_type == 4,
        info.backend is Vulkan,
{
}

/// A version number is read back from its packed form.
pub proof fn version_round_trips(variant: u32, major: u32, minor: u32, patch: u32)
    requires
        variant < 0x8,
        major < 0x80,
        minor < 0x400,
        patch < 0x1000,
    ensures
        packed_version(variant, major, minor, patch) == variant * 0x2000_0000 + major * 0x40_0000
            + minor * 0x1000 + patch,
{
    assert((variant << 29u32) | (major << 22u32) | (minor << 12u32) | patch == variant * 0x2000_0000
        + major * 0x40_0000 + minor * 0x1000 + patch) by (bit_vector)
        requires
            variant < 0x8,
            major < 0x80,
            minor < 0x400,
            patch < 0x1000,
    ;
}

/// An instance asks for nothing that is not on offer, and for Vulkan 1.2. It validates if and
/// only if the validation layer and the extension that it reports through are both on offer,
/// and then both are asked for. Without surfaces it asks for nothing else. With surfaces it
/// asks for the surface extension, and for one at least of the platform's own; portability is
/// enumerated on macOS alone.
pub proof fn instance_asks_for_what_is_offered(
    platform: Platform,
    surface: bool,
    exts: Seq<Seq<char>>,
    layers: Seq<Seq<char>>,
)
    requires
        surface ==> surface_fault(platform, exts) is None,
    ensures
        ({
            let plan = instance_plan(platform, surface, exts, layers);
            let both = layers.contains("VK_LAYER_KHRONOS_validation"@) && exts.contains(
                "VK_EXT_debug_utils"@,
            );
            &&& forall|i: int|
                0 <= i < plan.extensions.len() ==> exts.contains(#[trigger] plan.extensions[i])
            &&& forall|i: int|
                0 <= i < plan.layers.len() ==> layers.contains(#[trigger] plan.layers[i])
            &&& plan.validation <==> both
            &&& plan.layers == if both {
                seq!["VK_LAYER_KHRONOS_validation"@]
            } else {
                Seq::<Seq<char>>::empty()
            }
            &&& both ==> plan.extensions.len() > 0 && plan.extensions[0] == "VK_EXT_debug_utils"@
            &&& !surface ==> plan.extensions.len() == if both {
                1nat
            } else {
                0nat
            }
            &&& surface ==> plan.extensions.contains("VK_KHR_surface"@)
            &&& surface && platform is Windows ==> plan.extensions.contains(
                "VK_KHR_win32_surface"@,
            )
            &&& surface && platform is Linux ==> {
                &&& plan.extensions.contains("VK_KHR_xcb_surface"@) || plan.extensions.contains(
                    "VK_KHR_wayland_surface"@,
                )
                &&& exts.contains("VK_KHR_xcb_surface"@) ==> plan.extensions.contains(
                    "VK_KHR_xcb_surface"@,
                )
                &&& exts.contains("VK_KHR_wayland_surface"@) ==> plan.extensions.contains(
                    "VK_KHR_wayland_surface"@,
                )
            }
            &&& surface && platform is MacOs ==> plan.extensions.contains("VK_MVK_macos_surface"@)
            &&& plan.enumerate_portability <==> surface && platform is MacOs && exts.contains(
                "VK_KHR_portability_enumeration"@,
            )
            &&& plan.enumerate_portability ==> plan.extensions.contains(
                "VK_KHR_portability_enumeration"@,
            )
            &&& plan.surface_extensions == surface
            &&& plan.api_version == 0x40_2000
        }),
{
    let plan = instance_plan(platform, surface, exts, layers);
    version_round_trips(0, 1, 2, 0);
    lemma_supports_contains(exts, "VK_EXT_debug_utils"@);
    lemma_supports_contains(layers, "VK_LAYER_KHRONOS_validation"@);
    lemma_supports_contains(exts, "VK_KHR_surface"@);
    lemma_supports_contains(exts, "VK_KHR_win32_surface"@);
    lemma_supports_contains(exts, "VK_KHR_xcb_surface"@);
    lemma_supports_contains(exts, "VK_KHR_wayland_surface"@);
    lemma_supports_contains(exts, "VK_MVK_macos_surface"@);
    lemma_supports_contains(exts, "VK_KHR_portability_enumeration"@);
    let head = selection::with_name(Seq::empty(), validates(exts, layers), "VK_EXT_debug_utils"@);
    if surface {
        let tail = platform_extensions(platform, exts);
        let at = head.len() as int;
        assert(plan.extensions == head + tail);
        assert(plan.extensions[at] == "VK_KHR_surface"@);
        assert(tail.len() > 1 ==> plan.extensions[at + 1] == tail[1]);
        assert(tail.len() > 2 ==> plan.extensions[at + 2] == tail[2]);
        assert forall|i: int| 0 <= i < plan.extensions.len() implies exts.contains(
            #[trigger] plan.extensions[i],
        ) by {
            if i >= at {
                assert(plan.extensions[i] == tail[i - at]);
                assert(tail.len() <= 3);
            } else {
                assert(plan.extensions[i] == head[i]);
            }
        }
    } else {
        assert(plan.extensions =~= head);
    }
}

proof fn lemma_supports_contains(list: Seq<Seq<char>>, name: Seq<char>)
    ensures
        selection::supports(list, name) == list.contains(name),
{
    if list.contains(name) {
        let i = choose|i: int| 0 <= i < list.len() && list[i] == name;
        assert(list[i] == name);
    }
}

/// Surfaces are refused exactly where the loader lacks the surface extension, or all of the
/// platform's own; the reason names what is lacking.
pub proof fn surfaces_need_their_extensions(platform: Platform, exts: Seq<Seq<char>>)
    ensures
        surface_fault(platform, exts) is None <==> exts.contains("VK_KHR_surface"@) && match platform {
            Platform::Windows => exts.contains("VK_KHR_win32_surface"@),
            Platform::Linux => exts.contains("VK_KHR_xcb_surface"@) || exts.contains(
                "VK_KHR_wayland_surface"@,
            ),
            Platform::MacOs => exts.contains("VK_MVK_macos_surface"@),
            Platform::Other => true,
        },
        !exts.contains("VK_KHR_surface"@) ==> surface_fault(platform, exts) == Some(
            GpuErrorView::Backend(
                "required Vulkan instance extension is unavailable: "@ + "VK_KHR_surface"@,
            ),
        ),
        surface_fault(platform, exts) matches Some(e) ==> e is Backend,
{
    lemma_supports_contains(exts, "VK_KHR_surface"@);
    lemma_supports_contains(exts, "VK_KHR_win32_surface"@);
    lemma_supports_contains(exts, "VK_KHR_xcb_surface"@);
    lemma_supports_contains(exts, "VK_KHR_wayland_surface"@);
    lemma_supports_contains(exts, "VK_MVK_macos_surface"@);
}

/// A top-ranked adapter is one of those on offer, and none of the others outranks it. Where one
/// adapter outranks all others, it is the only one.
pub proof fn top_ranked_is_on_offer(types: Seq<DeviceType>, pref: PowerPreference, i: int, j: int)
    requires
        top_ranked(types, pref, i),
        0 <= j < types.len(),
    ensures
        0 <= i < types.len(),
        !(score_of(types[j], pref) > score_of(types[i], pref)),
        top_ranked(types, pref, j) ==> score_of(types[i], pref) == score_of(types[j], pref),
{
}

} // verus!
