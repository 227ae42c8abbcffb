//! Slot maps, formats, errors, instances and device selection.
use zengpu_vulkan::device::buffers;
use zengpu_vulkan::device::formats;
use zengpu_vulkan::device::selection;
use zengpu_vulkan::device::selection::QueueFamily;
use zengpu_vulkan::error;
use zengpu_vulkan::error::{GpuError, SurfaceError};
use zengpu_vulkan::hal::{
    AddressMode, BlendComponent, BlendFactor, BlendMode, BlendOp, BufferUsage, CompareFn,
    FilterMode, Format, MemoryUsage, TextureUsage,
    BUFFER_INDEX, BUFFER_INDIRECT, BUFFER_READBACK, BUFFER_STORAGE, BUFFER_TRANSFER_DST,
    BUFFER_TRANSFER_SRC, BUFFER_UNIFORM, BUFFER_VERTEX, TEXTURE_RENDER_TARGET, TEXTURE_SAMPLED,
};
use zengpu_vulkan::instance::{
    type_score, vk_device_type, BackendPreference, DeviceType, PhysicalProperties, Platform,
    PowerPreference, VulkanInstance,
};
use zengpu_vulkan::slot_map::SlotMap;
use zengpu_vulkan::text;
use zengpu_vulkan::vk;
use zengpu_vulkan::{from_vk_format, to_vk_format};

struct Tag;

fn names(list: &[&str]) -> Vec<String> {
    list.iter().map(|s| s.to_string()).collect()
}

// ── Slot map ───────────────────────────────────────────────────────────────────

#[test]
fn removed_slots_come_back_under_a_new_generation() {
    let mut map: SlotMap<Tag, u32> = SlotMap::new();
    let a = map.insert(10);
    let b = map.insert(20);
    assert_eq!((a.index(), a.generation(), b.index()), (0, 0, 1));
    assert_eq!(map.remove(a), Some(10));
    assert_eq!(map.get(a), None);
    assert_eq!(map.remove(a), None);
    let c = map.insert(30);
    assert_eq!((c.index(), c.generation()), (0, 1));
    assert_eq!((map.get(a), map.get(b), map.get(c)), (None, Some(20), Some(30)));
    assert!(!a.same(&c));
    assert_eq!(map.all(), [30, 20]);
    assert_eq!(map.get_by_slot_index(0), Some(30));
    assert_eq!((map.generation_at(0), map.generation_at(9)), (Some(1), None));
    assert!(map.replace(c, 31));
    assert!(!map.replace(a, 32));
    assert_eq!(map.get(c), Some(31));
}

#[test]
fn retired_slots_wait_to_be_released() {
    let mut map: SlotMap<Tag, u32> = SlotMap::new();
    let a = map.insert(10);
    assert_eq!(map.retire(a), Some(10));
    assert_eq!(map.get(a), None);
    assert_eq!(map.next_index(), 1);
    let b = map.insert(20);
    assert_eq!(b.index(), 1);
    map.release_retired(1);
    assert_eq!(map.get(b), Some(20));
    map.release_retired(0);
    assert_eq!(map.next_index(), 0);
    assert!(map.has_room());
    assert!(map.has_room_for(u32::MAX as u64 - 1));
    assert!(!map.has_room_for(u32::MAX as u64 + 1));
    assert_eq!(map.insert(30).generation(), 1);
}

// ── Formats ────────────────────────────────────────────────────────────────────

#[test]
fn formats_convert_both_ways() {
    let all = [
        (Format::Rgba8Unorm, ash::vk::Format::R8G8B8A8_UNORM),
        (Format::Rgba8UnormSrgb, ash::vk::Format::R8G8B8A8_SRGB),
        (Format::Bgra8Unorm, ash::vk::Format::B8G8R8A8_UNORM),
        (Format::Bgra8UnormSrgb, ash::vk::Format::B8G8R8A8_SRGB),
        (Format::R32Float, ash::vk::Format::R32_SFLOAT),
        (Format::Depth32Float, ash::vk::Format::D32_SFLOAT),
        (Format::Depth24PlusStencil8, ash::vk::Format::D24_UNORM_S8_UINT),
    ];
    for (f, v) in all {
        assert_eq!(to_vk_format(f), v.as_raw());
        assert_eq!(from_vk_format(v.as_raw()), Some(f));
    }
    assert_eq!(from_vk_format(ash::vk::Format::R16_SFLOAT.as_raw()), None);
}

#[test]
fn usages_convert_flag_by_flag() {
    let b = |bits: u32| formats::buffer_usage_to_vk(BufferUsage { bits });
    let f = ash::vk::BufferUsageFlags::STORAGE_BUFFER | ash::vk::BufferUsageFlags::INDEX_BUFFER;
    assert_eq!(b(BUFFER_STORAGE | BUFFER_INDEX) & f.as_raw(), f.as_raw());
    assert_ne!(b(BUFFER_UNIFORM) & ash::vk::BufferUsageFlags::UNIFORM_BUFFER.as_raw(), 0);
    assert_ne!(b(BUFFER_VERTEX) & ash::vk::BufferUsageFlags::VERTEX_BUFFER.as_raw(), 0);
    assert_ne!(b(BUFFER_INDIRECT) & ash::vk::BufferUsageFlags::INDIRECT_BUFFER.as_raw(), 0);
    assert_ne!(b(BUFFER_TRANSFER_SRC) & ash::vk::BufferUsageFlags::TRANSFER_SRC.as_raw(), 0);
    assert_ne!(b(BUFFER_TRANSFER_DST) & ash::vk::BufferUsageFlags::TRANSFER_DST.as_raw(), 0);
    assert_ne!(b(BUFFER_READBACK), 0);
    let t = formats::texture_usage_to_vk(TextureUsage {
        bits: TEXTURE_SAMPLED | TEXTURE_RENDER_TARGET,
    });
    let wanted =
        ash::vk::ImageUsageFlags::SAMPLED | ash::vk::ImageUsageFlags::COLOR_ATTACHMENT;
    assert_eq!(t & wanted.as_raw(), wanted.as_raw());
}

#[test]
fn tables_map_to_vulkan_names() {
    assert_eq!(
        formats::filter_to_vk(FilterMode::Linear),
        ash::vk::Filter::LINEAR.as_raw()
    );
    assert_eq!(
        formats::address_to_vk(AddressMode::MirrorRepeat),
        ash::vk::SamplerAddressMode::MIRRORED_REPEAT.as_raw()
    );
    assert_eq!(
        formats::compare_fn_to_vk(CompareFn::GreaterEqual),
        ash::vk::CompareOp::GREATER_OR_EQUAL.as_raw()
    );
    assert_eq!(
        formats::sample_count_to_vk(4),
        ash::vk::SampleCountFlags::TYPE_4.as_raw()
    );
    assert_eq!(
        formats::sample_count_to_vk(3),
        ash::vk::SampleCountFlags::TYPE_1.as_raw()
    );
    assert!(!formats::blend_mode_to_vk(BlendMode::Opaque).blend_enable);
    assert!(formats::blend_mode_to_vk(BlendMode::AlphaBlend).blend_enable);
    assert_eq!(
        formats::blend_component_to_vk(BlendComponent {
            src_factor: BlendFactor::SrcAlpha,
            dst_factor: BlendFactor::OneMinusSrcAlpha,
            op: BlendOp::Add,
        }),
        (
            ash::vk::BlendFactor::SRC_ALPHA.as_raw(),
            ash::vk::BlendFactor::ONE_MINUS_SRC_ALPHA.as_raw(),
            ash::vk::BlendOp::ADD.as_raw(),
        )
    );
}

#[test]
fn memory_types_are_tried_in_order() {
    let local = vk::MEMORY_PROPERTY_DEVICE_LOCAL;
    let host = vk::MEMORY_PROPERTY_HOST_VISIBLE | vk::MEMORY_PROPERTY_HOST_COHERENT;
    let types = vec![local, host, local | host];
    assert_eq!(buffers::find_memory_type(&types, 0x7, local), Some(0));
    assert_eq!(buffers::find_memory_type(&types, 0x6, local), Some(2));
    assert_eq!(buffers::find_memory_type(&types, 0x1, host), None);
    assert_eq!(buffers::find_usage_memory_type(&types, 0x7, MemoryUsage::GpuOnly), Some(0));
    assert!(buffers::find_usage_memory_type(&types, 0x7, MemoryUsage::Readback).is_some());
}

// ── Errors ─────────────────────────────────────────────────────────────────────

#[test]
fn result_codes_are_told_apart() {
    let lost = ash::vk::Result::ERROR_DEVICE_LOST.as_raw();
    let host = ash::vk::Result::ERROR_OUT_OF_HOST_MEMORY.as_raw();
    let local = ash::vk::Result::ERROR_OUT_OF_DEVICE_MEMORY.as_raw();
    let other = ash::vk::Result::ERROR_FEATURE_NOT_PRESENT;
    assert!(matches!(error::map_vk_err("op", lost), GpuError::DeviceLost));
    assert!(matches!(
        error::map_vk_err("op", host),
        GpuError::OutOfMemory(MemoryUsage::Upload)
    ));
    assert!(matches!(
        error::map_vk_err("op", local),
        GpuError::OutOfMemory(MemoryUsage::GpuOnly)
    ));
    match error::map_vk_err("op", other.as_raw()) {
        GpuError::Backend(text) => assert_eq!(text, format!("op: {other}")),
        _ => panic!("other error"),
    }
    assert!(matches!(
        error::map_surface_err(ash::vk::Result::ERROR_OUT_OF_DATE_KHR.as_raw()),
        GpuError::Surface(SurfaceError::Outdated)
    ));
    assert!(matches!(
        error::map_surface_err(ash::vk::Result::ERROR_SURFACE_LOST_KHR.as_raw()),
        GpuError::Surface(SurfaceError::Lost)
    ));
    assert!(matches!(
        error::map_surface_err(local),
        GpuError::Surface(SurfaceError::OutOfMemory)
    ));
    assert!(matches!(error::map_surface_err(lost), GpuError::DeviceLost));
    assert_eq!(error::failed_call("a", "b"), "a: b");
    assert_eq!(
        error::vk_failure("call", 12345),
        format!("call: {}", ash::vk::Result::from_raw(12345))
    );
}

#[test]
fn numbers_are_decimal() {
    assert_eq!(text::decimal(0), "0");
    assert_eq!(text::decimal(u64::MAX), "18446744073709551615");
    assert_eq!(text::triple(&[1, 20, 300]), "[1, 20, 300]");
}

// ── Instances and devices ──────────────────────────────────────────────────────

fn known(name: &core::ffi::CStr) -> &str {
    name.to_str().unwrap()
}

#[test]
fn instances_enable_what_they_need() {
    let surface = known(ash::khr::surface::NAME);
    let xcb = known(ash::khr::xcb_surface::NAME);
    let wayland = known(ash::khr::wayland_surface::NAME);
    let debug = known(ash::ext::debug_utils::NAME);
    let exts = names(&[surface, wayland, debug, xcb]);
    let layers = names(&["VK_LAYER_KHRONOS_validation"]);
    let plain = VulkanInstance::new(Platform::Linux, &exts, &layers).unwrap();
    assert_eq!(plain.extensions, [debug]);
    assert_eq!(plain.layers, layers);
    assert!(plain.validation && !plain.surface_extensions);
    assert_eq!(plain.api_version, ash::vk::API_VERSION_1_2);
    let full = VulkanInstance::new_with_surface(Platform::Linux, &exts, &vec![]).unwrap();
    assert_eq!(full.extensions, [surface, xcb, wayland]);
    assert!(!full.validation && full.surface_extensions && !full.enumerate_portability);
    let mac = names(&[
        surface,
        known(ash::mvk::macos_surface::NAME),
        known(ash::khr::portability_enumeration::NAME),
    ]);
    let portable = VulkanInstance::new_with_surface(Platform::MacOs, &mac, &vec![]).unwrap();
    assert_eq!(portable.extensions, mac);
    assert!(portable.enumerate_portability);
    let win = names(&[surface, known(ash::khr::win32_surface::NAME)]);
    let windows = VulkanInstance::new_with_surface(Platform::Windows, &win, &vec![]).unwrap();
    assert_eq!(windows.extensions, win);
}

#[test]
fn missing_instance_extensions_are_named() {
    let text = |r: Result<VulkanInstance, GpuError>| match r {
        Err(GpuError::Backend(text)) => text,
        _ => panic!("instance created"),
    };
    let none = vec![];
    let only = names(&["VK_KHR_surface"]);
    assert_eq!(
        text(VulkanInstance::new_with_surface(Platform::Windows, &none, &none)),
        "required Vulkan instance extension is unavailable: VK_KHR_surface"
    );
    assert_eq!(
        text(VulkanInstance::new_with_surface(Platform::Windows, &only, &none)),
        "required Vulkan instance extension is unavailable: VK_KHR_win32_surface"
    );
    assert_eq!(
        text(VulkanInstance::new_with_surface(Platform::Linux, &only, &none)),
        "Vulkan loader supports neither XCB nor Wayland surfaces"
    );
}

#[test]
fn adapters_are_described() {
    let instance = VulkanInstance::new(Platform::Linux, &vec![], &vec![]).unwrap();
    let infos = instance.enumerate_adapters(&vec![PhysicalProperties {
        name: "GPU".to_string(),
        vendor_id: 1,
        device_id: 2,
        device_type: ash::vk::PhysicalDeviceType::INTEGRATED_GPU.as_raw(),
    }]);
    assert_eq!(infos[0].name, "GPU");
    assert_eq!((infos[0].vendor, infos[0].device), (1, 2));
    assert_eq!(infos[0].device_type, DeviceType::Integrated);
    assert_eq!(infos[0].backend, BackendPreference::Vulkan);
    assert_eq!(vk_device_type(77), DeviceType::Unknown);
    assert!(
        type_score(DeviceType::Discrete, PowerPreference::HighPerformance)
            > type_score(DeviceType::Integrated, PowerPreference::HighPerformance)
    );
    assert!(
        type_score(DeviceType::Discrete, PowerPreference::LowPower)
            < type_score(DeviceType::Integrated, PowerPreference::LowPower)
    );
}

#[test]
fn queue_families_are_chosen_by_purpose() {
    let graphics = ash::vk::QueueFlags::GRAPHICS.as_raw();
    let compute = ash::vk::QueueFlags::COMPUTE.as_raw();
    let f = |flags: u32| QueueFamily { flags, timestamp_valid_bits: 0 };
    let families = vec![f(graphics), f(graphics | compute), f(compute)];
    assert_eq!(selection::queue_family(&families, true), Some(1));
    assert_eq!(selection::queue_family(&families, false), Some(2));
    assert_eq!(selection::queue_family(&families[..1].to_vec(), true), Some(0));
    assert_eq!(selection::queue_family(&families[..1].to_vec(), false), None);
    assert_eq!(selection::queue_family(&families[..2].to_vec(), false), Some(1));
    assert_eq!(known(ash::khr::swapchain::NAME), "VK_KHR_swapchain");
    assert_eq!(known(ash::khr::dynamic_rendering::NAME), "VK_KHR_dynamic_rendering");
    assert_eq!(known(ash::khr::portability_subset::NAME), "VK_KHR_portability_subset");
    assert_eq!(known(ash::ext::shader_atomic_float::NAME), "VK_EXT_shader_atomic_float");
}
