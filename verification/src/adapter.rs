//! Physical-device adapter: how a device is opened on it.
use vstd::prelude::*;

use crate::device::selection;
use crate::device::selection::{
    physical_device_limits, plan_device, queue_family, DevicePlan, PhysicalSupport,
};
use crate::error::GpuError;
use crate::hal;
use crate::hal::{
    DeviceLimits, DeviceRequest, Features, HalCapabilities, FEATURE_COMPUTE,
    FEATURE_DESCRIPTOR_INDEXING, FEATURE_GRAPHICS,
};
use crate::instance::AdapterInfo;

verus! {

/// Physical device: its identity and what it offers.
pub struct VulkanAdapter {
    pub info: AdapterInfo,
    pub support: PhysicalSupport,
}

/// Outcome of opening a device.
pub open spec fn opened(
    support: selection::PhysicalSupportView,
    req: DeviceRequest,
    extra: Seq<Seq<char>>,
    needs_graphics: bool,
    r: Result<DevicePlan, GpuError>,
) -> bool {
    match r {
        Ok(plan) => selection::device_fault(support, req.required, extra, needs_graphics) is None
            && plan@ == selection::device_plan(support, extra, needs_graphics),
        Err(e) => selection::device_fault(support, req.required, extra, needs_graphics) == Some(
            e@,
        ),
    }
}

impl VulkanAdapter {
    /// Identity of the physical device.
    pub fn info(&self) -> (info: &AdapterInfo)
        ensures
            *info == self.info,
    {
        &self.info
    }

    /// What devices on this adapter can do.
    pub fn capabilities(&self) -> (caps: HalCapabilities)
        ensures
            caps.graphics,
            caps.compute,
            caps.features.bits == FEATURE_COMPUTE | FEATURE_GRAPHICS | FEATURE_DESCRIPTOR_INDEXING,
    {
        HalCapabilities {
            graphics: true,
            compute: true,
            features: Features {
                bits: FEATURE_COMPUTE | FEATURE_GRAPHICS | FEATURE_DESCRIPTOR_INDEXING,
            },
        }
    }

    /// Limits of a compute device on this adapter.
    pub fn limits(&self) -> (limits: DeviceLimits)
        ensures
            limits == (match selection::selected_family(self.support.families@, false) {
                Some(family) => selection::limits_of(
                    self.support.limits,
                    self.support.families@,
                    family,
                ),
                None => hal::no_limits(),
            }),
    {
        match queue_family(&self.support.families, false) {
            Some(family) => physical_device_limits(
                &self.support.limits,
                &self.support.families,
                family,
            ),
            None => DeviceLimits::default(),
        }
    }

    /// Opens a compute-only device.
    pub fn open(&self, req: DeviceRequest) -> (r: Result<DevicePlan, GpuError>)
        ensures
            opened(self.support@, req, Seq::empty(), false, r),
    {
        let extra: Vec<String> = Vec::new();
        assert(selection::texts(extra@) =~= Seq::<Seq<char>>::empty());
        plan_device(&self.support, req, &extra, false)
    }

    /// Opens a graphics device that presents nothing.
    pub fn open_headless(&self, req: DeviceRequest) -> (r: Result<DevicePlan, GpuError>)
        ensures
            opened(self.support@, req, Seq::empty(), true, r),
    {
        let extra: Vec<String> = Vec::new();
        assert(selection::texts(extra@) =~= Seq::<Seq<char>>::empty());
        plan_device(&self.support, req, &extra, true)
    }

    /// Opens a graphics device with the swapchain extension, which presenting needs.
    pub fn open_with_surface(&self, req: DeviceRequest) -> (r: Result<DevicePlan, GpuError>)
        ensures
            opened(self.support@, req, seq!["VK_KHR_swapchain"@], true, r),
    {
        let mut extra: Vec<String> = Vec::new();
        extra.push("VK_KHR_swapchain".to_owned());
        assert(selection::texts(extra@) =~= seq!["VK_KHR_swapchain"@]);
        plan_device(&self.support, req, &extra, true)
    }
}

// ── Laws ───────────────────────────────────────────────────────────────────────

/// A device opens if and only if nothing stands against it, and is planned or refused
/// accordingly.
pub proof fn device_opens_iff_faultless(
    support: selection::PhysicalSupportView,
    req: DeviceRequest,
    extra: Seq<Seq<char>>,
    needs_graphics: bool,
    r: Result<DevicePlan, GpuError>,
)
    requires
        opened(support, req, extra, needs_graphics, r),
    ensures
        r is Ok <==> selection::device_fault(support, req.required, extra, needs_graphics) is None,
        r is Ok ==> r->Ok_0@ == selection::device_plan(support, extra, needs_graphics),
        r is Err ==> Some(r->Err_0@) == selection::device_fault(
            support,
            req.required,
            extra,
            needs_graphics,
        ),
{
}

/// A device that presents opens where one that does not would, and the adapter offers the
/// swapchain extension.
pub proof fn presenting_needs_the_swapchain_extension(
    support: selection::PhysicalSupportView,
    req: DeviceRequest,
)
    ensures
        selection::device_fault(support, req.required, seq!["VK_KHR_swapchain"@], true) is None
            <==> selection::device_fault(support, req.required, Seq::empty(), true) is None
            && support.extensions.contains("VK_KHR_swapchain"@),
{
    let extra = seq!["VK_KHR_swapchain"@];
    selection::device_opens_iff_supported(support, req.required, extra, true);
    selection::device_opens_iff_supported(support, req.required, Seq::empty(), true);
    assert(extra[0] == "VK_KHR_swapchain"@);
    if support.extensions.contains("VK_KHR_swapchain"@) {
        assert forall|i: int| 0 <= i < extra.len() implies support.extensions.contains(
            #[trigger] extra[i],
        ) by {}
    }
}

} // verus!
