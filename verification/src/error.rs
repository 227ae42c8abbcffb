//! Errors of the backend and the mapping of Vulkan result codes to them.
use vstd::prelude::*;
use vstd::string::StringExecFns;

use crate::hal::{Features, MemoryUsage};
use crate::vk::{
    ERROR_DEVICE_LOST, ERROR_OUT_OF_DATE_KHR, ERROR_OUT_OF_DEVICE_MEMORY, ERROR_OUT_OF_HOST_MEMORY,
    ERROR_SURFACE_LOST_KHR,
};

verus! {

/// Misuse of the interface by the caller.
#[derive(Debug)]
pub enum UsageError {
    /// The handle's slot holds another generation. `actual_gen` is `u32::MAX` for a slot
    /// that never existed.
    StaleHandle { index: u32, expected_gen: u32, actual_gen: u32 },
    /// The resource was created without a usage flag that the operation needs.
    MissingUsage { resource: &'static str, needed: &'static str },
    /// The arguments do not fit the resource or the device.
    BindingMismatch(String),
}

/// Failure of a presentation surface.
#[derive(Clone, Copy, PartialEq, Eq, Structural, Debug)]
pub enum SurfaceError {
    Outdated,
    Lost,
    OutOfMemory,
}

/// Error of a backend operation.
#[derive(Debug)]
pub enum GpuError {
    Backend(String),
    Unsupported(String),
    UnsupportedFeatures(Features),
    OutOfMemory(MemoryUsage),
    ShaderCompile(String),
    PipelineCreation(String),
    Dispatch(String),
    InvalidUsage(UsageError),
    Surface(SurfaceError),
    DeviceLost,
    Timeout,
}

/// Mathematical form of a [`UsageError`].
pub enum UsageErrorView {
    StaleHandle { index: u32, expected_gen: u32, actual_gen: u32 },
    MissingUsage { resource: Seq<char>, needed: Seq<char> },
    BindingMismatch(Seq<char>),
}

/// Mathematical form of a [`GpuError`].
pub enum GpuErrorView {
    Backend(Seq<char>),
    Unsupported(Seq<char>),
    UnsupportedFeatures(Features),
    OutOfMemory(MemoryUsage),
    ShaderCompile(Seq<char>),
    PipelineCreation(Seq<char>),
    Dispatch(Seq<char>),
    InvalidUsage(UsageErrorView),
    Surface(SurfaceError),
    DeviceLost,
    Timeout,
}

impl View for UsageError {
    type V = UsageErrorView;

    open spec fn view(&self) -> UsageErrorView {
        match *self {
            UsageError::StaleHandle { index, expected_gen, actual_gen } => {
                UsageErrorView::StaleHandle { index, expected_gen, actual_gen }
            },
            UsageError::MissingUsage { resource, needed } => UsageErrorView::MissingUsage {
                resource: resource@,
                needed: needed@,
            },
            UsageError::BindingMismatch(text) => UsageErrorView::BindingMismatch(text@),
        }
    }
}

impl View for GpuError {
    type V = GpuErrorView;

    open spec fn view(&self) -> GpuErrorView {
        match *self {
            GpuError::Backend(text) => GpuErrorView::Backend(text@),
            GpuError::Unsupported(text) => GpuErrorView::Unsupported(text@),
            GpuError::UnsupportedFeatures(f) => GpuErrorView::UnsupportedFeatures(f),
            GpuError::OutOfMemory(m) => GpuErrorView::OutOfMemory(m),
            GpuError::ShaderCompile(text) => GpuErrorView::ShaderCompile(text@),
            GpuError::PipelineCreation(text) => GpuErrorView::PipelineCreation(text@),
            GpuError::Dispatch(text) => GpuErrorView::Dispatch(text@),
            GpuError::InvalidUsage(e) => GpuErrorView::InvalidUsage(e@),
            GpuError::Surface(e) => GpuErrorView::Surface(e),
            GpuError::DeviceLost => GpuErrorView::DeviceLost,
            GpuError::Timeout => GpuErrorView::Timeout,
        }
    }
}

/// Binding mismatch with the given text.
pub open spec fn mismatch_view(text: Seq<char>) -> GpuErrorView {
    GpuErrorView::InvalidUsage(UsageErrorView::BindingMismatch(text))
}

/// Missing usage flag `needed` on `resource`.
pub open spec fn missing_usage_view(resource: Seq<char>, needed: Seq<char>) -> GpuErrorView {
    GpuErrorView::InvalidUsage(UsageErrorView::MissingUsage { resource, needed })
}

/// Outcome with the error in its mathematical form.
pub open spec fn outcome<T>(result: Result<T, GpuError>) -> Result<T, GpuErrorView> {
    match result {
        Ok(value) => Ok(value),
        Err(e) => Err(e@),
    }
}

pub(crate) fn mismatch(text: String) -> (e: GpuError)
    ensures
        e@ == mismatch_view(text@),
{
    GpuError::InvalidUsage(UsageError::BindingMismatch(text))
}

pub(crate) fn missing_usage(resource: &'static str, needed: &'static str) -> (e: GpuError)
    ensures
        e@ == missing_usage_view(resource@, needed@),
{
    GpuError::InvalidUsage(UsageError::MissingUsage { resource, needed })
}

/// Text that `ash` displays for the Vulkan result code `code`.
pub uninterp spec fn vk_result_text(code: i32) -> Seq<char>;

/// Calls the `Display` impl of `ash::vk::Result` on the result with the raw value `code`.
/// Trusted: the text is a function of the code alone. What the text is for a given code is
/// not stated.
#[verifier::external_body]
pub(crate) fn display_vk_result(code: i32) -> (text: String)
    ensures
        text@ == vk_result_text(code),
{
    ash::vk::Result::from_raw(code).to_string()
}

/// `op`, a colon and a space, and the text of a Vulkan result code.
pub open spec fn failed_call_text(op: Seq<char>, result_text: Seq<char>) -> Seq<char> {
    op + ": "@ + result_text
}

/// Joins the name of a failed call and the text of its result.
pub fn failed_call(op: &str, result_text: &str) -> (text: String)
    ensures
        text@ == failed_call_text(op@, result_text@),
{
    let mut text = op.to_owned();
    text.append(": ");
    text.append(result_text);
    text
}

/// Text of a Vulkan call `op` that failed with `code`.
pub fn vk_failure(op: &str, code: i32) -> (text: String)
    ensures
        text@ == failed_call_text(op@, vk_result_text(code)),
{
    failed_call(op, display_vk_result(code).as_str())
}

/// Backend error of a Vulkan call `op` that failed with `code`.
pub open spec fn backend_failure(op: Seq<char>, code: i32) -> GpuErrorView {
    GpuErrorView::Backend(failed_call_text(op, vk_result_text(code)))
}

pub fn backend_error(op: &str, code: i32) -> (e: GpuError)
    ensures
        e@ == backend_failure(op@, code),
{
    GpuError::Backend(vk_failure(op, code))
}

/// Error of a queue or fence call: device loss and exhausted memory are told apart from other
/// failures.
pub open spec fn vk_error_view(op: Seq<char>, code: i32) -> GpuErrorView {
    if code == ERROR_DEVICE_LOST {
        GpuErrorView::DeviceLost
    } else if code == ERROR_OUT_OF_HOST_MEMORY {
        GpuErrorView::OutOfMemory(MemoryUsage::Upload)
    } else if code == ERROR_OUT_OF_DEVICE_MEMORY {
        GpuErrorView::OutOfMemory(MemoryUsage::GpuOnly)
    } else {
        backend_failure(op, code)
    }
}

/// Maps the result code of the Vulkan call `op`.
pub fn map_vk_err(op: &str, code: i32) -> (e: GpuError)
    ensures
        e@ == vk_error_view(op@, code),
{
    if code == ERROR_DEVICE_LOST {
        GpuError::DeviceLost
    } else if code == ERROR_OUT_OF_HOST_MEMORY {
        GpuError::OutOfMemory(MemoryUsage::Upload)
    } else if code == ERROR_OUT_OF_DEVICE_MEMORY {
        GpuError::OutOfMemory(MemoryUsage::GpuOnly)
    } else {
        backend_error(op, code)
    }
}

/// Error of an acquire or present call.
pub open spec fn surface_error_view(code: i32) -> GpuErrorView {
    if code == ERROR_DEVICE_LOST {
        GpuErrorView::DeviceLost
    } else if code == ERROR_OUT_OF_DATE_KHR {
        GpuErrorView::Surface(SurfaceError::Outdated)
    } else if code == ERROR_SURFACE_LOST_KHR {
        GpuErrorView::Surface(SurfaceError::Lost)
    } else if code == ERROR_OUT_OF_HOST_MEMORY || code == ERROR_OUT_OF_DEVICE_MEMORY {
        GpuErrorView::Surface(SurfaceError::OutOfMemory)
    } else {
        backend_failure("surface error"@, code)
    }
}

/// Maps the result code of an acquire or present call.
pub fn map_surface_err(code: i32) -> (e: GpuError)
    ensures
        e@ == surface_error_view(code),
{
    if code == ERROR_DEVICE_LOST {
        GpuError::DeviceLost
    } else if code == ERROR_OUT_OF_DATE_KHR {
        GpuError::Surface(SurfaceError::Outdated)
    } else if code == ERROR_SURFACE_LOST_KHR {
        GpuError::Surface(SurfaceError::Lost)
    } else if code == ERROR_OUT_OF_HOST_MEMORY || code == ERROR_OUT_OF_DEVICE_MEMORY {
        GpuError::Surface(SurfaceError::OutOfMemory)
    } else {
        backend_error("surface error", code)
    }
}

// ── Laws ───────────────────────────────────────────────────────────────────────

/// The code of a failed queue or fence call tells what failed: a lost device, exhausted memory
/// of the host or of the device, or else the call itself, whose name and code are reported.
pub proof fn queue_errors_are_told_apart(op: Seq<char>, code: i32)
    ensures
        vk_error_view(op, code) is DeviceLost <==> code == -4,
        vk_error_view(op, code) == GpuErrorView::OutOfMemory(MemoryUsage::Upload) <==> code == -1,
        vk_error_view(op, code) == GpuErrorView::OutOfMemory(MemoryUsage::GpuOnly) <==> code == -2,
        code != -1 && code != -2 && code != -4 ==> vk_error_view(op, code)
            == GpuErrorView::Backend(op + ": "@ + vk_result_text(code)),
{
}

/// The code of a failed acquire or present call tells what to do: an outdated surface is
/// rebuilt, a lost one made anew, exhausted memory and a lost device are reported as such, and
/// anything else with its code.
pub proof fn surface_errors_are_told_apart(code: i32)
    ensures
        surface_error_view(code) is DeviceLost <==> code == -4,
        surface_error_view(code) == GpuErrorView::Surface(SurfaceError::Outdated) <==> code
            == -1_000_001_004,
        surface_error_view(code) == GpuErrorView::Surface(SurfaceError::Lost) <==> code
            == -1_000_000_000,
        surface_error_view(code) == GpuErrorView::Surface(SurfaceError::OutOfMemory) <==> code == -1
            || code == -2,
        !(surface_error_view(code) is DeviceLost) && !(surface_error_view(code) is Surface)
            ==> surface_error_view(code) == GpuErrorView::Backend(
            "surface error"@ + ": "@ + vk_result_text(code),
        ),
{
}

/// A failed call is reported by its name, a colon and a space, and the text of its code, in
/// this order.
pub proof fn failed_call_is_named(op: Seq<char>, code: i32)
    ensures
        backend_failure(op, code) is Backend,
        ({
            let text = backend_failure(op, code)->Backend_0;
            let why = vk_result_text(code);
            &&& text.len() == op.len() + 2 + why.len()
            &&& text.take(op.len() as int) == op
            &&& text[op.len() as int] == ':'
            &&& text[op.len() as int + 1] == ' '
            &&& text.skip(op.len() as int + 2) == why
        }),
{
    reveal_strlit(": ");
    let text = backend_failure(op, code)->Backend_0;
    assert(text.take(op.len() as int) =~= op);
    assert(text.skip(op.len() as int + 2) =~= vk_result_text(code));
}

} // verus!
