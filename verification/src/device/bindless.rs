//! Creation of the bindless descriptor tables.
//!
//! Binding 0 of the set is the table of storage buffers and binding 1 the table of textures.
//! Both are visible to all shader stages, may be filled in part, and may be updated while they
//! are bound. The tables are created in stages, with one Vulkan call after each:
//! `create_bindless`, `bindless_layout_created`, `bindless_pool_created` and
//! `bindless_set_allocated`.
use vstd::prelude::*;

use crate::command::Cleanup;
use crate::device::buffers::{unwind_one, unwind_two, Unwind, UnwindView};
use crate::device::selection;
use crate::device::selection::bindless_capacities;
use crate::device::Bindless;
use crate::error;
use crate::error::{backend_error, GpuError, GpuErrorView};
use crate::hal::DeviceLimits;
use crate::vk;

verus! {

/// One binding of the descriptor set. The pool holds as many descriptors of the type.
#[derive(Clone, Copy, PartialEq, Eq, Structural, Debug)]
pub struct TableBinding {
    pub binding: u32,
    pub descriptor_type: i32,
    pub descriptor_count: u32,
    pub stage_flags: u32,
    pub binding_flags: u32,
}

/// Bindings of tables with the given numbers of slots.
pub open spec fn table_bindings(buffers: u32, textures: u32) -> Seq<TableBinding> {
    seq![
        TableBinding {
            binding: 0,
            descriptor_type: vk::DESCRIPTOR_TYPE_STORAGE_BUFFER,
            descriptor_count: buffers,
            stage_flags: vk::SHADER_STAGE_ALL,
            binding_flags: vk::DESCRIPTOR_BINDING_PARTIALLY_BOUND
                | vk::DESCRIPTOR_BINDING_UPDATE_AFTER_BIND,
        },
        TableBinding {
            binding: 1,
            descriptor_type: vk::DESCRIPTOR_TYPE_COMBINED_IMAGE_SAMPLER,
            descriptor_count: textures,
            stage_flags: vk::SHADER_STAGE_ALL,
            binding_flags: vk::DESCRIPTOR_BINDING_PARTIALLY_BOUND
                | vk::DESCRIPTOR_BINDING_UPDATE_AFTER_BIND,
        },
    ]
}

/// Decides on the bindings of the tables.
pub fn create_bindless(limits: &DeviceLimits) -> (r: Result<Vec<TableBinding>, GpuError>)
    ensures
        match r {
            Ok(bindings) => selection::buffer_slots(*limits) != 0 && selection::texture_slots(
                *limits,
            ) != 0 && bindings@ == table_bindings(
                selection::buffer_slots(*limits) as u32,
                selection::texture_slots(*limits) as u32,
            ),
            Err(e) => (selection::buffer_slots(*limits) == 0 || selection::texture_slots(*limits)
                == 0) && e@ == GpuErrorView::Unsupported(selection::small_limits_text(*limits)),
        },
{
    match bindless_capacities(limits) {
        Err(e) => Err(e),
        Ok((buffers, textures)) => {
            let flags: u32 = vk::DESCRIPTOR_BINDING_PARTIALLY_BOUND
                | vk::DESCRIPTOR_BINDING_UPDATE_AFTER_BIND;
            let mut bindings: Vec<TableBinding> = Vec::new();
            bindings.push(
                TableBinding {
                    binding: 0,
                    descriptor_type: vk::DESCRIPTOR_TYPE_STORAGE_BUFFER,
                    descriptor_count: buffers,
                    stage_flags: vk::SHADER_STAGE_ALL,
                    binding_flags: flags,
                },
            );
            bindings.push(
                TableBinding {
                    binding: 1,
                    descriptor_type: vk::DESCRIPTOR_TYPE_COMBINED_IMAGE_SAMPLER,
                    descriptor_count: textures,
                    stage_flags: vk::SHADER_STAGE_ALL,
                    binding_flags: flags,
                },
            );
            assert(bindings@ =~= table_bindings(buffers, textures));
            Ok(bindings)
        },
    }
}

/// Outcome of creating the layout of the descriptor set.
pub fn bindless_layout_created(result: Result<u64, i32>) -> (r: Result<u64, GpuError>)
    ensures
        match (result, r) {
            (Ok(l), Ok(layout)) => layout == l,
            (Err(code), Err(e)) => e@ == error::backend_failure("bindless layout"@, code),
            _ => false,
        },
{
    match result {
        Ok(layout) => Ok(layout),
        Err(code) => Err(backend_error("bindless layout", code)),
    }
}

/// Outcome of creating the descriptor pool.
pub fn bindless_pool_created(layout: u64, result: Result<u64, i32>) -> (r: Result<u64, Unwind>)
    ensures
        match (result, r) {
            (Ok(p), Ok(pool)) => pool == p,
            (Err(code), Err(u)) => u@ == (UnwindView {
                cleanup: seq![Cleanup::DestroyDescriptorSetLayout(layout)],
                error: error::backend_failure("bindless pool"@, code),
            }),
            _ => false,
        },
{
    match result {
        Ok(pool) => Ok(pool),
        Err(code) => Err(
            unwind_one(
                Cleanup::DestroyDescriptorSetLayout(layout),
                backend_error("bindless pool", code),
            ),
        ),
    }
}

/// Outcome of allocating the descriptor set: the tables, with as many slots as the bindings say.
pub fn bindless_set_allocated(
    bindings: &Vec<TableBinding>,
    layout: u64,
    pool: u64,
    result: Result<u64, i32>,
) -> (r: Result<Bindless, Unwind>)
    requires
        bindings.len() == 2,
    ensures
        match (result, r) {
            (Ok(set), Ok(b)) => b == (Bindless {
                layout,
                pool,
                set,
                buffer_capacity: bindings@[0].descriptor_count,
                texture_capacity: bindings@[1].descriptor_count,
            }),
            (Err(code), Err(u)) => u@ == (UnwindView {
                cleanup: seq![
                    Cleanup::DestroyDescriptorPool(pool),
                    Cleanup::DestroyDescriptorSetLayout(layout),
                ],
                error: error::backend_failure("bindless set alloc"@, code),
            }),
            _ => false,
        },
{
    match result {
        Ok(set) => Ok(
            Bindless {
                layout,
                pool,
                set,
                buffer_capacity: bindings[0].descriptor_count,
                texture_capacity: bindings[1].descriptor_count,
            },
        ),
        Err(code) => Err(
            unwind_two(
                Cleanup::DestroyDescriptorPool(pool),
                Cleanup::DestroyDescriptorSetLayout(layout),
                backend_error("bindless set alloc", code),
            ),
        ),
    }
}

// ── Laws ───────────────────────────────────────────────────────────────────────

/// The first table holds storage buffers and the second textures with samplers, each with as
/// many slots as were asked for. Both are visible to all stages, may have empty slots, and may
/// be updated while they are bound.
pub proof fn tables_are_in_place(buffers: u32, textures: u32)
    ensures
        ({
            let t = table_bindings(buffers, textures);
            &&& t.len() == 2
            &&& t[0].binding == 0
            &&& t[0].descriptor_type == vk::DESCRIPTOR_TYPE_STORAGE_BUFFER
            &&& t[0].descriptor_count == buffers
            &&& t[1].binding == 1
            &&& t[1].descriptor_type == vk::DESCRIPTOR_TYPE_COMBINED_IMAGE_SAMPLER
            &&& t[1].descriptor_count == textures
            &&& forall|i: int|
                0 <= i < 2 ==> (#[trigger] t[i]).stage_flags == 0x7fff_ffff && t[i].binding_flags
                    == vk::DESCRIPTOR_BINDING_PARTIALLY_BOUND
                    + vk::DESCRIPTOR_BINDING_UPDATE_AFTER_BIND
        }),
{
    assert(0x4u32 | 0x1u32 == 5) by (bit_vector);
}

} // verus!
