//! Buffers: creation, host access and descriptors.
//!
//! A buffer is created in stages, with one Vulkan call after each: `create_buffer`,
//! `buffer_created`, `buffer_memory_type`, `buffer_allocated`, `buffer_bound`, `buffer_mapped`
//! and `insert_buffer`. A stage that fails names the objects that are to be destroyed.
use vstd::prelude::*;
use vstd::string::StringExecFns;

use crate::command::Cleanup;
use crate::device;
use crate::device::formats;
use crate::device::{stale, BufferHandle, DeviceView, VulkanBuffer, VulkanDevice};
use crate::error;
use crate::error::{backend_error, mismatch, missing_usage, GpuError, GpuErrorView};
use crate::hal;
use crate::hal::{contains_flags, BufferDesc, MemoryUsage, BUFFER_READBACK, BUFFER_STORAGE};
use crate::search;
use crate::text;
use crate::vk;

verus! {

/// Failure of a stage, with the objects to destroy, in order.
pub struct Unwind {
    pub cleanup: Vec<Cleanup>,
    pub error: GpuError,
}

/// Mathematical form of an [`Unwind`].
#[verifier::ext_equal]
pub struct UnwindView {
    pub cleanup: Seq<Cleanup>,
    pub error: GpuErrorView,
}

impl View for Unwind {
    type V = UnwindView;

    open spec fn view(&self) -> UnwindView {
        UnwindView { cleanup: self.cleanup@, error: self.error@ }
    }
}

/// Failure that destroys one object.
pub(crate) fn unwind_one(a: Cleanup, error: GpuError) -> (u: Unwind)
    ensures
        u@ == (UnwindView { cleanup: seq![a], error: error@ }),
{
    let mut cleanup: Vec<Cleanup> = Vec::new();
    cleanup.push(a);
    let u = Unwind { cleanup, error };
    assert(u@.cleanup =~= seq![a]);
    u
}

/// Failure that destroys two objects.
pub(crate) fn unwind_two(a: Cleanup, b: Cleanup, error: GpuError) -> (u: Unwind)
    ensures
        u@ == (UnwindView { cleanup: seq![a, b], error: error@ }),
{
    let mut cleanup: Vec<Cleanup> = Vec::new();
    cleanup.push(a);
    cleanup.push(b);
    let u = Unwind { cleanup, error };
    assert(u@.cleanup =~= seq![a, b]);
    u
}

// ── Memory types ───────────────────────────────────────────────────────────────

/// Memory type `i` is allowed by `type_bits` and has all properties `props`.
pub open spec fn type_fits(memory_types: Seq<u32>, type_bits: u32, props: u32, i: int) -> bool {
    type_bits & (1u32 << (i as u32)) != 0 && hal::has_flags(memory_types[i], props)
}

/// Lowest memory type that fits.
pub open spec fn memory_type(memory_types: Seq<u32>, type_bits: u32, props: u32) -> Option<int> {
    search::first_below(
        |i: int| type_fits(memory_types, type_bits, props, i),
        memory_types.len() as int,
    )
}

/// Memory type for a memory usage: one with the preferred properties, or else one with the
/// properties to settle for.
pub open spec fn usage_memory_type(
    memory_types: Seq<u32>,
    type_bits: u32,
    usage: MemoryUsage,
) -> Option<int> {
    match memory_type(memory_types, type_bits, formats::vk_memory_usage(usage)) {
        Some(i) => Some(i),
        None => match formats::vk_memory_fallback(usage) {
            Some(props) => memory_type(memory_types, type_bits, props),
            None => None,
        },
    }
}

/// Finds a memory type among those that `type_bits` allows.
pub fn find_memory_type(memory_types: &Vec<u32>, type_bits: u32, props: u32) -> (r: Option<u32>)
    requires
        memory_types.len() <= 32,
    ensures
        match r {
            Some(i) => memory_type(memory_types@, type_bits, props) == Some(i as int) && i
                < memory_types.len(),
            None => memory_type(memory_types@, type_bits, props) is None,
        },
{
    let ghost f = |i: int| type_fits(memory_types@, type_bits, props, i);
    let n: u32 = memory_types.len() as u32;
    let mut i: u32 = 0;
    while i < n
        invariant
            n == memory_types.len(),
            n <= 32,
            i <= n,
            f == (|i: int| type_fits(memory_types@, type_bits, props, i)),
            forall|j: int| 0 <= j < i ==> !#[trigger] f(j),
        decreases n - i,
    {
        if type_bits & (1u32 << i) != 0 && contains_flags(memory_types[i as usize], props) {
            proof {
                search::lemma_is_first(f, n as int, i as int);
            }
            return Some(i);
        }
        assert(!f(i as int));
        i += 1;
    }
    proof {
        search::lemma_none_below(f, n as int);
    }
    None
}

/// Finds a memory type for a memory usage.
pub fn find_usage_memory_type(memory_types: &Vec<u32>, type_bits: u32, usage: MemoryUsage) -> (r:
    Option<u32>)
    requires
        memory_types.len() <= 32,
    ensures
        match r {
            Some(i) => usage_memory_type(memory_types@, type_bits, usage) == Some(i as int) && i
                < memory_types.len(),
            None => usage_memory_type(memory_types@, type_bits, usage) is None,
        },
{
    match find_memory_type(memory_types, type_bits, formats::memory_usage_to_vk(usage)) {
        Some(i) => Some(i),
        None => match formats::memory_usage_fallback(usage) {
            Some(props) => find_memory_type(memory_types, type_bits, props),
            None => None,
        },
    }
}

// ── Creation ───────────────────────────────────────────────────────────────────

/// A storage buffer is larger than the device allows.
pub open spec fn oversized(v: DeviceView, desc: BufferDesc) -> bool {
    desc.usage.has(BUFFER_STORAGE) && desc.size > v.info.limits.max_storage_buffer_range
}

pub open spec fn oversized_text(size: u64, limit: u64) -> Seq<char> {
    "storage buffer size "@ + text::decimal_text(size as nat) + " exceeds device limit "@
        + text::decimal_text(limit as nat)
}

/// A storage buffer would get a slot that the bindless table does not have.
pub open spec fn out_of_slots(v: DeviceView, desc: BufferDesc) -> bool {
    desc.usage.has(BUFFER_STORAGE) && v.buffers.next_index() >= v.bindless.buffer_capacity
}

pub open spec fn out_of_slots_text(capacity: u32) -> Seq<char> {
    "storage buffer slot exceeds bindless capacity "@ + text::decimal_text(capacity as nat)
}

/// Descriptor of a storage buffer in the bindless table.
#[derive(Clone, Copy, PartialEq, Eq, Structural, Debug)]
pub struct BufferDescriptor {
    pub set: u64,
    pub binding: u32,
    pub element: u32,
    pub buffer: u64,
    pub offset: u64,
    pub range: u64,
}

/// Descriptor of the buffer in slot `slot`: all of the buffer, from its start.
pub open spec fn storage_descriptor(set: u64, slot: u32, buffer: u64, size: u64) -> BufferDescriptor {
    BufferDescriptor {
        set,
        binding: 0,
        element: slot,
        buffer,
        offset: 0,
        range: if size == 0 {
            vk::WHOLE_SIZE
        } else {
            size
        },
    }
}

/// Entry of a new buffer whose memory is mapped at `mapped`, or not if that is zero.
pub open spec fn buffer_entry(desc: BufferDesc, buffer: u64, memory: u64, mapped: u64) -> VulkanBuffer {
    VulkanBuffer {
        buffer,
        memory,
        size: desc.size,
        usage: desc.usage,
        location: desc.memory,
        mapped: if desc.memory is GpuOnly {
            0
        } else {
            mapped
        },
    }
}

/// Size and Vulkan usage that a buffer is created with.
#[derive(Clone, Copy, PartialEq, Eq, Structural, Debug)]
pub struct BufferCreateInfo {
    pub size: u64,
    pub usage: u32,
}

/// Outcome of `vkCreateBuffer`.
pub fn buffer_created(result: Result<u64, i32>) -> (r: Result<u64, GpuError>)
    ensures
        match (result, r) {
            (Ok(b), Ok(buffer)) => buffer == b,
            (Err(code), Err(e)) => e@ == error::backend_failure("vkCreateBuffer"@, code),
            _ => false,
        },
{
    match result {
        Ok(buffer) => Ok(buffer),
        Err(code) => Err(backend_error("vkCreateBuffer", code)),
    }
}

/// Outcome of the allocation for a buffer. Every failure counts as exhausted memory.
pub fn buffer_allocated(memory: MemoryUsage, buffer: u64, result: Result<u64, i32>) -> (r: Result<
    u64,
    Unwind,
>)
    ensures
        match (result, r) {
            (Ok(m), Ok(allocated)) => allocated == m,
            (Err(_), Err(u)) => u@ == (UnwindView {
                cleanup: seq![Cleanup::DestroyBuffer(buffer)],
                error: GpuErrorView::OutOfMemory(memory),
            }),
            _ => false,
        },
{
    match result {
        Ok(m) => Ok(m),
        Err(_) => Err(unwind_one(Cleanup::DestroyBuffer(buffer), GpuError::OutOfMemory(memory))),
    }
}

/// Outcome of mapping the memory of a buffer.
pub fn buffer_mapped(buffer: u64, memory: u64, result: Result<u64, i32>) -> (r: Result<u64, Unwind>)
    ensures
        match (result, r) {
            (Ok(a), Ok(address)) => address == a,
            (Err(code), Err(u)) => u@ == (UnwindView {
                cleanup: seq![Cleanup::DestroyBuffer(buffer), Cleanup::FreeMemory(memory)],
                error: error::backend_failure("vkMapMemory"@, code),
            }),
            _ => false,
        },
{
    match result {
        Ok(address) => Ok(address),
        Err(code) => Err(
            unwind_two(
                Cleanup::DestroyBuffer(buffer),
                Cleanup::FreeMemory(memory),
                backend_error("vkMapMemory", code),
            ),
        ),
    }
}

// ── Host access ────────────────────────────────────────────────────────────────

pub open spec fn overflow_text(start: u64, size: u64) -> Seq<char> {
    "range "@ + text::decimal_text(start as nat) + "..overflow exceeds buffer size "@
        + text::decimal_text(size as nat)
}

pub open spec fn range_text(start: u64, end: int, size: u64) -> Seq<char> {
    "range "@ + text::decimal_text(start as nat) + ".."@ + text::decimal_text(end as nat)
        + " exceeds buffer size "@ + text::decimal_text(size as nat)
}

/// What is wrong with an access of `len` bytes at `offset`.
pub open spec fn range_fault(offset: u64, len: nat, size: u64) -> Option<GpuErrorView> {
    if offset + len > u64::MAX {
        Some(error::mismatch_view(overflow_text(offset, size)))
    } else if offset + len > size {
        Some(error::mismatch_view(range_text(offset, offset + len, size)))
    } else {
        None
    }
}

/// What is wrong with a write from the host.
pub open spec fn write_fault(
    v: DeviceView,
    h: BufferHandle,
    offset: u64,
    len: nat,
) -> Option<GpuErrorView> {
    if !v.buffers.live(h) {
        Some(device::stale_view(v.buffers, h))
    } else if v.in_flight != 0 {
        Some(
            error::mismatch_view(
                "write_buffer cannot mutate buffers while an asynchronous submission is pending"@,
            ),
        )
    } else if v.buffers.value(h).mapped == 0 {
        Some(GpuErrorView::Backend("write_buffer on non-host-visible buffer"@))
    } else {
        range_fault(offset, len, v.buffers.value(h).size)
    }
}

/// What is wrong with a read by the host. `pending` and `hidden` are the messages for a
/// submission in flight and for a buffer that is not mapped.
pub open spec fn read_fault_as(
    v: DeviceView,
    h: BufferHandle,
    offset: u64,
    len: nat,
    pending: Seq<char>,
    hidden: Seq<char>,
) -> Option<GpuErrorView> {
    if !v.buffers.live(h) {
        Some(device::stale_view(v.buffers, h))
    } else if v.in_flight != 0 {
        Some(error::mismatch_view(pending))
    } else if !v.buffers.value(h).usage.has(BUFFER_READBACK) {
        Some(error::missing_usage_view("buffer"@, "READBACK"@))
    } else if v.buffers.value(h).mapped == 0 {
        Some(GpuErrorView::Backend(hidden))
    } else {
        range_fault(offset, len, v.buffers.value(h).size)
    }
}

/// What is wrong with a read into a new vector.
pub open spec fn read_fault(
    v: DeviceView,
    h: BufferHandle,
    offset: u64,
    len: nat,
) -> Option<GpuErrorView> {
    read_fault_as(
        v,
        h,
        offset,
        len,
        "read_buffer cannot observe buffers while an asynchronous submission is pending"@,
        "read_buffer on non-host-visible buffer"@,
    )
}

/// What is wrong with a read into a given slice.
pub open spec fn read_into_fault(
    v: DeviceView,
    h: BufferHandle,
    offset: u64,
    len: nat,
) -> Option<GpuErrorView> {
    read_fault_as(
        v,
        h,
        offset,
        len,
        "read_buffer_into cannot observe buffers while an asynchronous submission is pending"@,
        "read_buffer_into on non-host-visible buffer"@,
    )
}

/// `memory` with `data` at `offset`.
pub open spec fn stored(memory: Seq<u8>, offset: int, data: Seq<u8>) -> Seq<u8> {
    Seq::new(
        memory.len(),
        |i: int|
            if offset <= i < offset + data.len() {
                data[i - offset]
            } else {
                memory[i]
            },
    )
}

fn check_range(offset: u64, len: u64, size: u64) -> (r: Result<(), GpuError>)
    ensures
        match r {
            Ok(_) => range_fault(offset, len as nat, size) is None,
            Err(e) => range_fault(offset, len as nat, size) == Some(e@),
        },
{
    match offset.checked_add(len) {
        None => {
            let mut message = "range ".to_owned();
            message.append(text::decimal(offset).as_str());
            message.append("..overflow exceeds buffer size ");
            message.append(text::decimal(size).as_str());
            Err(mismatch(message))
        },
        Some(end) => if end > size {
            let mut message = "range ".to_owned();
            message.append(text::decimal(offset).as_str());
            message.append("..");
            message.append(text::decimal(end).as_str());
            message.append(" exceeds buffer size ");
            message.append(text::decimal(size).as_str());
            Err(mismatch(message))
        } else {
            Ok(())
        },
    }
}

/// Copies `data` into `memory` at `start`.
pub(crate) fn store(memory: &mut [u8], start: usize, data: &[u8])
    requires
        start + data@.len() <= old(memory)@.len(),
    ensures
        final(memory)@ == stored(old(memory)@, start as int, data@),
{
    let ghost before = memory@;
    let size: usize = memory.len();
    let n: usize = data.len();
    let mut i: usize = 0;
    assert(memory@ =~= stored(before, start as int, data@.take(0)));
    while i < n
        invariant
            n == data@.len(),
            i <= n,
            size == before.len(),
            start + n <= size,
            memory@.len() == before.len(),
            memory@ == stored(before, start as int, data@.take(i as int)),
        decreases n - i,
    {
        memory[start + i] = data[i];
        i += 1;
        assert(memory@ =~= stored(before, start as int, data@.take(i as int)));
    }
    assert(data@.take(n as int) =~= data@);
}

impl VulkanDevice {
    /// Checks a buffer description. The buffer is then created with the size and usage that
    /// come back.
    pub fn create_buffer(&self, desc: BufferDesc) -> (r: Result<BufferCreateInfo, GpuError>)
        ensures
            match r {
                Ok(info) => !oversized(self@, desc) && info == (BufferCreateInfo {
                    size: desc.size,
                    usage: formats::vk_buffer_usage(desc.usage),
                }),
                Err(e) => oversized(self@, desc) && e@ == error::mismatch_view(
                    oversized_text(desc.size, self@.info.limits.max_storage_buffer_range),
                ),
            },
    {
        let limit: u64 = self.info.limits.max_storage_buffer_range;
        if desc.usage.contains(BUFFER_STORAGE) && desc.size > limit {
            let mut message = "storage buffer size ".to_owned();
            message.append(text::decimal(desc.size).as_str());
            message.append(" exceeds device limit ");
            message.append(text::decimal(limit).as_str());
            return Err(mismatch(message));
        }
        Ok(BufferCreateInfo { size: desc.size, usage: formats::buffer_usage_to_vk(desc.usage) })
    }

    /// Memory type to allocate for a new buffer, among those that `type_bits` allows.
    pub fn buffer_memory_type(&self, memory: MemoryUsage, buffer: u64, type_bits: u32) -> (r:
        Result<u32, Unwind>)
        requires
            self@.wf(),
        ensures
            match r {
                Ok(i) => usage_memory_type(self@.memory_types, type_bits, memory) == Some(i as int)
                    && i < self@.memory_types.len(),
                Err(u) => usage_memory_type(self@.memory_types, type_bits, memory) is None && u@
                    == (UnwindView {
                    cleanup: seq![Cleanup::DestroyBuffer(buffer)],
                    error: GpuErrorView::OutOfMemory(memory),
                }),
            },
    {
        match find_usage_memory_type(&self.memory_types, type_bits, memory) {
            Some(i) => Ok(i),
            None => Err(
                unwind_one(Cleanup::DestroyBuffer(buffer), GpuError::OutOfMemory(memory)),
            ),
        }
    }

    /// Outcome of binding a new buffer to memory of type `type_index`: whether the memory is to
    /// be mapped. Memory that the host can see is, unless it is for the GPU only.
    pub fn buffer_bound(
        &self,
        usage: MemoryUsage,
        type_index: u32,
        buffer: u64,
        memory: u64,
        result: Result<(), i32>,
    ) -> (r: Result<bool, Unwind>)
        requires
            type_index < self@.memory_types.len(),
        ensures
            match (result, r) {
                (Ok(_), Ok(map)) => map == (usage !is GpuOnly && hal::has_flags(
                    self@.memory_types[type_index as int],
                    vk::MEMORY_PROPERTY_HOST_VISIBLE,
                )),
                (Err(code), Err(u)) => u@ == (UnwindView {
                    cleanup: seq![Cleanup::DestroyBuffer(buffer), Cleanup::FreeMemory(memory)],
                    error: error::backend_failure("vkBindBufferMemory"@, code),
                }),
                _ => false,
            },
    {
        match result {
            Ok(_) => Ok(
                usage != MemoryUsage::GpuOnly && contains_flags(
                    self.memory_types[type_index as usize],
                    vk::MEMORY_PROPERTY_HOST_VISIBLE,
                ),
            ),
            Err(code) => Err(
                unwind_two(
                    Cleanup::DestroyBuffer(buffer),
                    Cleanup::FreeMemory(memory),
                    backend_error("vkBindBufferMemory", code),
                ),
            ),
        }
    }

    /// Enters a new buffer, mapped at `mapped` or not at all if that is zero. One that is for the
    /// GPU only is never entered as mapped. A storage buffer comes with the descriptor to write
    /// for it.
    pub fn insert_buffer(&mut self, desc: BufferDesc, buffer: u64, memory: u64, mapped: u64) -> (r:
        Result<(BufferHandle, Option<BufferDescriptor>), Unwind>)
        requires
            old(self)@.wf(),
            old(self)@.buffers.has_room(),
        ensures
            final(self)@.wf(),
            ({
                let entry = buffer_entry(desc, buffer, memory, mapped);
                match r {
                    Ok((h, descriptor)) => !out_of_slots(old(self)@, desc) && final(self)@
                        == (DeviceView {
                        buffers: old(self)@.buffers.insert(entry),
                        ..old(self)@
                    }) && h.slot() == old(self)@.buffers.next_index() && h.gen()
                        == old(self)@.buffers.next_generation() && descriptor == (
                    if desc.usage.has(BUFFER_STORAGE) {
                        Some(
                            storage_descriptor(
                                old(self)@.bindless.set,
                                h.slot(),
                                buffer,
                                desc.size,
                            ),
                        )
                    } else {
                        None
                    }),
                    Err(u) => out_of_slots(old(self)@, desc) && *final(self) == *old(self) && u@
                        == (UnwindView {
                        cleanup: device::buffer_cleanup(entry),
                        error: error::mismatch_view(
                            out_of_slots_text(old(self)@.bindless.buffer_capacity),
                        ),
                    }),
                }
            }),
    {
        let storage = desc.usage.contains(BUFFER_STORAGE);
        let entry = VulkanBuffer {
            buffer,
            memory,
            size: desc.size,
            usage: desc.usage,
            location: desc.memory,
            mapped: if desc.memory == MemoryUsage::GpuOnly {
                0
            } else {
                mapped
            },
        };
        if storage && self.buffers.next_index() >= self.bindless.buffer_capacity {
            let mut message = "storage buffer slot exceeds bindless capacity ".to_owned();
            message.append(text::decimal(self.bindless.buffer_capacity as u64).as_str());
            let cleanup = device::destroy_buffer_steps(&entry);
            let u = Unwind { cleanup, error: mismatch(message) };
            assert(u@ =~= UnwindView {
                cleanup: device::buffer_cleanup(entry),
                error: error::mismatch_view(
                    out_of_slots_text(old(self)@.bindless.buffer_capacity),
                ),
            });
            return Err(u);
        }
        let ghost before = self@;
        let h = self.buffers.insert(entry);
        proof {
            assert(self@ =~= DeviceView { buffers: before.buffers.insert(entry), ..before });
            lemma_insert_buffer_wf(before, entry);
        }
        let descriptor = if storage {
            Some(
                BufferDescriptor {
                    set: self.bindless.set,
                    binding: 0,
                    element: h.index(),
                    buffer,
                    offset: 0,
                    range: if desc.size == 0 {
                        vk::WHOLE_SIZE
                    } else {
                        desc.size
                    },
                },
            )
        } else {
            None
        };
        Ok((h, descriptor))
    }

    /// Address and size of the mapping of a buffer, if it is live and mapped.
    pub fn mapping(&self, h: BufferHandle) -> (r: Option<(u64, u64)>)
        ensures
            r == (if self@.buffers.live(h) && self@.buffers.value(h).mapped != 0 {
                Some((self@.buffers.value(h).mapped, self@.buffers.value(h).size))
            } else {
                None
            }),
    {
        match self.buffers.get(h) {
            Some(b) => if b.mapped != 0 {
                Some((b.mapped, b.size))
            } else {
                None
            },
            None => None,
        }
    }

    /// Writes `data` to a host-visible buffer, whose mapped memory is `memory`.
    pub fn write_buffer(
        &self,
        h: BufferHandle,
        offset: u64,
        data: &[u8],
        memory: &mut [u8],
    ) -> (r: Result<(), GpuError>)
        requires
            self@.buffers.live(h) && self@.buffers.value(h).mapped != 0 ==> old(memory)@.len()
                == self@.buffers.value(h).size,
        ensures
            match r {
                Ok(_) => write_fault(self@, h, offset, data@.len()) is None && final(memory)@
                    == stored(old(memory)@, offset as int, data@),
                Err(e) => write_fault(self@, h, offset, data@.len()) == Some(e@) && final(memory)@
                    == old(memory)@,
            },
    {
        let buf = match self.buffers.get(h) {
            Some(b) => b,
            None => {
                return Err(stale(&self.buffers, h));
            },
        };
        if self.in_flight != 0 {
            return Err(
                mismatch(
                    "write_buffer cannot mutate buffers while an asynchronous submission is pending".to_owned(),
                ),
            );
        }
        if buf.mapped == 0 {
            return Err(GpuError::Backend("write_buffer on non-host-visible buffer".to_owned()));
        }
        if let Err(e) = check_range(offset, data.len() as u64, buf.size) {
            return Err(e);
        }
        let size: usize = memory.len();
        assert(offset <= size);
        store(memory, offset as usize, data);
        Ok(())
    }

    /// Reads `len` bytes of a readback buffer, whose mapped memory is `memory`.
    pub fn read_buffer(&self, h: BufferHandle, offset: u64, len: u64, memory: &[u8]) -> (r: Result<
        Vec<u8>,
        GpuError,
    >)
        requires
            self@.buffers.live(h) && self@.buffers.value(h).mapped != 0 ==> memory@.len()
                == self@.buffers.value(h).size,
        ensures
            match r {
                Ok(bytes) => read_fault(self@, h, offset, len as nat) is None && bytes@
                    == memory@.subrange(offset as int, offset + len),
                Err(e) => read_fault(self@, h, offset, len as nat) == Some(e@),
            },
    {
        let buf = match self.buffers.get(h) {
            Some(b) => b,
            None => {
                return Err(stale(&self.buffers, h));
            },
        };
        if self.in_flight != 0 {
            return Err(
                mismatch(
                    "read_buffer cannot observe buffers while an asynchronous submission is pending".to_owned(),
                ),
            );
        }
        if !buf.usage.contains(BUFFER_READBACK) {
            return Err(missing_usage("buffer", "READBACK"));
        }
        if buf.mapped == 0 {
            return Err(GpuError::Backend("read_buffer on non-host-visible buffer".to_owned()));
        }
        if let Err(e) = check_range(offset, len, buf.size) {
            return Err(e);
        }
        let size: usize = memory.len();
        assert(offset + len <= size);
        let start: usize = offset as usize;
        let n: usize = len as usize;
        let mut out: Vec<u8> = Vec::with_capacity(n);
        let mut i: usize = 0;
        while i < n
            invariant
                size == memory@.len(),
                start + n <= size,
                i <= n,
                out@ == memory@.subrange(start as int, start + i),
            decreases n - i,
        {
            out.push(memory[start + i]);
            i += 1;
            assert(memory@.subrange(start as int, start + i) =~= memory@.subrange(
                start as int,
                start + i - 1,
            ).push(memory@[start + i - 1]));
        }
        Ok(out)
    }

    /// Reads bytes of a readback buffer, whose mapped memory is `memory`, into `dst`.
    pub fn read_buffer_into(
        &self,
        h: BufferHandle,
        offset: u64,
        dst: &mut [u8],
        memory: &[u8],
    ) -> (r: Result<(), GpuError>)
        requires
            self@.buffers.live(h) && self@.buffers.value(h).mapped != 0 ==> memory@.len()
                == self@.buffers.value(h).size,
        ensures
            match r {
                Ok(_) => read_into_fault(self@, h, offset, old(dst)@.len()) is None && final(dst)@
                    == memory@.subrange(offset as int, offset + old(dst)@.len()),
                Err(e) => read_into_fault(self@, h, offset, old(dst)@.len()) == Some(e@)
                    && final(dst)@ == old(dst)@,
            },
    {
        let buf = match self.buffers.get(h) {
            Some(b) => b,
            None => {
                return Err(stale(&self.buffers, h));
            },
        };
        if self.in_flight != 0 {
            return Err(
                mismatch(
                    "read_buffer_into cannot observe buffers while an asynchronous submission is pending".to_owned(),
                ),
            );
        }
        if !buf.usage.contains(BUFFER_READBACK) {
            return Err(missing_usage("buffer", "READBACK"));
        }
        if buf.mapped == 0 {
            return Err(
                GpuError::Backend("read_buffer_into on non-host-visible buffer".to_owned()),
            );
        }
        let n: usize = dst.len();
        if let Err(e) = check_range(offset, n as u64, buf.size) {
            return Err(e);
        }
        let size: usize = memory.len();
        assert(offset + n <= size);
        let start: usize = offset as usize;
        let ghost before = dst@;
        let mut i: usize = 0;
        while i < n
            invariant
                n == before.len(),
                dst@.len() == n,
                size == memory@.len(),
                start + n <= size,
                i <= n,
                forall|j: int| 0 <= j < i ==> #[trigger] dst@[j] == memory@[start + j],
            decreases n - i,
        {
            dst[i] = memory[start + i];
            i += 1;
        }
        assert(dst@ =~= memory@.subrange(offset as int, offset + n));
        Ok(())
    }
}

proof fn lemma_insert_buffer_wf(v: DeviceView, entry: VulkanBuffer)
    requires
        v.wf(),
        v.buffers.has_room(),
        v.buffers.insert(entry).wf(),
        entry.usage.has(BUFFER_STORAGE) ==> v.buffers.next_index() < v.bindless.buffer_capacity,
        entry.location is GpuOnly ==> entry.mapped == 0,
    ensures
        (DeviceView { buffers: v.buffers.insert(entry), ..v }).wf(),
{
    let n = DeviceView { buffers: v.buffers.insert(entry), ..v };
    if v.buffers.free.len() > 0 {
        assert(v.buffers.entries[v.buffers.free[v.buffers.free.len() - 1] as int].state is Free);
    }
    assert forall|i: int| #[trigger] n.buffers.occupied(i) implies n.buffer_ok(i) by {
        if i != v.buffers.next_index() {
            assert(v.buffers.occupied(i));
        }
    }
    assert forall|k: int| 0 <= k < n.deferred.len() implies {
        let d = #[trigger] n.deferred[k];
        n.retired(d.table(), d.slot()) || n.spent(d.table(), d.slot())
    } by {
        let d = v.deferred[k];
        assert(v.retired(d.table(), d.slot()) || v.spent(d.table(), d.slot()));
    }
    assert forall|table: device::Table, i: int| #[trigger] n.retired(table, i) implies n.awaits(
        table,
        i,
    ) by {
        assert(v.retired(table, i));
        let k = choose|k: int|
            0 <= k < v.deferred.len() && (#[trigger] v.deferred[k]).table() == table
                && v.deferred[k].slot() == i;
        assert(n.deferred[k].table() == table);
    }
}

// ── Laws ───────────────────────────────────────────────────────────────────────

/// What the host writes to a readback buffer it reads back: the read of the same range is
/// accepted and gives the bytes that were written.
pub proof fn write_then_read(
    v: DeviceView,
    h: BufferHandle,
    offset: u64,
    data: Seq<u8>,
    memory: Seq<u8>,
)
    requires
        write_fault(v, h, offset, data.len()) is None,
        v.buffers.value(h).usage.has(BUFFER_READBACK),
        memory.len() == v.buffers.value(h).size,
    ensures
        read_fault(v, h, offset, data.len()) is None,
        read_into_fault(v, h, offset, data.len()) is None,
        stored(memory, offset as int, data).subrange(offset as int, offset + data.len()) == data,
{
    assert(stored(memory, offset as int, data).subrange(offset as int, offset + data.len())
        =~= data);
}

/// A write changes only the bytes it covers.
pub proof fn write_keeps_other_bytes(offset: int, data: Seq<u8>, memory: Seq<u8>, i: int)
    requires
        0 <= i < memory.len(),
        i < offset || offset + data.len() <= i,
    ensures
        stored(memory, offset, data).len() == memory.len(),
        stored(memory, offset, data)[i] == memory[i],
{
}

/// A buffer handle is refused for every access once it is not live.
pub proof fn dead_buffer_is_refused(v: DeviceView, h: BufferHandle, offset: u64, len: nat)
    requires
        !v.buffers.live(h),
    ensures
        write_fault(v, h, offset, len) == Some(device::stale_view(v.buffers, h)),
        read_fault(v, h, offset, len) == Some(device::stale_view(v.buffers, h)),
        read_into_fault(v, h, offset, len) == Some(device::stale_view(v.buffers, h)),
{
}

/// The host touches no buffer while a submission is in flight.
pub proof fn host_waits_for_submissions(v: DeviceView, h: BufferHandle, offset: u64, len: nat)
    requires
        v.in_flight != 0,
    ensures
        write_fault(v, h, offset, len) is Some,
        read_fault(v, h, offset, len) is Some,
        read_into_fault(v, h, offset, len) is Some,
{
}

/// The host neither writes nor reads a buffer that is for the GPU only, whatever memory types the
/// device has.
pub proof fn gpu_only_buffer_is_refused(v: DeviceView, h: BufferHandle, offset: u64, len: nat)
    requires
        v.wf(),
        v.buffers.live(h),
        v.buffers.value(h).location is GpuOnly,
    ensures
        write_fault(v, h, offset, len) is Some,
        read_fault(v, h, offset, len) is Some,
        read_into_fault(v, h, offset, len) is Some,
{
    assert(v.buffer_ok(h.slot() as int));
}

/// Memory type `i` is one that `type_bits` allows, and has all of the properties `props`.
pub open spec fn suits(memory_types: Seq<u32>, type_bits: u32, props: u32, i: int) -> bool {
    &&& 0 <= i < memory_types.len()
    &&& type_bits & (1u32 << (i as u32)) != 0
    &&& memory_types[i] & props == props
}

/// A memory type that is found suits, and none before it does; none is found only where none
/// suits.
pub proof fn first_suitable_type_is_found(memory_types: Seq<u32>, type_bits: u32, props: u32)
    ensures
        match memory_type(memory_types, type_bits, props) {
            Some(i) => suits(memory_types, type_bits, props, i) && forall|j: int|
                0 <= j < i ==> !#[trigger] suits(memory_types, type_bits, props, j),
            None => forall|j: int| !#[trigger] suits(memory_types, type_bits, props, j),
        },
{
    let f = |i: int| type_fits(memory_types, type_bits, props, i);
    search::lemma_first_below(f, memory_types.len() as int);
    assert forall|j: int| 0 <= j < memory_types.len() implies #[trigger] suits(
        memory_types,
        type_bits,
        props,
        j,
    ) == f(j) by {}
}

/// Memory for the device alone is on the device. Memory that the host writes is visible and
/// coherent. Memory that both use is on the device as well where that can be had, and memory
/// that the host reads is cached as well where that can be had; else both are visible and
/// coherent at least.
pub proof fn memory_suits_its_usage(memory_types: Seq<u32>, type_bits: u32, usage: MemoryUsage)
    ensures
        ({
            let found = usage_memory_type(memory_types, type_bits, usage);
            match usage {
                MemoryUsage::GpuOnly | MemoryUsage::Pooled => finds(
                    memory_types,
                    type_bits,
                    vk::MEMORY_PROPERTY_DEVICE_LOCAL,
                    found,
                ),
                MemoryUsage::Upload | MemoryUsage::Transient | MemoryUsage::Persistent => finds(
                    memory_types,
                    type_bits,
                    6,
                    found,
                ),
                MemoryUsage::CpuToGpu => if exists|i: int| #[trigger]
                    suits(memory_types, type_bits, 7, i) {
                    finds(memory_types, type_bits, 7, found)
                } else {
                    finds(memory_types, type_bits, 6, found)
                },
                MemoryUsage::Readback => if exists|i: int| #[trigger]
                    suits(memory_types, type_bits, 14, i) {
                    finds(memory_types, type_bits, 14, found)
                } else {
                    finds(memory_types, type_bits, 6, found)
                },
            }
        }),
{
    assert(0x2u32 | 0x4u32 == 6 && 0x1u32 | 0x2u32 | 0x4u32 == 7 && 0x2u32 | 0x4u32 | 0x8u32 == 14)
        by (bit_vector);
    first_suitable_type_is_found(memory_types, type_bits, 1);
    first_suitable_type_is_found(memory_types, type_bits, 6);
    first_suitable_type_is_found(memory_types, type_bits, 7);
    first_suitable_type_is_found(memory_types, type_bits, 14);
}

/// `found` is the first memory type that suits, if any does.
pub open spec fn finds(memory_types: Seq<u32>, type_bits: u32, props: u32, found: Option<int>) -> bool {
    match found {
        Some(i) => suits(memory_types, type_bits, props, i) && forall|j: int|
            0 <= j < i ==> !#[trigger] suits(memory_types, type_bits, props, j),
        None => forall|j: int| !#[trigger] suits(memory_types, type_bits, props, j),
    }
}

/// A storage buffer is refused exactly where it is larger than the device allows, and again
/// where its slot would lie outside the bindless table; other buffers are not.
pub proof fn storage_buffers_are_bounded(v: DeviceView, desc: BufferDesc)
    ensures
        oversized(v, desc) <==> formats::has_bit(desc.usage.bits, BUFFER_STORAGE) && desc.size
            > v.info.limits.max_storage_buffer_range,
        out_of_slots(v, desc) <==> formats::has_bit(desc.usage.bits, BUFFER_STORAGE)
            && v.buffers.next_index() >= v.bindless.buffer_capacity,
{
    let u = desc.usage.bits;
    assert(u & 0x1 == 0x1 <==> u & 0x1 != 0) by (bit_vector);
}

/// A storage buffer is found by shaders in the first table, at the index of its slot, from its
/// first byte to its last. A buffer without bytes is bound as a whole.
pub proof fn storage_descriptor_is_the_buffer(set: u64, slot: u32, buffer: u64, size: u64)
    ensures
        ({
            let d = storage_descriptor(set, slot, buffer, size);
            &&& d.set == set
            &&& d.binding == 0
            &&& d.element == slot
            &&& d.buffer == buffer
            &&& d.offset == 0
            &&& size > 0 ==> d.range == size
            &&& size == 0 ==> d.range == 0xffff_ffff_ffff_ffff
        }),
{
}

/// The entry of a buffer remembers its objects and its description. It is mapped where its
/// memory was mapped, and never if it is for the GPU only.
pub proof fn entry_remembers_the_buffer(desc: BufferDesc, buffer: u64, memory: u64, mapped: u64)
    ensures
        ({
            let b = buffer_entry(desc, buffer, memory, mapped);
            &&& b.buffer == buffer
            &&& b.memory == memory
            &&& b.size == desc.size
            &&& b.usage.bits == desc.usage.bits
            &&& b.location == desc.memory
            &&& desc.memory is GpuOnly ==> b.mapped == 0
            &&& !(desc.memory is GpuOnly) ==> b.mapped == mapped
        }),
{
}

/// The host may write to a buffer exactly where it is live and mapped, nothing is in flight and
/// the bytes lie inside it; to read it, it must be for readback as well.
pub proof fn host_access_is_accepted_iff(v: DeviceView, h: BufferHandle, offset: u64, len: nat)
    ensures
        write_fault(v, h, offset, len) is None <==> {
            &&& v.buffers.live(h)
            &&& v.in_flight == 0
            &&& v.buffers.value(h).mapped != 0
            &&& offset + len <= v.buffers.value(h).size
        },
        read_fault(v, h, offset, len) is None <==> {
            &&& v.buffers.live(h)
            &&& v.in_flight == 0
            &&& formats::has_bit(v.buffers.value(h).usage.bits, BUFFER_READBACK)
            &&& v.buffers.value(h).mapped != 0
            &&& offset + len <= v.buffers.value(h).size
        },
        read_into_fault(v, h, offset, len) is None <==> read_fault(v, h, offset, len) is None,
{
    let u = v.buffers.value(h).usage.bits;
    assert(u & 0x80 == 0x80 <==> u & 0x80 != 0) by (bit_vector);
}

} // verus!
