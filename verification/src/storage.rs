//! Buffer storage: one unified-memory buffer per storage id, with sub-ranges of it as resources.
//!
//! A [`Metal4Resource`] carries the GPU address of its sub-range (for argument-table binding on the
//! launch path) and the host address of the same bytes (for reads and writes).

use std::collections::HashMap;

use vstd::prelude::*;

use crate::buffer::Buffer;
use crate::fmt::{text_taken, write_text};

verus! {

broadcast use vstd::std_specs::hash::group_hash_axioms;

/// Buffer storage on one device. `R` is the raw buffer that a driver holds.
pub struct Metal4Storage<R> {
    memory: HashMap<u64, Buffer<R>>,
    deallocations: Vec<u64>,
    mem_alignment: usize,
}

/// The state of a [`Metal4Storage`].
#[verifier::ext_equal]
pub struct Metal4StorageView<R> {
    /// The buffers, by storage id.
    pub memory: Map<u64, Buffer<R>>,
    /// The ids whose buffers the next flush drops.
    pub deallocations: Seq<u64>,
    /// Alignment of the storage in bytes.
    pub alignment: usize,
}

impl<R> core::fmt::Debug for Metal4Storage<R> {
    /// The name alone.
    fn fmt(&self, f: &mut core::fmt::Formatter<'_>) -> (r: core::fmt::Result)
        ensures
            r is Ok ==> text_taken(*final(f)) == text_taken(*old(f)) + "Metal4Storage"@,
    {
        write_text(f, "Metal4Storage")
    }
}

impl<R> View for Metal4Storage<R> {
    type V = Metal4StorageView<R>;

    closed spec fn view(&self) -> Metal4StorageView<R> {
        Metal4StorageView {
            memory: self.memory@,
            deallocations: self.deallocations@,
            alignment: self.mem_alignment,
        }
    }
}

/// A sub-range of the buffer with a storage id.
#[derive(Clone, Copy, Debug, PartialEq, Eq, Structural)]
pub struct StorageHandle {
    /// Which buffer.
    pub id: u64,
    /// Where in the buffer the sub-range starts, in bytes.
    pub offset: u64,
    /// Size of the sub-range in bytes.
    pub size: u64,
}

/// A resolved resource: a GPU address and a host address of one sub-range of a unified-memory
/// buffer.
#[derive(Clone, Copy, Debug, PartialEq, Eq, Structural)]
pub struct Metal4Resource {
    /// GPU virtual address of the start of the sub-range (base address + offset), ready to bind
    /// into an argument table.
    pub gpu_address: u64,
    /// Host address of the same sub-range (unified memory).
    pub ptr: usize,
    /// Size of the sub-range in bytes.
    pub size: usize,
}

impl<R> Metal4StorageView<R> {
    /// The state with a buffer under an id.
    pub open spec fn stored(self, id: u64, buffer: Buffer<R>) -> Self {
        Metal4StorageView { memory: self.memory.insert(id, buffer), ..self }
    }

    /// The state with one more id to deallocate.
    pub open spec fn scheduled(self, id: u64) -> Self {
        Metal4StorageView { deallocations: self.deallocations.push(id), ..self }
    }

    /// The state once the scheduled deallocations are done.
    pub open spec fn flushed(self) -> Self {
        Metal4StorageView {
            memory: self.memory.remove_keys(self.deallocations.to_set()),
            deallocations: seq![],
            ..self
        }
    }

    /// The handle names a sub-range of a stored buffer, and the addresses of the sub-range are
    /// addresses.
    pub open spec fn resolvable(self, handle: StorageHandle) -> bool {
        &&& self.memory.contains_key(handle.id)
        &&& handle.offset + handle.size <= self.memory[handle.id]@.len
        &&& self.memory[handle.id]@.gpu_address + handle.offset <= u64::MAX
        &&& self.memory[handle.id]@.host_address + handle.offset <= usize::MAX
    }

    /// What a handle resolves to.
    pub open spec fn resolved(self, handle: StorageHandle) -> Metal4Resource {
        let buffer = self.memory[handle.id]@;
        Metal4Resource {
            gpu_address: (buffer.gpu_address + handle.offset) as u64,
            ptr: (buffer.host_address + handle.offset) as usize,
            size: handle.size as usize,
        }
    }
}

impl<R> Metal4Storage<R> {
    /// Create empty storage.
    pub fn new(mem_alignment: usize) -> (r: Self)
        ensures
            r@ == (Metal4StorageView::<R> {
                memory: Map::empty(),
                deallocations: seq![],
                alignment: mem_alignment,
            }),
    {
        Metal4Storage { memory: HashMap::new(), deallocations: Vec::new(), mem_alignment }
    }

    /// Alignment of the storage in bytes.
    pub fn alignment(&self) -> (r: usize)
        ensures
            r == self@.alignment,
    {
        self.mem_alignment
    }

    /// Stores a buffer that was allocated for `size` bytes under a new id, and gives the handle of
    /// all of it.
    pub fn allocated(&mut self, id: u64, buffer: Buffer<R>, size: u64) -> (r: StorageHandle)
        ensures
            final(self)@ == old(self)@.stored(id, buffer),
            r == (StorageHandle { id, offset: 0, size }),
    {
        self.memory.insert(id, buffer);
        StorageHandle { id, offset: 0, size }
    }

    /// Register external, caller-owned memory of `len` bytes, for which a no-copy buffer was made,
    /// under a new id, and give the handle of all of it.
    pub fn register_external(&mut self, id: u64, buffer: Buffer<R>, len: usize) -> (r:
        StorageHandle)
        ensures
            final(self)@ == old(self)@.stored(id, buffer),
            r == (StorageHandle { id, offset: 0, size: len as u64 }),
    {
        self.memory.insert(id, buffer);
        StorageHandle { id, offset: 0, size: len as u64 }
    }

    /// Whether a handle can be resolved: its buffer is stored, and its sub-range lies within.
    pub fn can_resolve(&self, handle: &StorageHandle) -> (r: bool)
        ensures
            r == self@.resolvable(*handle),
    {
        match self.memory.get(&handle.id) {
            Some(buffer) => {
                let len: u64 = buffer.len() as u64;
                handle.offset <= len && handle.size <= len - handle.offset && handle.offset
                    <= u64::MAX - buffer.gpu_address() && handle.offset <= (usize::MAX
                    - buffer.contents_ptr()) as u64
            },
            None => false,
        }
    }

    /// Resolve a handle to its sub-range.
    pub fn get(&self, handle: &StorageHandle) -> (r: Metal4Resource)
        requires
            self@.resolvable(*handle),
        ensures
            r == self@.resolved(*handle),
    {
        match self.memory.get(&handle.id) {
            Some(buffer) => Metal4Resource {
                gpu_address: buffer.gpu_address() + handle.offset,
                ptr: buffer.contents_ptr() + handle.offset as usize,
                size: handle.size as usize,
            },
            None => Metal4Resource { gpu_address: 0, ptr: 0, size: 0 },
        }
    }

    /// Schedule the buffer of an id for deallocation at the next flush.
    pub fn dealloc(&mut self, id: u64)
        ensures
            final(self)@ == old(self)@.scheduled(id),
    {
        self.deallocations.push(id);
    }

    /// Drop the buffers of all scheduled ids.
    fn perform_deallocations(&mut self)
        ensures
            final(self)@ == old(self)@.flushed(),
    {
        let ghost before = self.memory@;
        let ghost scheduled = self.deallocations@;
        let mut i: usize = 0;
        while i < self.deallocations.len()
            invariant
                i <= scheduled.len(),
                self.deallocations@ == scheduled,
                self.mem_alignment == old(self).mem_alignment,
                self.memory@ == before.remove_keys(scheduled.take(i as int).to_set()),
            decreases scheduled.len() - i,
        {
            let id: u64 = self.deallocations[i];
            self.memory.remove(&id);
            i += 1;
            proof {
                let done = scheduled.take(i as int);
                assert(done =~= scheduled.take(i - 1).push(id));
                assert(self.memory@ =~= before.remove_keys(done.to_set())) by {
                    assert forall|k: u64| done.to_set().contains(k) == (scheduled.take(
                        i - 1,
                    ).to_set().contains(k) || k == id) by {
                        lemma_push_contains(scheduled.take(i - 1), id, k);
                    }
                }
            }
        }
        assert(scheduled.take(scheduled.len() as int) =~= scheduled);
        self.deallocations.clear();
    }

    /// Perform what was scheduled.
    pub fn flush(&mut self)
        ensures
            final(self)@ == old(self)@.flushed(),
    {
        self.perform_deallocations();
    }
}

/// A sequence with one more item holds that item and what it held before.
proof fn lemma_push_contains(s: Seq<u64>, item: u64, k: u64)
    ensures
        s.push(item).contains(k) == (s.contains(k) || k == item),
{
    let pushed = s.push(item);
    if s.contains(k) {
        let i = choose|i: int| 0 <= i < s.len() && s[i] == k;
        assert(pushed[i] == k);
    }
    if k == item {
        assert(pushed[s.len() as int] == k);
    }
    if pushed.contains(k) && k != item {
        let i = choose|i: int| 0 <= i < pushed.len() && pushed[i] == k;
        assert(s[i] == k);
    }
}

/// A freshly stored buffer is found under its id, and no other buffer changes.
pub proof fn law_stored_is_found<R>(
    storage: Metal4StorageView<R>,
    id: u64,
    buffer: Buffer<R>,
    other: u64,
)
    requires
        other != id,
    ensures
        storage.stored(id, buffer).memory.contains_key(id),
        storage.stored(id, buffer).memory[id] == buffer,
        storage.stored(id, buffer).memory.contains_key(other) == storage.memory.contains_key(other),
        storage.stored(id, buffer).memory[other] == storage.memory[other],
{
}

/// A deallocation is deferred: every handle resolves as before until the next flush.
pub proof fn law_dealloc_is_deferred<R>(
    storage: Metal4StorageView<R>,
    id: u64,
    handle: StorageHandle,
)
    ensures
        storage.scheduled(id).resolvable(handle) == storage.resolvable(handle),
        storage.scheduled(id).resolved(handle) == storage.resolved(handle),
{
}

/// A flush drops exactly the scheduled buffers: no handle to one of them resolves afterwards, and
/// every other handle resolves as before.
pub proof fn law_flush_drops_scheduled<R>(storage: Metal4StorageView<R>, handle: StorageHandle)
    ensures
        storage.deallocations.contains(handle.id) ==> !storage.flushed().resolvable(handle),
        !storage.deallocations.contains(handle.id) ==> {
            &&& storage.flushed().resolvable(handle) == storage.resolvable(handle)
            &&& storage.resolvable(handle) ==> storage.flushed().resolved(handle)
                == storage.resolved(handle)
        },
{
    assert(storage.deallocations.to_set().contains(handle.id)
        == storage.deallocations.contains(handle.id));
}

/// A second flush in a row changes nothing.
pub proof fn law_flush_idempotent<R>(storage: Metal4StorageView<R>)
    ensures
        storage.flushed().flushed() == storage.flushed(),
{
    let once = storage.flushed();
    assert(once.flushed().memory =~= once.memory) by {
        assert forall|k: u64| !once.deallocations.to_set().contains(k) by {
            assert(!once.deallocations.contains(k));
        }
    }
}

/// A resource lies within its buffer, on the device and on the host, at the same offset.
pub proof fn law_resource_within_buffer<R>(storage: Metal4StorageView<R>, handle: StorageHandle)
    requires
        storage.resolvable(handle),
    ensures
        ({
            let buffer = storage.memory[handle.id]@;
            let resource = storage.resolved(handle);
            &&& buffer.gpu_address <= resource.gpu_address
            &&& resource.gpu_address + resource.size <= buffer.gpu_address + buffer.len
            &&& buffer.host_address <= resource.ptr
            &&& resource.ptr + resource.size <= buffer.host_address + buffer.len
            &&& resource.gpu_address - buffer.gpu_address == resource.ptr - buffer.host_address
        }),
{
    assert(storage.memory[handle.id]@.len <= usize::MAX) by {
        storage.memory[handle.id].lemma_len_fits();
    }
}

/// A resource starts exactly as far behind the start of its buffer as the handle says, on the
/// device and on the host, and is as long as the handle says.
pub proof fn law_resource_at_offset<R>(storage: Metal4StorageView<R>, handle: StorageHandle)
    requires
        storage.resolvable(handle),
    ensures
        ({
            let buffer = storage.memory[handle.id]@;
            let resource = storage.resolved(handle);
            &&& resource.gpu_address - buffer.gpu_address == handle.offset
            &&& resource.ptr - buffer.host_address == handle.offset
            &&& resource.size == handle.size
        }),
{
    storage.memory[handle.id].lemma_len_fits();
}

/// Handles of disjoint sub-ranges of a buffer resolve to disjoint resources, on the device and on
/// the host, in the same order.
pub proof fn law_disjoint_handles_stay_disjoint<R>(
    storage: Metal4StorageView<R>,
    a: StorageHandle,
    b: StorageHandle,
)
    requires
        storage.resolvable(a),
        storage.resolvable(b),
        a.id == b.id,
        a.offset + a.size <= b.offset,
    ensures
        storage.resolved(a).gpu_address + storage.resolved(a).size <= storage.resolved(
            b,
        ).gpu_address,
        storage.resolved(a).ptr + storage.resolved(a).size <= storage.resolved(b).ptr,
{
    law_resource_at_offset(storage, a);
    law_resource_at_offset(storage, b);
}

/// Two handles to the same bytes of a buffer are the same handle.
pub proof fn law_resource_tells_handle<R>(
    storage: Metal4StorageView<R>,
    a: StorageHandle,
    b: StorageHandle,
)
    requires
        storage.resolvable(a),
        storage.resolvable(b),
        a.id == b.id,
        storage.resolved(a) == storage.resolved(b),
    ensures
        a == b,
{
    law_resource_at_offset(storage, a);
    law_resource_at_offset(storage, b);
}

/// A handle resolves exactly if its buffer is stored, its sub-range ends within the buffer, and the
/// sub-range starts at an address on the device and on the host.
pub proof fn law_resolvable_within_buffer<R>(storage: Metal4StorageView<R>, handle: StorageHandle)
    ensures
        storage.resolvable(handle) <==> {
            &&& storage.memory.contains_key(handle.id)
            &&& handle.offset + handle.size <= storage.memory[handle.id]@.len
            &&& storage.memory[handle.id]@.gpu_address + handle.offset <= u64::MAX
            &&& storage.memory[handle.id]@.host_address + handle.offset <= usize::MAX
        },
{
}

/// Storing a buffer schedules nothing, scheduling one drops nothing, a flush leaves nothing
/// scheduled, and the alignment never changes.
pub proof fn law_storage_operations_keep_the_rest<R>(
    storage: Metal4StorageView<R>,
    id: u64,
    buffer: Buffer<R>,
)
    ensures
        storage.stored(id, buffer).deallocations == storage.deallocations,
        storage.stored(id, buffer).alignment == storage.alignment,
        storage.stored(id, buffer).memory.dom() == storage.memory.dom().insert(id),
        storage.scheduled(id).memory == storage.memory,
        storage.scheduled(id).alignment == storage.alignment,
        storage.scheduled(id).deallocations.len() == storage.deallocations.len() + 1,
        storage.scheduled(id).deallocations.last() == id,
        storage.scheduled(id).deallocations.drop_last() == storage.deallocations,
        storage.flushed().deallocations.len() == 0,
        storage.flushed().alignment == storage.alignment,
{
    assert(storage.stored(id, buffer).memory.dom() =~= storage.memory.dom().insert(id));
    assert(storage.scheduled(id).deallocations.drop_last() =~= storage.deallocations);
}

/// A flush keeps a buffer exactly if it was not scheduled, and keeps it as it was.
pub proof fn law_flush_keeps_unscheduled<R>(storage: Metal4StorageView<R>, id: u64)
    ensures
        storage.flushed().memory.contains_key(id) <==> storage.memory.contains_key(id)
            && !storage.deallocations.contains(id),
        storage.flushed().memory.contains_key(id) ==> storage.flushed().memory[id]
            == storage.memory[id],
{
    assert(storage.deallocations.to_set().contains(id) == storage.deallocations.contains(id));
}

/// What was stored last under a number is found under it: the handle that came back resolves to
/// the start of that buffer, with the size that was asked for.
pub proof fn law_allocated_handle_resolves<R>(
    first: &mut Metal4Storage<R>,
    second: &Metal4Storage<R>,
    id: u64,
    buffer: Buffer<R>,
    size: u64,
    handle: StorageHandle,
    r: Metal4Resource,
)
    requires
        size <= buffer@.len,
        buffer@.len <= usize::MAX,
        call_ensures(Metal4Storage::<R>::allocated, (first, id, buffer, size), handle),
        call_ensures(Metal4Storage::<R>::get, (second, &handle), r),
        second@ == final(first)@,
    ensures
        handle.id == id,
        r.gpu_address == buffer@.gpu_address,
        r.ptr == buffer@.host_address,
        r.size == size,
{
}

/// A resource lies where its handle says: as far into the buffer as the offset, and as long as the
/// size.
pub proof fn law_resource_lies_at_offset<R>(
    storage: &Metal4Storage<R>,
    handle: &StorageHandle,
    r: Metal4Resource,
)
    requires
        storage@.memory.dom().contains(handle.id),
        handle.offset + handle.size <= storage@.memory[handle.id]@.len <= usize::MAX,
        handle.offset + storage@.memory[handle.id]@.gpu_address <= u64::MAX,
        handle.offset + storage@.memory[handle.id]@.host_address <= usize::MAX,
        call_ensures(Metal4Storage::<R>::get, (storage, handle), r),
    ensures
        r.gpu_address - storage@.memory[handle.id]@.gpu_address == handle.offset,
        r.ptr - storage@.memory[handle.id]@.host_address == handle.offset,
        r.size == handle.size,
{
}

/// A handle can be resolved exactly where its range lies in a buffer that is there and its two
/// addresses can be written down.
pub proof fn law_resolvable_where_range_exists<R>(
    storage: &Metal4Storage<R>,
    handle: &StorageHandle,
    r: bool,
)
    requires
        call_ensures(Metal4Storage::<R>::can_resolve, (storage, handle), r),
    ensures
        r ==> storage@.memory.dom().contains(handle.id),
        storage@.memory.dom().contains(handle.id) ==> r == (handle.offset + handle.size
            <= storage@.memory[handle.id]@.len && handle.offset
            + storage@.memory[handle.id]@.gpu_address <= u64::MAX && handle.offset
            + storage@.memory[handle.id]@.host_address <= usize::MAX),
{
}

/// A buffer that is deallocated is there until the flush and gone behind it. The other buffers
/// that were not scheduled stay.
pub proof fn law_deallocated_until_flush<R>(
    first: &mut Metal4Storage<R>,
    second: &mut Metal4Storage<R>,
    id: u64,
    other: u64,
)
    requires
        call_ensures(Metal4Storage::<R>::dealloc, (first, id), ()),
        call_ensures(Metal4Storage::<R>::flush, (second,), ()),
        old(second)@ == final(first)@,
        old(first)@.memory.dom().contains(other),
        other != id,
        !old(first)@.deallocations.contains(other),
    ensures
        final(first)@.memory == old(first)@.memory,
        !final(second)@.memory.dom().contains(id),
        final(second)@.memory.dom().contains(other),
        final(second)@.memory[other] == old(first)@.memory[other],
        final(second)@.deallocations.len() == 0,
        final(second)@.alignment == old(first)@.alignment,
{
    assert(old(second)@.deallocations.last() == id);
    assert(old(second)@.deallocations.contains(id));
    assert forall|i: int| 0 <= i < old(second)@.deallocations.len() implies old(
        second,
    )@.deallocations[i] != other by {
        if i < old(first)@.deallocations.len() {
            assert(old(first)@.deallocations[i] == old(second)@.deallocations[i]);
        }
    }
}

/// External memory is found at the start of the buffer over it, in its whole length.
pub proof fn law_external_memory_is_found<R>(
    storage: &mut Metal4Storage<R>,
    id: u64,
    buffer: Buffer<R>,
    len: usize,
    handle: StorageHandle,
    other: u64,
)
    requires
        call_ensures(Metal4Storage::<R>::register_external, (storage, id, buffer, len), handle),
        other != id,
    ensures
        handle.id == id,
        handle.offset == 0,
        handle.size == len,
        final(storage)@.memory.dom().contains(id),
        final(storage)@.memory[id] == buffer,
        final(storage)@.memory.dom().contains(other) <==> old(storage)@.memory.dom().contains(
            other,
        ),
        old(storage)@.memory.dom().contains(other) ==> final(storage)@.memory[other] == old(
            storage,
        )@.memory[other],
        final(storage)@.deallocations == old(storage)@.deallocations,
        final(storage)@.alignment == old(storage)@.alignment,
{
}

/// A new storage holds nothing, has nothing scheduled, and tells the alignment that it was given.
pub proof fn law_new_storage_is_empty<R>(
    alignment: usize,
    storage: Metal4Storage<R>,
    told: usize,
    handle: &StorageHandle,
    resolvable: bool,
)
    requires
        call_ensures(Metal4Storage::<R>::new, (alignment,), storage),
        call_ensures(Metal4Storage::<R>::alignment, (&storage,), told),
        call_ensures(Metal4Storage::<R>::can_resolve, (&storage, handle), resolvable),
    ensures
        told == alignment,
        !resolvable,
        storage@.deallocations.len() == 0,
{
}

} // verus!
