//! Slot map with generational handles.
//!
//! A slot is reused after its value is removed, under a new generation, so that a handle to
//! the removed value is told apart from a handle to the new one. A slot may also be retired:
//! its handle is dead at once, but the slot is set aside until it is released.
use core::marker::PhantomData;
use vstd::prelude::*;

verus! {

/// Reference to a value in a [`SlotMap`] of the same marker type.
#[derive(Debug)]
pub struct Handle<M> {
    index: u32,
    generation: u32,
    marker: PhantomData<M>,
}

impl<M> Clone for Handle<M> {
    fn clone(&self) -> (h: Self)
        ensures
            h == *self,
    {
        Handle { index: self.index, generation: self.generation, marker: PhantomData }
    }
}

impl<M> Copy for Handle<M> {

}

impl<M> Handle<M> {
    pub closed spec fn slot(self) -> u32 {
        self.index
    }

    pub closed spec fn gen(self) -> u32 {
        self.generation
    }

    /// Handle with the given slot and generation.
    pub fn from_parts(index: u32, generation: u32) -> (h: Self)
        ensures
            h.slot() == index,
            h.gen() == generation,
    {
        Handle { index, generation, marker: PhantomData }
    }

    /// Slot index.
    pub fn index(&self) -> (i: u32)
        ensures
            i == self.slot(),
    {
        self.index
    }

    /// Generation of the slot when the handle was made.
    pub fn generation(&self) -> (g: u32)
        ensures
            g == self.gen(),
    {
        self.generation
    }

    /// Whether two handles are the same.
    pub fn same(&self, other: &Self) -> (r: bool)
        ensures
            r == (*self == *other),
    {
        self.index == other.index && self.generation == other.generation
    }

    /// A handle is its slot and generation.
    pub proof fn lemma_parts(a: Self, b: Self)
        requires
            a.slot() == b.slot(),
            a.gen() == b.gen(),
        ensures
            a == b,
    {
    }
}

/// What a slot holds.
#[derive(Debug)]
pub enum SlotState<T> {
    Live(T),
    /// Ready for reuse.
    Free,
    /// Its value is gone, and it waits to be released.
    Retired,
    /// Its generations are used up; it is never used again.
    Spent,
}

/// One slot.
#[derive(Debug)]
pub struct Entry<T> {
    pub generation: u32,
    pub state: SlotState<T>,
}

/// Contents of a slot map: its slots, and the free ones in the order in which they became
/// free. The last is reused first.
#[verifier::ext_equal]
pub struct Slots<T> {
    pub entries: Seq<Entry<T>>,
    pub free: Seq<u32>,
}

impl<T> Slots<T> {
    pub open spec fn wf(self) -> bool {
        &&& self.entries.len() <= u32::MAX
        &&& forall|k: int|
            0 <= k < self.free.len() ==> (#[trigger] self.free[k]) < self.entries.len()
                && self.entries[self.free[k] as int].state is Free
        &&& forall|j: int, k: int|
            0 <= j < k < self.free.len() ==> #[trigger] self.free[j] != #[trigger] self.free[k]
    }

    /// Another value can be inserted.
    pub open spec fn has_room(self) -> bool {
        self.free.len() > 0 || self.entries.len() < u32::MAX
    }

    /// Number of values that can be inserted.
    pub open spec fn room(self) -> int {
        self.free.len() + (u32::MAX - self.entries.len())
    }

    /// Slot that the next insertion uses.
    pub open spec fn next_index(self) -> int {
        if self.free.len() > 0 {
            self.free.last() as int
        } else {
            self.entries.len() as int
        }
    }

    /// Generation that the next insertion uses.
    pub open spec fn next_generation(self) -> u32 {
        if self.free.len() > 0 {
            self.entries[self.free.last() as int].generation
        } else {
            0
        }
    }

    /// Slot `i` holds a value.
    pub open spec fn occupied(self, i: int) -> bool {
        0 <= i < self.entries.len() && self.entries[i].state is Live
    }

    /// `h` refers to a value in the map.
    pub open spec fn live<M>(self, h: Handle<M>) -> bool {
        self.occupied(h.slot() as int) && self.entries[h.slot() as int].generation == h.gen()
    }

    /// Value in slot `i`.
    pub open spec fn at(self, i: int) -> T {
        self.entries[i].state->Live_0
    }

    /// Value that `h` refers to.
    pub open spec fn value<M>(self, h: Handle<M>) -> T {
        self.at(h.slot() as int)
    }

    pub open spec fn insert(self, value: T) -> Slots<T> {
        if self.free.len() > 0 {
            let i = self.free.last() as int;
            Slots {
                entries: self.entries.update(
                    i,
                    Entry {
                        generation: self.entries[i].generation,
                        state: SlotState::Live(value),
                    },
                ),
                free: self.free.drop_last(),
            }
        } else {
            Slots {
                entries: self.entries.push(
                    Entry { generation: 0, state: SlotState::Live(value) },
                ),
                free: self.free,
            }
        }
    }

    /// Replaces the value in slot `i`.
    pub open spec fn replace(self, i: int, value: T) -> Slots<T> {
        Slots {
            entries: self.entries.update(
                i,
                Entry { generation: self.entries[i].generation, state: SlotState::Live(value) },
            ),
            free: self.free,
        }
    }

    /// Takes the value out of slot `i` and frees the slot.
    pub open spec fn remove(self, i: int) -> Slots<T> {
        let g = self.entries[i].generation;
        if g < u32::MAX {
            Slots {
                entries: self.entries.update(
                    i,
                    Entry { generation: (g + 1) as u32, state: SlotState::Free },
                ),
                free: self.free.push(i as u32),
            }
        } else {
            Slots {
                entries: self.entries.update(i, Entry { generation: g, state: SlotState::Spent }),
                free: self.free,
            }
        }
    }

    /// Takes the value out of slot `i` and sets the slot aside.
    pub open spec fn retire(self, i: int) -> Slots<T> {
        let g = self.entries[i].generation;
        Slots {
            entries: self.entries.update(
                i,
                if g < u32::MAX {
                    Entry { generation: (g + 1) as u32, state: SlotState::Retired }
                } else {
                    Entry { generation: g, state: SlotState::Spent }
                },
            ),
            free: self.free,
        }
    }

    /// Frees slot `i` if it is retired.
    pub open spec fn release(self, i: int) -> Slots<T> {
        if 0 <= i < self.entries.len() && self.entries[i].state is Retired {
            Slots {
                entries: self.entries.update(
                    i,
                    Entry { generation: self.entries[i].generation, state: SlotState::Free },
                ),
                free: self.free.push(i as u32),
            }
        } else {
            self
        }
    }

    /// Values of the first `k` slots, in slot order.
    pub open spec fn values(self, k: int) -> Seq<T>
        decreases k,
    {
        if k <= 0 {
            Seq::empty()
        } else if self.entries[k - 1].state is Live {
            self.values(k - 1).push(self.at(k - 1))
        } else {
            self.values(k - 1)
        }
    }
}

/// Values addressed by generational handles.
pub struct SlotMap<M, T> {
    entries: Vec<Entry<T>>,
    free: Vec<u32>,
    marker: PhantomData<M>,
}

impl<M, T> View for SlotMap<M, T> {
    type V = Slots<T>;

    closed spec fn view(&self) -> Slots<T> {
        Slots { entries: self.entries@, free: self.free@ }
    }
}

impl<M, T: Copy> SlotMap<M, T> {
    /// Empty map.
    pub fn new() -> (map: Self)
        ensures
            map@.entries == Seq::<Entry<T>>::empty(),
            map@.free == Seq::<u32>::empty(),
            map@.wf(),
    {
        SlotMap { entries: Vec::new(), free: Vec::new(), marker: PhantomData }
    }

    /// Whether another value can be inserted.
    pub fn has_room(&self) -> (r: bool)
        ensures
            r == self@.has_room(),
    {
        self.free.len() > 0 || (self.entries.len() as u64) < u32::MAX as u64
    }

    /// Whether `n` more values can be inserted.
    pub fn has_room_for(&self, n: u64) -> (r: bool)
        requires
            self@.wf(),
        ensures
            r == (self@.room() >= n),
    {
        let free: u64 = self.free.len() as u64;
        free >= n || n - free <= u32::MAX as u64 - self.entries.len() as u64
    }

    /// Slot that the next insertion uses.
    pub fn next_index(&self) -> (i: u32)
        requires
            self@.wf(),
        ensures
            i == self@.next_index(),
    {
        if self.free.len() > 0 {
            self.free[self.free.len() - 1]
        } else {
            self.entries.len() as u32
        }
    }

    /// Adds a value. The handle is the only one that refers to it.
    pub fn insert(&mut self, value: T) -> (h: Handle<M>)
        requires
            old(self)@.wf(),
            old(self)@.has_room(),
        ensures
            final(self)@ == old(self)@.insert(value),
            final(self)@.wf(),
            h.slot() == old(self)@.next_index(),
            h.gen() == old(self)@.next_generation(),
            final(self)@.live(h),
            final(self)@.value(h) == value,
    {
        let ghost before = self@;
        match self.free.pop() {
            Some(i) => {
                assert(before.free[before.free.len() - 1] == i);
                let generation: u32 = self.entries[i as usize].generation;
                self.entries.set(i as usize, Entry { generation, state: SlotState::Live(value) });
                proof {
                    assert(self@ =~= before.insert(value));
                    lemma_insert_wf(before, value);
                }
                Handle { index: i, generation, marker: PhantomData }
            },
            None => {
                let i: u32 = self.entries.len() as u32;
                self.entries.push(Entry { generation: 0, state: SlotState::Live(value) });
                proof {
                    assert(self@ =~= before.insert(value));
                    lemma_insert_wf(before, value);
                }
                Handle { index: i, generation: 0, marker: PhantomData }
            },
        }
    }

    /// Value that `h` refers to.
    pub fn get(&self, h: Handle<M>) -> (r: Option<T>)
        ensures
            r == (if self@.live(h) {
                Some(self@.value(h))
            } else {
                None
            }),
    {
        if (h.index as usize) < self.entries.len() && self.entries[h.index as usize].generation
            == h.generation {
            match self.entries[h.index as usize].state {
                SlotState::Live(value) => Some(value),
                _ => None,
            }
        } else {
            None
        }
    }

    /// Value in slot `index`, whatever its generation.
    pub fn get_by_slot_index(&self, index: u32) -> (r: Option<T>)
        ensures
            r == (if self@.occupied(index as int) {
                Some(self@.at(index as int))
            } else {
                None
            }),
    {
        if (index as usize) < self.entries.len() {
            match self.entries[index as usize].state {
                SlotState::Live(value) => Some(value),
                _ => None,
            }
        } else {
            None
        }
    }

    /// Generation of slot `index`, or `None` if there is no such slot.
    pub fn generation_at(&self, index: u32) -> (r: Option<u32>)
        ensures
            r == (if (index as int) < self@.entries.len() {
                Some(self@.entries[index as int].generation)
            } else {
                None
            }),
    {
        if (index as usize) < self.entries.len() {
            Some(self.entries[index as usize].generation)
        } else {
            None
        }
    }

    /// Stores `value` in place of the one that `h` refers to. Does nothing for a dead handle.
    pub fn replace(&mut self, h: Handle<M>, value: T) -> (replaced: bool)
        requires
            old(self)@.wf(),
        ensures
            replaced == old(self)@.live(h),
            final(self)@ == (if old(self)@.live(h) {
                old(self)@.replace(h.slot() as int, value)
            } else {
                old(self)@
            }),
            final(self)@.wf(),
    {
        let ghost before = self@;
        if self.get(h).is_some() {
            self.entries.set(
                h.index as usize,
                Entry { generation: h.generation, state: SlotState::Live(value) },
            );
            assert(self@ =~= before.replace(h.slot() as int, value));
            true
        } else {
            false
        }
    }

    /// Takes out the value that `h` refers to; its slot may be reused at once.
    pub fn remove(&mut self, h: Handle<M>) -> (r: Option<T>)
        requires
            old(self)@.wf(),
        ensures
            r == (if old(self)@.live(h) {
                Some(old(self)@.value(h))
            } else {
                None
            }),
            final(self)@ == (if old(self)@.live(h) {
                old(self)@.remove(h.slot() as int)
            } else {
                old(self)@
            }),
            final(self)@.wf(),
            !final(self)@.live(h),
    {
        let ghost before = self@;
        let r = self.get(h);
        if r.is_some() {
            let i: usize = h.index as usize;
            if h.generation < u32::MAX {
                self.entries.set(
                    i,
                    Entry { generation: h.generation + 1, state: SlotState::Free },
                );
                self.free.push(h.index);
            } else {
                self.entries.set(i, Entry { generation: h.generation, state: SlotState::Spent });
            }
            assert(self@ =~= before.remove(h.slot() as int));
        }
        r
    }

    /// Takes out the value that `h` refers to; its slot is set aside until
    /// [`SlotMap::release_retired`].
    pub fn retire(&mut self, h: Handle<M>) -> (r: Option<T>)
        requires
            old(self)@.wf(),
        ensures
            r == (if old(self)@.live(h) {
                Some(old(self)@.value(h))
            } else {
                None
            }),
            final(self)@ == (if old(self)@.live(h) {
                old(self)@.retire(h.slot() as int)
            } else {
                old(self)@
            }),
            final(self)@.wf(),
            !final(self)@.live(h),
    {
        let ghost before = self@;
        let r = self.get(h);
        if r.is_some() {
            let i: usize = h.index as usize;
            if h.generation < u32::MAX {
                self.entries.set(
                    i,
                    Entry { generation: h.generation + 1, state: SlotState::Retired },
                );
            } else {
                self.entries.set(i, Entry { generation: h.generation, state: SlotState::Spent });
            }
            assert(self@ =~= before.retire(h.slot() as int));
        }
        r
    }

    /// Frees slot `index` for reuse if it is retired.
    pub fn release_retired(&mut self, index: u32)
        requires
            old(self)@.wf(),
        ensures
            final(self)@ == old(self)@.release(index as int),
            final(self)@.wf(),
    {
        let ghost before = self@;
        if (index as usize) < self.entries.len() {
            let i: usize = index as usize;
            if matches!(self.entries[i].state, SlotState::Retired) {
                let generation: u32 = self.entries[i].generation;
                self.entries.set(i, Entry { generation, state: SlotState::Free });
                self.free.push(index);
                assert(self@ =~= before.release(index as int));
            }
        }
    }

    /// All values, in slot order.
    pub fn all(&self) -> (out: Vec<T>)
        ensures
            out@ == self@.values(self@.entries.len() as int),
    {
        let mut out: Vec<T> = Vec::new();
        let n: usize = self.entries.len();
        let mut i: usize = 0;
        while i < n
            invariant
                n == self@.entries.len(),
                i <= n,
                out@ == self@.values(i as int),
            decreases n - i,
        {
            if let SlotState::Live(value) = self.entries[i].state {
                out.push(value);
            }
            i += 1;
        }
        out
    }
}

proof fn lemma_insert_wf<T>(m: Slots<T>, value: T)
    requires
        m.wf(),
        m.has_room(),
    ensures
        m.insert(value).wf(),
{
    let n = m.insert(value);
    assert forall|k: int| 0 <= k < n.free.len() implies (#[trigger] n.free[k]) < n.entries.len()
        && n.entries[n.free[k] as int].state is Free by {
        assert(n.free[k] == m.free[k]);
        if m.free.len() > 0 {
            assert(m.free[k] != m.free[m.free.len() - 1]);
        }
    }
    assert forall|j: int, k: int| 0 <= j < k < n.free.len() implies #[trigger] n.free[j]
        != #[trigger] n.free[k] by {
        assert(m.free[j] != m.free[k]);
    }
}

/// Insertion uses up one place.
pub proof fn lemma_room<T>(m: Slots<T>, value: T)
    requires
        m.wf(),
    ensures
        m.has_room() == (m.room() > 0),
        m.has_room() ==> m.insert(value).wf() && m.insert(value).room() == m.room() - 1,
{
    if m.has_room() {
        lemma_insert_wf(m, value);
    }
}

// ── Laws ───────────────────────────────────────────────────────────────────────

/// One operation on a slot map.
pub enum SlotStep<T> {
    Insert(T),
    Replace(int, T),
    Remove(int),
    Retire(int),
    Release(int),
}

impl<T> Slots<T> {
    /// The operation is one that [`SlotMap`] performs on these contents.
    pub open spec fn allows(self, step: SlotStep<T>) -> bool {
        match step {
            SlotStep::Insert(_) => self.has_room(),
            SlotStep::Replace(i, _) => self.occupied(i),
            SlotStep::Remove(i) => self.occupied(i),
            SlotStep::Retire(i) => self.occupied(i),
            SlotStep::Release(_) => true,
        }
    }

    pub open spec fn after(self, step: SlotStep<T>) -> Slots<T> {
        match step {
            SlotStep::Insert(value) => self.insert(value),
            SlotStep::Replace(i, value) => self.replace(i, value),
            SlotStep::Remove(i) => self.remove(i),
            SlotStep::Retire(i) => self.retire(i),
            SlotStep::Release(i) => self.release(i),
        }
    }

    /// `h` referred to a value that has been taken out.
    pub open spec fn expired<M>(self, h: Handle<M>) -> bool {
        &&& h.slot() < self.entries.len()
        &&& {
            ||| self.entries[h.slot() as int].generation > h.gen()
            ||| self.entries[h.slot() as int].generation == h.gen()
                && self.entries[h.slot() as int].state is Spent
        }
    }
}

/// A handle is expired as soon as its value is removed or retired.
pub proof fn taken_out_is_expired<M, T>(m: Slots<T>, h: Handle<M>)
    requires
        m.wf(),
        m.live(h),
    ensures
        m.remove(h.slot() as int).expired(h),
        m.retire(h.slot() as int).expired(h),
{
}

/// An expired handle refers to nothing.
pub proof fn expired_is_not_live<M, T>(m: Slots<T>, h: Handle<M>)
    requires
        m.expired(h),
    ensures
        !m.live(h),
{
}

/// An expired handle stays expired, whatever happens to the map: no slot is ever reused under
/// a generation that it has had.
pub proof fn expired_for_ever<M, T>(m: Slots<T>, step: SlotStep<T>, h: Handle<M>)
    requires
        m.wf(),
        m.allows(step),
        m.expired(h),
    ensures
        m.after(step).wf(),
        m.after(step).expired(h),
{
    if let SlotStep::Insert(value) = step {
        lemma_insert_wf(m, value);
        if m.free.len() > 0 {
            assert(m.entries[m.free[m.free.len() - 1] as int].state is Free);
        }
    }
    match step {
        SlotStep::Remove(i) | SlotStep::Retire(i) | SlotStep::Replace(i, _) | SlotStep::Release(
            i,
        ) => {
            let n = m.after(step);
            assert forall|k: int| 0 <= k < m.free.len() implies #[trigger] m.free[k] != i || m.after(step) == m by {
                assert(m.entries[m.free[k] as int].state is Free);
            }
            assert forall|k: int| 0 <= k < n.free.len() implies (#[trigger] n.free[k])
                < n.entries.len() && n.entries[n.free[k] as int].state is Free by {
                if k < m.free.len() {
                    assert(n.free[k] == m.free[k]);
                }
            }
        },
        _ => {},
    }
}

/// A new value never gets the handle of a value that is or was in the map, and leaves the
/// other values alone.
pub proof fn insert_is_fresh<M, T>(m: Slots<T>, value: T, h: Handle<M>)
    requires
        m.wf(),
        m.has_room(),
        m.live(h) || m.expired(h),
    ensures
        !(h.slot() == m.next_index() && h.gen() == m.next_generation()),
        m.insert(value).live(h) == m.live(h),
        m.live(h) ==> m.insert(value).value(h) == m.value(h),
{
    if m.free.len() > 0 {
        assert(m.entries[m.free[m.free.len() - 1] as int].state is Free);
    }
}

/// Operations on one slot leave the values in other slots alone.
pub proof fn other_slots_are_kept<M, T>(m: Slots<T>, i: int, value: T, h: Handle<M>)
    requires
        m.wf(),
        m.occupied(i),
        h.slot() != i,
    ensures
        m.remove(i).live(h) == m.live(h),
        m.retire(i).live(h) == m.live(h),
        m.replace(i, value).live(h) == m.live(h),
        m.live(h) ==> m.remove(i).value(h) == m.value(h) && m.retire(i).value(h) == m.value(h)
            && m.replace(i, value).value(h) == m.value(h),
{
}

/// A retired slot is not handed out: insertion uses another one until it is released.
pub proof fn retired_slot_is_not_reused<T>(m: Slots<T>, i: int)
    requires
        m.wf(),
        0 <= i < m.entries.len(),
        m.entries[i].state is Retired,
    ensures
        m.next_index() != i,
{
    if m.free.len() > 0 {
        assert(m.entries[m.free[m.free.len() - 1] as int].state is Free);
    }
}

/// A removed slot, or a retired slot once it is released, is the next one to be reused, until
/// its generations are used up.
pub proof fn freed_slot_is_next<T>(m: Slots<T>, i: int)
    requires
        m.wf(),
        m.occupied(i),
        m.entries[i].generation < u32::MAX,
    ensures
        m.remove(i).next_index() == i,
        m.retire(i).release(i).next_index() == i,
{
}

} // verus!
