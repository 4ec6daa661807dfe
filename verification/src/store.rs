//! Generational arena: stable handles to owned payloads.
//!
//! A handle is a slot index paired with the generation the slot had
//! when the payload was stored. A lookup succeeds only while the
//! generations still agree, so a handle whose payload was removed
//! stays absent forever, even after the slot is reused.

use core::marker::PhantomData;
use vstd::prelude::*;

verus! {

/// A stable, copyable reference to a payload of type `T` inside a
/// `SimpleStore<T>`.
pub struct SimpleHandle<T> {
    index: usize,
    generation: u64,
    marker: PhantomData<T>,
}

impl<T> SimpleHandle<T> {
    /// The slot this handle points at.
    pub closed spec fn spec_index(self) -> int {
        self.index as int
    }

    /// The slot generation this handle was issued under.
    pub closed spec fn spec_generation(self) -> int {
        self.generation as int
    }

    fn new(index: usize, generation: u64) -> (h: Self)
        ensures
            h.spec_index() == index,
            h.spec_generation() == generation,
    {
        SimpleHandle { index, generation, marker: PhantomData }
    }
}

impl<T> Clone for SimpleHandle<T> {
    fn clone(&self) -> (h: Self)
        ensures
            h == *self,
    {
        SimpleHandle { index: self.index, generation: self.generation, marker: PhantomData }
    }
}

impl<T> Copy for SimpleHandle<T> {}

struct SimpleStoreEntry<T> {
    item: Option<T>,
    current_generation: u64,
}

/// Generational arena owning payloads of type `T`.
pub struct SimpleStore<T> {
    entries: Vec<SimpleStoreEntry<T>>,
    open_indices: Vec<usize>,
}

impl<T> SimpleStore<T> {
    /// `h` currently resolves to a payload.
    pub closed spec fn valid(self, h: SimpleHandle<T>) -> bool {
        &&& 0 <= h.spec_index() < self.entries@.len()
        &&& self.entries@[h.spec_index()].current_generation == h.spec_generation()
        &&& self.entries@[h.spec_index()].item is Some
    }

    /// The payload `h` resolves to, if any.
    pub closed spec fn spec_get(self, h: SimpleHandle<T>) -> Option<T> {
        if self.valid(h) {
            self.entries@[h.spec_index()].item
        } else {
            None
        }
    }

    /// `h` pointed into this store once but was retired: its slot has
    /// moved past it, so no operation can ever make `h` resolve again.
    pub closed spec fn dead(self, h: SimpleHandle<T>) -> bool {
        &&& 0 <= h.spec_index() < self.entries@.len()
        &&& {
            ||| h.spec_generation() < self.entries@[h.spec_index()].current_generation
            ||| (h.spec_generation() == self.entries@[h.spec_index()].current_generation
                && self.entries@[h.spec_index()].item is None)
        }
    }

    /// Internal consistency: the free list names empty, reusable slots,
    /// each at most once.
    pub closed spec fn wf(self) -> bool {
        &&& forall|k: int|
            0 <= k < self.open_indices@.len() ==> {
                &&& 0 <= #[trigger] self.open_indices@[k] < self.entries@.len()
                &&& self.entries@[self.open_indices@[k] as int].item is None
                &&& self.entries@[self.open_indices@[k] as int].current_generation < u64::MAX
            }
        &&& forall|j: int, k: int|
            0 <= j < self.open_indices@.len() && 0 <= k < self.open_indices@.len() && j != k
                ==> #[trigger] self.open_indices@[j] != #[trigger] self.open_indices@[k]
    }

    /// An empty store.
    pub fn new() -> (s: Self)
        ensures
            s.wf(),
            forall|h: SimpleHandle<T>| !s.valid(h) && !s.dead(h),
            forall|h: SimpleHandle<T>| (#[trigger] s.spec_get(h)) is None,
    {
        SimpleStore { entries: Vec::new(), open_indices: Vec::new() }
    }

    /// Stores `item`, reusing a retired slot when one is free, and
    /// returns a fresh handle to it.
    pub fn add(&mut self, item: T) -> (h: SimpleHandle<T>)
        requires
            old(self).wf(),
        ensures
            final (self).wf(),
            final (self).valid(h),
            final (self).spec_get(h) == Some(item),
            !old(self).valid(h),
            forall|h2: SimpleHandle<T>|
                h2 != h ==> final (self).spec_get(h2) == old(self).spec_get(h2),
            forall|h2: SimpleHandle<T>| old(self).valid(h2) ==> final (self).valid(h2),
            forall|h2: SimpleHandle<T>| old(self).dead(h2) ==> final (self).dead(h2),
    {
        match self.open_indices.pop() {
            Some(entry_index) => {
                let generation: u64 = self.entries[entry_index].current_generation + 1;
                self.entries[entry_index] = SimpleStoreEntry {
                    item: Some(item),
                    current_generation: generation,
                };
                SimpleHandle::new(entry_index, generation)
            },
            None => {
                let index: usize = self.entries.len();
                self.entries.push(SimpleStoreEntry { item: Some(item), current_generation: 0 });
                SimpleHandle::new(index, 0)
            },
        }
    }

    /// Resolves `h`, returning its payload while the generations agree.
    pub fn get(&self, h: SimpleHandle<T>) -> (r: Option<&T>)
        ensures
            match r {
                Some(v) => self.spec_get(h) == Some(*v),
                None => self.spec_get(h) is None,
            },
    {
        if h.index >= self.entries.len() {
            return None;
        }
        let entry = &self.entries[h.index];
        if h.generation == entry.current_generation {
            entry.item.as_ref()
        } else {
            None
        }
    }

    /// Resolves `h` for mutation while the generations agree.
    pub fn get_mut(&mut self, h: SimpleHandle<T>) -> (r: Option<&mut T>)
        requires
            old(self).wf(),
        ensures
            final (self).wf(),
            r is Some <==> old(self).valid(h),
            r is None ==> *final (self) == *old(self),
            r is Some ==> {
                &&& old(self).spec_get(h) == Some(*r.unwrap())
                &&& final (self).spec_get(h) == Some(*final (r.unwrap()))
                &&& final (self).valid(h)
                &&& forall|h2: SimpleHandle<T>|
                    h2 != h ==> final (self).spec_get(h2) == old(self).spec_get(h2)
                &&& forall|h2: SimpleHandle<T>| old(self).valid(h2) ==> final (self).valid(h2)
                &&& forall|h2: SimpleHandle<T>| old(self).dead(h2) ==> final (self).dead(h2)
            },
    {
        if h.index >= self.entries.len() {
            return None;
        }
        if self.entries[h.index].item.is_none() {
            return None;
        }
        if h.generation != self.entries[h.index].current_generation {
            return None;
        }
        let entry = &mut self.entries[h.index];
        entry.item.as_mut()
    }

    /// Retires `h`: clears the payload and queues the slot for reuse
    /// under a later generation. Fails when `h` does not resolve.
    pub fn remove(&mut self, h: SimpleHandle<T>) -> (r: Result<(), StoreError>)
        requires
            old(self).wf(),
        ensures
            final (self).wf(),
            r is Ok <==> old(self).valid(h),
            r is Err ==> *final (self) == *old(self),
            r matches Err(e) ==> (e is NotFound <==> old(self).spec_slot_missing(h)) && (
            e is StaleHandle <==> !old(self).spec_slot_missing(h)),
            r is Ok ==> {
                &&& final (self).dead(h)
                &&& final (self).spec_get(h) is None
                &&& forall|h2: SimpleHandle<T>|
                    h2 != h ==> final (self).spec_get(h2) == old(self).spec_get(h2)
                &&& forall|h2: SimpleHandle<T>|
                    h2 != h && old(self).valid(h2) ==> final (self).valid(h2)
                &&& forall|h2: SimpleHandle<T>| old(self).dead(h2) ==> final (self).dead(h2)
            },
    {
        if h.index >= self.entries.len() {
            return Err(StoreError::NotFound);
        }
        if self.entries[h.index].item.is_none() {
            return Err(StoreError::NotFound);
        }
        if h.generation != self.entries[h.index].current_generation {
            return Err(StoreError::StaleHandle);
        }
        self.entries[h.index].item = None;
        if self.entries[h.index].current_generation < u64::MAX {
            self.open_indices.push(h.index);
        }
        Ok(())
    }

    /// `h` names a slot that holds no payload at all, out of range or
    /// cleared.
    pub closed spec fn spec_slot_missing(self, h: SimpleHandle<T>) -> bool {
        ||| h.spec_index() >= self.entries@.len()
        ||| self.entries@[h.spec_index()].item is None
    }

    /// A retired handle can never resolve again.
    pub proof fn lemma_dead_get(self, h: SimpleHandle<T>)
        requires
            self.dead(h),
        ensures
            self.spec_get(h) is None,
            !self.valid(h),
    {
    }
}

/// Generational safety. Once a handle is retired it stays absent in
/// every later state of the store: given a trace of store states in
/// which each step preserves retirement, as `add`, `get_mut` and
/// `remove` all promise, a handle retired at step `i` resolves to
/// nothing at every step from `i` on, even after its slot has been
/// reused for a different payload.
pub proof fn lemma_generational_safety<T>(
    trace: Seq<SimpleStore<T>>,
    h: SimpleHandle<T>,
    i: int,
    j: int,
)
    requires
        forall|k: int, h2: SimpleHandle<T>|
            0 <= k < trace.len() - 1 && (#[trigger] trace[k].dead(h2)) ==> #[trigger] trace[k
                + 1].dead(h2),
        0 <= i <= j < trace.len(),
        trace[i].dead(h),
    ensures
        trace[j].dead(h),
        trace[j].spec_get(h) is None,
    decreases j - i,
{
    if i < j {
        assert(trace[i + 1].dead(h));
        lemma_generational_safety(trace, h, i + 1, j);
    } else {
        trace[j].lemma_dead_get(h);
    }
}

impl<T> Default for SimpleStore<T> {
    /// An empty store.
    fn default() -> (s: SimpleStore<T>)
        ensures
            s.wf(),
            forall|h: SimpleHandle<T>| !s.valid(h) && !s.dead(h),
            forall|h: SimpleHandle<T>| (#[trigger] s.spec_get(h)) is None,
    {
        SimpleStore { entries: Vec::new(), open_indices: Vec::new() }
    }
}

/// Failure of `SimpleStore::remove`.
#[derive(Clone, Copy, Debug, PartialEq, Eq, Structural)]
pub enum StoreError {
    /// The handle's slot does not hold a payload at any generation.
    NotFound,
    /// The handle's slot has moved on to a newer generation.
    StaleHandle,
}

} // verus!
