//! RAM-paged code overlay manager: residency tracking, LRU slot selection and the
//! verified steps of loading a module into a slot.
//!
//! Loading reads storage twice (the header, then the payload). Those reads are the
//! caller's; the manager decides everything around them:
//! 1. [`OverlayManager::refresh_resident`] — a resident module only has its LRU stamp
//!    renewed;
//! 2. [`OverlayManager::prepare_load`] — validates the header bytes read at the module's
//!    offset and chooses the slot;
//! 3. [`OverlayManager::complete_load`] — checks the payload CRC over the bytes that were
//!    streamed into the slot, runs the instruction-sync hook and marks the slot resident.

pub mod slot;
pub mod sync;

use vstd::prelude::*;
use crate::crc::{crc32, spec_crc32};
use crate::error::OverlayError;
use crate::header::{overlay_header_error, OverlayHeader};
use crate::wire::u32_at;
pub use slot::OverlaySlot;
pub use sync::{make_thumb_entry, thumb_aligned, validate_thumb_alignment, InstructionCacheSync};

verus! {

/// A slot that is empty and may be used.
pub open spec fn empty_unpinned(s: OverlaySlot) -> bool {
    s.resident_module is None && !s.is_pinned
}

/// No slot can receive a new module: none is empty and unpinned, and every unpinned
/// slot carries the largest possible LRU stamp.
pub open spec fn no_eviction_candidate(s: Seq<OverlaySlot>) -> bool {
    forall|j: int|
        0 <= j < s.len() ==> !empty_unpinned(#[trigger] s[j]) && (!s[j].is_pinned
            ==> s[j].generation == u64::MAX)
}

/// Slot `i` is the one chosen for a new module: the first empty unpinned slot, or, when
/// there is none, the first unpinned slot with the smallest LRU stamp.
pub open spec fn eviction_choice(s: Seq<OverlaySlot>, i: int) -> bool {
    &&& 0 <= i < s.len()
    &&& {
        ||| empty_unpinned(s[i]) && forall|j: int| 0 <= j < i ==> !empty_unpinned(#[trigger] s[j])
        ||| {
            &&& forall|j: int| 0 <= j < s.len() ==> !empty_unpinned(#[trigger] s[j])
            &&& !s[i].is_pinned
            &&& s[i].generation < u64::MAX
            &&& forall|j: int|
                0 <= j < s.len() && !(#[trigger] s[j]).is_pinned ==> s[i].generation
                    <= s[j].generation
            &&& forall|j: int|
                0 <= j < i && !(#[trigger] s[j]).is_pinned ==> s[j].generation > s[i].generation
        }
    }
}

/// The slot chosen for a new module (meaningful when a candidate exists).
pub open spec fn eviction_index(s: Seq<OverlaySlot>) -> int {
    choose|i: int| eviction_choice(s, i)
}

/// Slot `i` is the first slot holding `module_id`.
pub open spec fn first_resident(s: Seq<OverlaySlot>, module_id: u32, i: int) -> bool {
    &&& 0 <= i < s.len()
    &&& s[i].resident_module == Some(module_id)
    &&& forall|j: int| 0 <= j < i ==> (#[trigger] s[j]).resident_module != Some(module_id)
}

/// Some slot holds `module_id`.
pub open spec fn holds_module(s: Seq<OverlaySlot>, module_id: u32) -> bool {
    exists|i: int| 0 <= i < s.len() && (#[trigger] s[i]).resident_module == Some(module_id)
}

/// No module is resident in two slots.
pub open spec fn residency_unique(s: Seq<OverlaySlot>) -> bool {
    forall|i: int, j: int|
        0 <= i < s.len() && 0 <= j < s.len() && i != j && (#[trigger] s[i]).resident_module
            is Some ==> s[i].resident_module != (#[trigger] s[j]).resident_module
}

/// `slot` with its module and entry offset cleared.
pub open spec fn evicted(slot: OverlaySlot) -> OverlaySlot {
    OverlaySlot { resident_module: None, entry_offset: 0, ..slot }
}

/// What the header bytes and the slots decide for loading `module_id`: why the load
/// must stop, or `None` when it may go on into the slot `eviction_index` chooses.
pub open spec fn load_error(s: Seq<OverlaySlot>, module_id: u32, header: Seq<u8>) -> Option<
    OverlayError,
> {
    if overlay_header_error(header) is Some {
        overlay_header_error(header)
    } else if u32_at(header, 8) != module_id {
        Some(OverlayError::ModuleNotFound(module_id))
    } else if no_eviction_candidate(s) {
        Some(OverlayError::InvalidSlotIndex)
    } else {
        let slot = s[eviction_index(s)];
        let code_size = u32_at(header, 12);
        if code_size > slot.capacity {
            Some(
                OverlayError::SlotTooSmall {
                    required: code_size as usize,
                    available: slot.capacity,
                },
            )
        } else if !thumb_aligned(slot.exec_addr, u32_at(header, 16) as usize) {
            Some(OverlayError::InvalidAlignment)
        } else {
            None
        }
    }
}

/// Where and how a verified header says a module is to be loaded.
#[derive(Debug, Clone, Copy, PartialEq, Eq)]
pub struct LoadPlan {
    /// The module being loaded.
    pub module_id: u32,
    /// Slot that receives the payload.
    pub slot_idx: usize,
    /// Storage offset of the payload (just after the header).
    pub code_offset: u32,
    /// Payload length in bytes.
    pub code_len: usize,
    /// Entry point offset within the payload.
    pub entry_offset: u32,
    /// CRC32 the payload must have.
    pub payload_crc32: u32,
}

/// Manages dynamic loading and execution of code overlays in SRAM slots.
pub struct OverlayManager<S, const SLOTS: usize, B = ()> {
    storage: S,
    slots: [OverlaySlot; SLOTS],
    lru_counter: u64,
    sync: B,
}

/// At most one slot satisfies `eviction_choice`.
pub proof fn lemma_eviction_choice_unique(s: Seq<OverlaySlot>, i: int, j: int)
    requires
        eviction_choice(s, i),
        eviction_choice(s, j),
    ensures
        i == j,
{
    if i < j {
        assert(!empty_unpinned(s[i]) || !empty_unpinned(s[j]));
    } else if j < i {
        assert(!empty_unpinned(s[i]) || !empty_unpinned(s[j]));
    }
}

/// A pinned slot is never chosen to receive a module.
pub proof fn lemma_pinned_slot_never_chosen(s: Seq<OverlaySlot>, i: int)
    requires
        eviction_choice(s, i),
    ensures
        !s[i].is_pinned,
{
}

/// An empty unpinned slot, when there is one, is always preferred to evicting a
/// resident module.
pub proof fn lemma_empty_slot_preferred(s: Seq<OverlaySlot>, i: int, k: int)
    requires
        eviction_choice(s, i),
        0 <= k < s.len(),
        empty_unpinned(s[k]),
    ensures
        empty_unpinned(s[i]),
        i <= k,
{
}

/// When every slot is occupied or pinned, the chosen slot is the least recently used
/// unpinned one.
pub proof fn lemma_lru_slot_chosen(s: Seq<OverlaySlot>, i: int)
    requires
        eviction_choice(s, i),
        forall|j: int| 0 <= j < s.len() ==> !empty_unpinned(#[trigger] s[j]),
    ensures
        !s[i].is_pinned,
        forall|j: int|
            0 <= j < s.len() && !(#[trigger] s[j]).is_pinned ==> s[i].generation <= s[j].generation,
{
}

/// While no module is resident twice, the slot a module was loaded into is the one a
/// later lookup finds: asking for a resident module again does not reload it.
pub proof fn lemma_resident_module_found(s: Seq<OverlaySlot>, module_id: u32, i: int)
    requires
        residency_unique(s),
        0 <= i < s.len(),
        s[i].resident_module == Some(module_id),
    ensures
        first_resident(s, module_id, i),
        holds_module(s, module_id),
{
    assert forall|j: int| 0 <= j < i implies (#[trigger] s[j]).resident_module != Some(module_id) by {
        assert(s[i].resident_module != s[j].resident_module);
    }
}

/// Replacing slot `i` keeps residency unique when the new slot's module (if any) is
/// held by no other slot.
proof fn lemma_update_keeps_unique(s: Seq<OverlaySlot>, i: int, slot: OverlaySlot)
    requires
        0 <= i < s.len(),
        residency_unique(s),
        slot.resident_module is Some ==> (!holds_module(s, slot.resident_module->0)
            || s[i].resident_module == slot.resident_module),
    ensures
        residency_unique(s.update(i, slot)),
{
    let t = s.update(i, slot);
    assert forall|a: int, b: int|
        0 <= a < t.len() && 0 <= b < t.len() && a != b && (#[trigger] t[a]).resident_module
            is Some implies t[a].resident_module != (#[trigger] t[b]).resident_module by {
        if a == i && t[b].resident_module == t[a].resident_module {
            assert(s[b].resident_module == slot.resident_module);
        }
        if b == i && t[b].resident_module == t[a].resident_module {
            assert(s[a].resident_module == slot.resident_module);
        }
    }
}

impl<S, const SLOTS: usize> OverlayManager<S, SLOTS, ()> {
    /// Creates a manager whose instruction-sync hook is `()`, which issues a compiler fence
    /// only and no `DSB`/`ISB` barrier (this crate cannot select code by target). On Arm,
    /// build the manager with `with_sync` and a hook that issues the barriers.
    pub fn new(storage: S, slots: [OverlaySlot; SLOTS]) -> (r: Self)
        ensures
            r.slots_view() == slots@,
            r.counter() == 0,
            r.storage_view() == storage,
    {
        OverlayManager { storage, slots, lru_counter: 0, sync: () }
    }
}

impl<S, const SLOTS: usize, B> OverlayManager<S, SLOTS, B> {
    /// The slots, in order.
    pub closed spec fn slots_view(&self) -> Seq<OverlaySlot> {
        self.slots@
    }

    /// The LRU counter (the stamp given to the last slot touched).
    pub closed spec fn counter(&self) -> u64 {
        self.lru_counter
    }

    /// The storage driver.
    pub closed spec fn storage_view(&self) -> S {
        self.storage
    }

    /// The instruction synchronization hook.
    pub closed spec fn sync_view(&self) -> B {
        self.sync
    }

    /// Creates a manager with a caller-provided instruction synchronization hook.
    pub fn with_sync(storage: S, slots: [OverlaySlot; SLOTS], sync: B) -> (r: Self)
        ensures
            r.slots_view() == slots@,
            r.counter() == 0,
            r.storage_view() == storage,
            r.sync_view() == sync,
    {
        OverlayManager { storage, slots, lru_counter: 0, sync }
    }

    /// Returns a reference to the instruction synchronization hook.
    pub fn sync(&self) -> (r: &B)
        ensures
            *r == self.sync_view(),
    {
        &self.sync
    }

    /// Returns mutable access to the instruction synchronization hook.
    pub fn sync_mut(&mut self) -> (r: &mut B)
        ensures
            *r == old(self).sync_view(),
            final(self).sync_view() == *final(r),
            final(self).slots_view() == old(self).slots_view(),
            final(self).counter() == old(self).counter(),
            final(self).storage_view() == old(self).storage_view(),
    {
        &mut self.sync
    }

    /// Access the underlying storage driver.
    pub fn storage(&self) -> (r: &S)
        ensures
            *r == self.storage_view(),
    {
        &self.storage
    }

    /// Mutable access to the underlying storage driver.
    pub fn storage_mut(&mut self) -> (r: &mut S)
        ensures
            *r == old(self).storage_view(),
            final(self).storage_view() == *final(r),
            final(self).slots_view() == old(self).slots_view(),
            final(self).counter() == old(self).counter(),
            final(self).sync_view() == old(self).sync_view(),
    {
        &mut self.storage
    }

    /// Returns a reference to all overlay slots.
    pub fn slots(&self) -> (r: &[OverlaySlot; SLOTS])
        ensures
            r@ == self.slots_view(),
    {
        &self.slots
    }

    /// Finds the first slot in which `module_id` is resident.
    pub fn find_resident_slot(&self, module_id: u32) -> (r: Option<usize>)
        ensures
            match r {
                Some(i) => first_resident(self.slots_view(), module_id, i as int),
                None => !holds_module(self.slots_view(), module_id),
            },
    {
        let mut i: usize = 0;
        while i < SLOTS
            invariant
                0 <= i <= SLOTS,
                self.slots@.len() == SLOTS,
                forall|j: int| 0 <= j < i ==> (#[trigger] self.slots@[j]).resident_module != Some(
                    module_id,
                ),
            decreases SLOTS - i,
        {
            if self.slots[i].is_resident(module_id) {
                return Some(i);
            }
            i += 1;
        }
        None
    }

    /// Returns true if the specified module is resident in RAM.
    pub fn is_resident(&self, module_id: u32) -> (r: bool)
        ensures
            r == holds_module(self.slots_view(), module_id),
    {
        match self.find_resident_slot(module_id) {
            Some(i) => {
                assert(self.slots@[i as int].resident_module == Some(module_id));
                true
            },
            None => false,
        }
    }

    /// Evicts a module from RAM if it is currently resident (from the first slot
    /// holding it). Returns whether it was resident.
    pub fn evict(&mut self, module_id: u32) -> (r: bool)
        ensures
            r == holds_module(old(self).slots_view(), module_id),
            !r ==> final(self).slots_view() == old(self).slots_view(),
            forall|i: int|
                first_resident(old(self).slots_view(), module_id, i) ==> final(self).slots_view()
                    == old(self).slots_view().update(i, evicted(old(self).slots_view()[i])),
            final(self).counter() == old(self).counter(),
            final(self).storage_view() == old(self).storage_view(),
            final(self).sync_view() == old(self).sync_view(),
    {
        match self.find_resident_slot(module_id) {
            Some(idx) => {
                self.slots[idx].evict();
                assert(old(self).slots@[idx as int].resident_module == Some(module_id));
                true
            },
            None => false,
        }
    }

    /// Pins a slot so that it is never chosen for eviction.
    pub fn pin_slot(&mut self, slot_idx: usize) -> (r: Result<(), OverlayError>)
        ensures
            slot_idx < SLOTS ==> r is Ok && final(self).slots_view() == old(self).slots_view().update(
                slot_idx as int,
                OverlaySlot { is_pinned: true, ..old(self).slots_view()[slot_idx as int] },
            ),
            slot_idx >= SLOTS ==> r == Err::<(), OverlayError>(OverlayError::InvalidSlotIndex)
                && final(self).slots_view() == old(self).slots_view(),
            final(self).counter() == old(self).counter(),
            final(self).storage_view() == old(self).storage_view(),
            final(self).sync_view() == old(self).sync_view(),
    {
        if slot_idx >= SLOTS {
            return Err(OverlayError::InvalidSlotIndex);
        }
        self.slots[slot_idx].pin();
        Ok(())
    }

    /// Unpins a slot, allowing LRU eviction.
    pub fn unpin_slot(&mut self, slot_idx: usize) -> (r: Result<(), OverlayError>)
        ensures
            slot_idx < SLOTS ==> r is Ok && final(self).slots_view() == old(self).slots_view().update(
                slot_idx as int,
                OverlaySlot { is_pinned: false, ..old(self).slots_view()[slot_idx as int] },
            ),
            slot_idx >= SLOTS ==> r == Err::<(), OverlayError>(OverlayError::InvalidSlotIndex)
                && final(self).slots_view() == old(self).slots_view(),
            final(self).counter() == old(self).counter(),
            final(self).storage_view() == old(self).storage_view(),
            final(self).sync_view() == old(self).sync_view(),
    {
        if slot_idx >= SLOTS {
            return Err(OverlayError::InvalidSlotIndex);
        }
        self.slots[slot_idx].unpin();
        Ok(())
    }

    /// Selects a slot to load into: the first empty unpinned slot, else the least
    /// recently used unpinned slot.
    fn select_eviction_slot(&self) -> (r: Result<usize, OverlayError>)
        ensures
            match r {
                Ok(i) => eviction_choice(self.slots_view(), i as int),
                Err(e) => e == OverlayError::InvalidSlotIndex && no_eviction_candidate(
                    self.slots_view(),
                ),
            },
    {
        let mut i: usize = 0;
        while i < SLOTS
            invariant
                0 <= i <= SLOTS,
                self.slots@.len() == SLOTS,
                forall|j: int| 0 <= j < i ==> !empty_unpinned(#[trigger] self.slots@[j]),
            decreases SLOTS - i,
        {
            if self.slots[i].resident_module.is_none() && !self.slots[i].is_pinned {
                return Ok(i);
            }
            i += 1;
        }
        let mut best_idx: Option<usize> = None;
        let mut min_gen: u64 = u64::MAX;
        let mut i: usize = 0;
        while i < SLOTS
            invariant
                0 <= i <= SLOTS,
                self.slots@.len() == SLOTS,
                forall|j: int| 0 <= j < SLOTS ==> !empty_unpinned(#[trigger] self.slots@[j]),
                forall|j: int|
                    0 <= j < i && !(#[trigger] self.slots@[j]).is_pinned ==> min_gen
                        <= self.slots@[j].generation,
                match best_idx {
                    Some(b) => {
                        &&& b < i
                        &&& !self.slots@[b as int].is_pinned
                        &&& self.slots@[b as int].generation == min_gen
                        &&& min_gen < u64::MAX
                        &&& forall|j: int|
                            0 <= j < b && !(#[trigger] self.slots@[j]).is_pinned
                                ==> self.slots@[j].generation > min_gen
                    },
                    None => {
                        &&& min_gen == u64::MAX
                        &&& forall|j: int|
                            0 <= j < i && !(#[trigger] self.slots@[j]).is_pinned
                                ==> self.slots@[j].generation == u64::MAX
                    },
                },
            decreases SLOTS - i,
        {
            if !self.slots[i].is_pinned && self.slots[i].generation < min_gen {
                min_gen = self.slots[i].generation;
                best_idx = Some(i);
            }
            i += 1;
        }
        match best_idx {
            Some(b) => Ok(b),
            None => Err(OverlayError::InvalidSlotIndex),
        }
    }

    /// If `module_id` is resident, renews the LRU stamp of the first slot holding it and
    /// returns that slot; otherwise changes nothing.
    pub fn refresh_resident(&mut self, module_id: u32) -> (r: Option<usize>)
        ensures
            match r {
                Some(i) => {
                    &&& first_resident(old(self).slots_view(), module_id, i as int)
                    &&& final(self).counter() == old(self).counter().wrapping_add(1)
                    &&& final(self).slots_view() == old(self).slots_view().update(
                        i as int,
                        OverlaySlot {
                            generation: final(self).counter(),
                            ..old(self).slots_view()[i as int]
                        },
                    )
                },
                None => {
                    &&& !holds_module(old(self).slots_view(), module_id)
                    &&& final(self).counter() == old(self).counter()
                    &&& final(self).slots_view() == old(self).slots_view()
                },
            },
            final(self).storage_view() == old(self).storage_view(),
            final(self).sync_view() == old(self).sync_view(),
    {
        match self.find_resident_slot(module_id) {
            Some(i) => {
                let gen = self.next_generation();
                self.slots[i].generation = gen;
                Some(i)
            },
            None => None,
        }
    }

    /// The checks of a load, in order: the header, the module ID, a free or evictable
    /// slot, the slot's room and alignment. On success, the parsed header and the slot.
    fn check_load(&self, module_id: u32, header_bytes: &[u8]) -> (r: Result<
        (OverlayHeader, usize),
        OverlayError,
    >)
        ensures
            match r {
                Ok((h, i)) => {
                    &&& load_error(self.slots_view(), module_id, header_bytes@) is None
                    &&& eviction_choice(self.slots_view(), i as int)
                    &&& i == eviction_index(self.slots_view())
                    &&& h.code_size == u32_at(header_bytes@, 12)
                    &&& h.entry_offset == u32_at(header_bytes@, 16)
                    &&& h.payload_crc32 == u32_at(header_bytes@, 24)
                },
                Err(e) => load_error(self.slots_view(), module_id, header_bytes@) == Some(e),
            },
    {
        let header = match OverlayHeader::from_bytes(header_bytes) {
            Ok(h) => h,
            Err(e) => return Err(e),
        };
        if header.module_id != module_id {
            return Err(OverlayError::ModuleNotFound(module_id));
        }
        let slot_idx = match self.select_eviction_slot() {
            Ok(i) => i,
            Err(e) => return Err(e),
        };
        proof {
            lemma_eviction_choice_unique(self.slots@, slot_idx as int, eviction_index(self.slots@));
        }
        let slot = &self.slots[slot_idx];
        let code_len = header.code_size as usize;
        if code_len > slot.capacity {
            return Err(OverlayError::SlotTooSmall { required: code_len, available: slot.capacity });
        }
        if !validate_thumb_alignment(slot.exec_addr, header.entry_offset as usize) {
            return Err(OverlayError::InvalidAlignment);
        }
        Ok((header, slot_idx))
    }

    /// Whether a module whose header bytes are `header_bytes` can be loaded now, and if
    /// not, why. Changes nothing.
    pub fn load_check(&self, module_id: u32, header_bytes: &[u8]) -> (r: Result<(), OverlayError>)
        ensures
            match r {
                Ok(()) => load_error(self.slots_view(), module_id, header_bytes@) is None,
                Err(e) => load_error(self.slots_view(), module_id, header_bytes@) == Some(e),
            },
    {
        match self.check_load(module_id, header_bytes) {
            Ok(_) => Ok(()),
            Err(e) => Err(e),
        }
    }

    /// Checks the header bytes read at a module's storage offset and chooses the slot
    /// that will receive its payload. Changes nothing.
    pub fn prepare_load(&self, module_id: u32, flash_offset: u32, header_bytes: &[u8]) -> (r:
        Result<LoadPlan, OverlayError>)
        requires
            load_error(self.slots_view(), module_id, header_bytes@) is None ==> flash_offset + 32
                <= u32::MAX,
        ensures
            match r {
                Ok(p) => {
                    &&& load_error(self.slots_view(), module_id, header_bytes@) is None
                    &&& eviction_choice(self.slots_view(), p.slot_idx as int)
                    &&& p.slot_idx == eviction_index(self.slots_view())
                    &&& p.module_id == module_id
                    &&& p.code_offset == flash_offset + 32
                    &&& p.code_len == u32_at(header_bytes@, 12) as usize
                    &&& p.entry_offset == u32_at(header_bytes@, 16)
                    &&& p.payload_crc32 == u32_at(header_bytes@, 24)
                },
                Err(e) => load_error(self.slots_view(), module_id, header_bytes@) == Some(e),
            },
    {
        let (header, slot_idx) = match self.check_load(module_id, header_bytes) {
            Ok(found) => found,
            Err(e) => return Err(e),
        };
        Ok(
            LoadPlan {
                module_id,
                slot_idx,
                code_offset: flash_offset + 32,
                code_len: header.code_size as usize,
                entry_offset: header.entry_offset,
                payload_crc32: header.payload_crc32,
            },
        )
    }

    /// Finishes a load whose payload has been streamed into the plan's slot: checks the
    /// payload CRC (evicting the slot on mismatch), then runs the instruction-sync hook
    /// and marks the slot resident with a fresh LRU stamp.
    pub fn complete_load(&mut self, plan: &LoadPlan, code: &[u8]) -> (r: Result<usize, OverlayError>)
        where
            B: InstructionCacheSync,
        requires
            plan.slot_idx < SLOTS,
            code@.len() == plan.code_len,
        ensures
            ({
                let idx = plan.slot_idx as int;
                let calculated = spec_crc32(code@);
                let before = old(self).slots_view();
                if calculated != plan.payload_crc32 {
                    &&& r == Err::<usize, OverlayError>(
                        OverlayError::PayloadCrcMismatch {
                            expected: plan.payload_crc32,
                            calculated,
                        },
                    )
                    &&& final(self).slots_view() == before.update(idx, evicted(before[idx]))
                    &&& final(self).counter() == old(self).counter()
                    &&& final(self).sync_view() == old(self).sync_view()
                } else {
                    &&& r == Ok::<usize, OverlayError>(plan.slot_idx)
                    &&& final(self).sync_view() == old(self).sync_view().synced()
                    &&& final(self).counter() == old(self).counter().wrapping_add(1)
                    &&& final(self).slots_view() == before.update(
                        idx,
                        OverlaySlot {
                            resident_module: Some(plan.module_id),
                            entry_offset: plan.entry_offset,
                            generation: final(self).counter(),
                            ..before[idx]
                        },
                    )
                }
            }),
            r is Ok ==> holds_module(final(self).slots_view(), plan.module_id),
            r is Err ==> final(self).slots_view()[plan.slot_idx as int].resident_module is None,
            residency_unique(old(self).slots_view()) && (!holds_module(
                old(self).slots_view(),
                plan.module_id,
            ) || old(self).slots_view()[plan.slot_idx as int].resident_module == Some(
                plan.module_id,
            )) ==> residency_unique(final(self).slots_view()),
            final(self).storage_view() == old(self).storage_view(),
    {
        let calculated = crc32(code);
        if calculated != plan.payload_crc32 {
            self.slots[plan.slot_idx].evict();
            proof {
                if residency_unique(old(self).slots@) {
                    lemma_update_keeps_unique(
                        old(self).slots@,
                        plan.slot_idx as int,
                        self.slots@[plan.slot_idx as int],
                    );
                }
            }
            return Err(
                OverlayError::PayloadCrcMismatch { expected: plan.payload_crc32, calculated },
            );
        }
        self.sync.code_loaded();
        let next_gen = self.next_generation();
        self.slots[plan.slot_idx].resident_module = Some(plan.module_id);
        self.slots[plan.slot_idx].entry_offset = plan.entry_offset;
        self.slots[plan.slot_idx].generation = next_gen;
        proof {
            if residency_unique(old(self).slots@) && (!holds_module(old(self).slots@, plan.module_id)
                || old(self).slots@[plan.slot_idx as int].resident_module == Some(plan.module_id)) {
                lemma_update_keeps_unique(
                    old(self).slots@,
                    plan.slot_idx as int,
                    self.slots@[plan.slot_idx as int],
                );
            }
        }
        Ok(plan.slot_idx)
    }

    /// The slot at `slot_idx`, provided it holds `module_id` (what a typed call needs).
    pub fn callable_slot(&self, slot_idx: usize, module_id: u32) -> (r: Result<
        &OverlaySlot,
        OverlayError,
    >)
        ensures
            match r {
                Ok(slot) => slot_idx < SLOTS && *slot == self.slots_view()[slot_idx as int]
                    && slot.resident_module == Some(module_id),
                Err(e) => if slot_idx >= SLOTS {
                    e == OverlayError::InvalidSlotIndex
                } else {
                    e == OverlayError::ModuleNotFound(module_id)
                        && self.slots_view()[slot_idx as int].resident_module != Some(module_id)
                },
            },
    {
        if slot_idx >= SLOTS {
            return Err(OverlayError::InvalidSlotIndex);
        }
        let slot = &self.slots[slot_idx];
        if !slot.is_resident(module_id) {
            return Err(OverlayError::ModuleNotFound(module_id));
        }
        Ok(slot)
    }

    /// Advances the LRU counter (wrapping) and returns the new stamp.
    fn next_generation(&mut self) -> (r: u64)
        ensures
            r == final(self).counter(),
            final(self).counter() == old(self).counter().wrapping_add(1),
            final(self).slots_view() == old(self).slots_view(),
            final(self).storage_view() == old(self).storage_view(),
            final(self).sync_view() == old(self).sync_view(),
    {
        self.lru_counter = self.lru_counter.wrapping_add(1);
        self.lru_counter
    }
}

} // verus!
