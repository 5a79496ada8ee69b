//! Module registry (module ID to storage offset) and discovery of the modules stored
//! in an overlay partition.
//!
//! Discovery reads storage step by step: [`MountScan::start`] takes the 32 bytes at the
//! partition start and says what to read next; [`MountScan::on_read`] takes each read's
//! outcome. The partition holds either an overlay directory ("OVLD") followed by
//! 16-byte entries, or overlay containers ("OVL1") stored back to back, each padded to
//! 4 bytes.

use vstd::prelude::*;
use crate::error::OverlayError;
use crate::header::{
    magic_matches, overlay_directory_error, overlay_header_error, OverlayDirectory,
    OverlayDirectoryEntry, OverlayHeader, OVERLAY_DIR_MAGIC, OVERLAY_MAGIC,
};
use crate::wire::{u16_at, u32_at};

verus! {

broadcast use vstd::array::group_array_axioms;

/// Module registration record mapping a 32-bit module ID to its storage offset.
#[derive(Debug, Clone, Copy, PartialEq, Eq)]
pub struct ModuleRegistration {
    /// Unique 32-bit module identifier.
    pub module_id: u32,
    /// Byte offset where the overlay container begins in storage.
    pub flash_offset: u32,
}

/// Entry `i` is where a registration of `module_id` lands: the first entry that is
/// empty or already holds `module_id`.
pub open spec fn registration_slot(v: Seq<Option<ModuleRegistration>>, module_id: u32, i: int) -> bool {
    &&& 0 <= i < v.len()
    &&& (v[i] is None || v[i]->0.module_id == module_id)
    &&& forall|j: int| 0 <= j < i ==> (#[trigger] v[j]) is Some && v[j]->0.module_id != module_id
}

/// The registry after registering `module_id` at `flash_offset`, and the outcome.
pub open spec fn spec_register(v: Seq<Option<ModuleRegistration>>, module_id: u32, flash_offset: u32) -> (
    Seq<Option<ModuleRegistration>>,
    Result<(), OverlayError>,
) {
    if exists|i: int| registration_slot(v, module_id, i) {
        let i = choose|i: int| registration_slot(v, module_id, i);
        (v.update(i, Some(ModuleRegistration { module_id, flash_offset })), Ok(()))
    } else {
        (v, Err(OverlayError::Storage))
    }
}

/// The registry after registering `ms` in order, stopping at the first failure.
pub open spec fn spec_register_all(v: Seq<Option<ModuleRegistration>>, ms: Seq<ModuleRegistration>) -> (
    Seq<Option<ModuleRegistration>>,
    Result<(), OverlayError>,
)
    decreases ms.len(),
{
    if ms.len() == 0 {
        (v, Ok(()))
    } else {
        let (v1, r1) = spec_register_all(v, ms.drop_last());
        if r1 is Err {
            (v1, r1)
        } else {
            spec_register(v1, ms.last().module_id, ms.last().flash_offset)
        }
    }
}

/// Entry `i` is the first registration of `module_id`.
pub open spec fn first_registration(v: Seq<Option<ModuleRegistration>>, module_id: u32, i: int) -> bool {
    &&& 0 <= i < v.len()
    &&& v[i] matches Some(e) && e.module_id == module_id
    &&& forall|j: int| 0 <= j < i ==> !((#[trigger] v[j]) matches Some(e) && e.module_id == module_id)
}

/// A fixed-capacity table of module registrations.
pub struct ModuleRegistry<const MAX_MODULES: usize> {
    entries: [Option<ModuleRegistration>; MAX_MODULES],
}

/// At most one entry can receive a registration.
proof fn lemma_registration_slot_unique(v: Seq<Option<ModuleRegistration>>, id: u32, i: int, j: int)
    requires
        registration_slot(v, id, i),
        registration_slot(v, id, j),
    ensures
        i == j,
{
    if i < j {
        assert(v[i] is Some && v[i]->0.module_id != id);
    } else if j < i {
        assert(v[j] is Some && v[j]->0.module_id != id);
    }
}

impl<const MAX_MODULES: usize> ModuleRegistry<MAX_MODULES> {
    /// The table, one optional registration per entry.
    pub closed spec fn view(&self) -> Seq<Option<ModuleRegistration>> {
        self.entries@
    }

    /// The table always has `MAX_MODULES` entries.
    pub proof fn lemma_len(&self)
        ensures
            self@.len() == MAX_MODULES,
    {
    }

    /// An empty registry of `MAX_MODULES` entries.
    pub fn new() -> (r: Self)
        ensures
            r@ == Seq::new(MAX_MODULES as nat, |i: int| None::<ModuleRegistration>),
    {
        let entries = [None::<ModuleRegistration>; MAX_MODULES];
        assert(entries@ =~= Seq::new(MAX_MODULES as nat, |i: int| None::<ModuleRegistration>));
        ModuleRegistry { entries }
    }

    /// Registers a module at its storage offset: updates the module's entry, or takes
    /// the first free entry; fails with `Storage` when the table is full.
    pub fn register_module(&mut self, module_id: u32, flash_offset: u32) -> (r: Result<(), OverlayError>)
        ensures
            (final(self)@, r) == spec_register(old(self)@, module_id, flash_offset),
    {
        let mut i: usize = 0;
        while i < MAX_MODULES
            invariant
                0 <= i <= MAX_MODULES,
                self.entries@ == old(self).entries@,
                forall|j: int|
                    0 <= j < i ==> (#[trigger] self.entries@[j]) is Some
                        && self.entries@[j]->0.module_id != module_id,
            decreases MAX_MODULES - i,
        {
            let stop = match self.entries[i] {
                Some(e) => e.module_id == module_id,
                None => true,
            };
            if stop {
                proof {
                    assert(registration_slot(old(self)@, module_id, i as int));
                    lemma_registration_slot_unique(
                        old(self)@,
                        module_id,
                        i as int,
                        choose|k: int| registration_slot(old(self)@, module_id, k),
                    );
                }
                self.entries[i] = Some(ModuleRegistration { module_id, flash_offset });
                return Ok(());
            }
            i += 1;
        }
        Err(OverlayError::Storage)
    }

    /// Registers a list of modules in order, stopping at the first failure.
    pub fn register_modules(&mut self, modules: &[ModuleRegistration]) -> (r: Result<(), OverlayError>)
        ensures
            (final(self)@, r) == spec_register_all(old(self)@, modules@),
    {
        let mut i: usize = 0;
        while i < modules.len()
            invariant
                0 <= i <= modules@.len(),
                (self@, Ok::<(), OverlayError>(())) == spec_register_all(
                    old(self)@,
                    modules@.subrange(0, i as int),
                ),
            decreases modules@.len() - i,
        {
            proof {
                let p = modules@.subrange(0, i + 1);
                assert(p.drop_last() =~= modules@.subrange(0, i as int));
            }
            let m = modules[i];
            let r = self.register_module(m.module_id, m.flash_offset);
            if r.is_err() {
                proof {
                    lemma_register_all_stops(old(self)@, modules@, i + 1);
                }
                return r;
            }
            i += 1;
        }
        assert(modules@.subrange(0, modules@.len() as int) =~= modules@);
        Ok(())
    }

    /// Looks up the storage offset registered for `module_id`.
    pub fn find_offset(&self, module_id: u32) -> (r: Option<u32>)
        ensures
            match r {
                Some(o) => exists|i: int|
                    first_registration(self@, module_id, i) && #[trigger] self@[i]->0.flash_offset
                        == o,
                None => forall|i: int|
                    0 <= i < self@.len() ==> !((#[trigger] self@[i]) matches Some(e) && e.module_id
                        == module_id),
            },
    {
        let mut i: usize = 0;
        while i < MAX_MODULES
            invariant
                0 <= i <= MAX_MODULES,
                forall|j: int|
                    0 <= j < i ==> !((#[trigger] self.entries@[j]) matches Some(e) && e.module_id
                        == module_id),
            decreases MAX_MODULES - i,
        {
            if let Some(e) = self.entries[i] {
                if e.module_id == module_id {
                    assert(first_registration(self@, module_id, i as int));
                    return Some(e.flash_offset);
                }
            }
            i += 1;
        }
        None
    }
}

/// After registering `module_id` at `flash_offset` succeeds, looking the module up
/// finds that offset.
pub proof fn lemma_register_then_find(v: Seq<Option<ModuleRegistration>>, module_id: u32, flash_offset: u32)
    requires
        spec_register(v, module_id, flash_offset).1 is Ok,
    ensures
        exists|i: int|
            first_registration(spec_register(v, module_id, flash_offset).0, module_id, i)
                && spec_register(v, module_id, flash_offset).0[i]->0.flash_offset == flash_offset,
{
    let i = choose|i: int| registration_slot(v, module_id, i);
    let w = spec_register(v, module_id, flash_offset).0;
    assert(first_registration(w, module_id, i));
}

/// Registering a list stops at its first failure: a failure on the first `n` items
/// is the failure on the whole list.
proof fn lemma_register_all_stops(v: Seq<Option<ModuleRegistration>>, ms: Seq<ModuleRegistration>, n: int)
    requires
        0 < n <= ms.len(),
        spec_register_all(v, ms.subrange(0, n)).1 is Err,
    ensures
        spec_register_all(v, ms) == spec_register_all(v, ms.subrange(0, n)),
    decreases ms.len() - n,
{
    if n < ms.len() {
        assert(ms.subrange(0, n + 1).drop_last() =~= ms.subrange(0, n));
        lemma_register_all_stops(v, ms, n + 1);
        if n + 1 == ms.len() {
            assert(ms.subrange(0, n + 1) =~= ms);
        }
    } else {
        assert(ms.subrange(0, n) =~= ms);
    }
}


/// Where a discovery scan stands.
#[derive(Debug, Clone, Copy, PartialEq, Eq)]
pub enum ScanMode {
    /// Reading directory entry `next` of `entry_count`, stored from `entries_start`.
    Directory { entries_start: u32, entry_count: u16, next: u16 },
    /// Reading the container header expected at `current`.
    Sequential { current: u32 },
    /// The scan is over.
    Done,
}

/// What the caller does next for a discovery scan.
#[derive(Debug, Clone, Copy, PartialEq, Eq)]
pub enum MountAction {
    /// Read `len` bytes at storage offset `offset` and pass the outcome to `on_read`.
    Read { offset: u32, len: usize },
    /// The scan is over: the number of modules found, or why mounting failed.
    Finished(Result<usize, OverlayError>),
    /// The next storage offset does not fit in 32 bits.
    AddressOverflow,
}

/// One step over back-to-back containers: `bytes` were read at `current`.
pub open spec fn spec_sequential_step(
    found: Seq<ModuleRegistration>,
    max: usize,
    current: u32,
    bytes: Seq<u8>,
) -> (Seq<ModuleRegistration>, ScanMode, MountAction) {
    if found.len() >= max {
        (found, ScanMode::Done, MountAction::Finished(Ok(found.len() as usize)))
    } else if overlay_header_error(bytes) is Some {
        (found, ScanMode::Done, MountAction::Finished(Ok(found.len() as usize)))
    } else {
        let found2 = found.push(ModuleRegistration { module_id: u32_at(bytes, 8), flash_offset: current });
        let step = 32 + u32_at(bytes, 12) + 3;
        if step > u32::MAX {
            (found2, ScanMode::Done, MountAction::AddressOverflow)
        } else {
            let next = current + (step - step % 4);
            if next > u32::MAX {
                (found2, ScanMode::Done, MountAction::AddressOverflow)
            } else {
                (
                    found2,
                    ScanMode::Sequential { current: next as u32 },
                    MountAction::Read { offset: next as u32, len: 32 },
                )
            }
        }
    }
}

/// The first step of a scan, given the 32 bytes at the partition start `base`.
pub open spec fn spec_scan_start(base: u32, max: usize, first: Seq<u8>) -> (
    Seq<ModuleRegistration>,
    ScanMode,
    MountAction,
) {
    let none = Seq::<ModuleRegistration>::empty();
    if first.subrange(0, 4) == OVERLAY_DIR_MAGIC@ {
        if overlay_directory_error(first) is Some {
            (none, ScanMode::Done, MountAction::Finished(Err(overlay_directory_error(first)->0)))
        } else if base + 32 > u32::MAX {
            (none, ScanMode::Done, MountAction::AddressOverflow)
        } else if u16_at(first, 6) == 0 || max == 0 {
            (none, ScanMode::Done, MountAction::Finished(Ok(0)))
        } else {
            (
                none,
                ScanMode::Directory {
                    entries_start: (base + 32) as u32,
                    entry_count: u16_at(first, 6),
                    next: 0,
                },
                MountAction::Read { offset: (base + 32) as u32, len: 16 },
            )
        }
    } else if first.subrange(0, 4) == OVERLAY_MAGIC@ {
        spec_sequential_step(none, max, base, first)
    } else {
        (none, ScanMode::Done, MountAction::Finished(Err(OverlayError::InvalidMagic)))
    }
}

/// The step after a read requested in `mode` ended with `bytes` (`None`: read error).
pub open spec fn spec_scan_on_read(
    found: Seq<ModuleRegistration>,
    max: usize,
    mode: ScanMode,
    bytes: Option<Seq<u8>>,
) -> (Seq<ModuleRegistration>, ScanMode, MountAction) {
    match mode {
        ScanMode::Directory { entries_start, entry_count, next } => match bytes {
            None => (found, ScanMode::Done, MountAction::Finished(Err(OverlayError::Storage))),
            Some(b) => {
                let found2 = found.push(
                    ModuleRegistration { module_id: u32_at(b, 0), flash_offset: u32_at(b, 4) },
                );
                let next2 = next + 1;
                if next2 >= entry_count || found2.len() >= max {
                    (found2, ScanMode::Done, MountAction::Finished(Ok(found2.len() as usize)))
                } else if entries_start + 16 * next2 > u32::MAX {
                    (found2, ScanMode::Done, MountAction::AddressOverflow)
                } else {
                    (
                        found2,
                        ScanMode::Directory { entries_start, entry_count, next: next2 as u16 },
                        MountAction::Read { offset: (entries_start + 16 * next2) as u32, len: 16 },
                    )
                }
            },
        },
        ScanMode::Sequential { current } => match bytes {
            None => (found, ScanMode::Done, MountAction::Finished(Ok(found.len() as usize))),
            Some(b) => if b.subrange(0, 4) != OVERLAY_MAGIC@ {
                (found, ScanMode::Done, MountAction::Finished(Ok(found.len() as usize)))
            } else {
                spec_sequential_step(found, max, current, b)
            },
        },
        ScanMode::Done => (found, ScanMode::Done, MountAction::Finished(Ok(found.len() as usize))),
    }
}

/// A scan discovering the modules stored in an overlay partition.
pub struct MountScan {
    mode: ScanMode,
    found: Vec<ModuleRegistration>,
    max: usize,
}

impl MountScan {
    /// Where the scan stands.
    pub closed spec fn mode_view(&self) -> ScanMode {
        self.mode
    }

    /// The modules found so far, in storage order.
    pub closed spec fn found_view(&self) -> Seq<ModuleRegistration> {
        self.found@
    }

    /// The most modules the scan records.
    pub closed spec fn max_view(&self) -> usize {
        self.max
    }

    /// Starts a scan of the partition at `base` from its first 32 bytes, recording at
    /// most `max` modules.
    pub fn start(base: u32, max: usize, first: &[u8]) -> (r: (MountScan, MountAction))
        requires
            first@.len() >= 32,
        ensures
            (r.0.found_view(), r.0.mode_view(), r.1) == spec_scan_start(base, max, first@),
            r.0.max_view() == max,
    {
        let mut scan = MountScan { mode: ScanMode::Done, found: Vec::new(), max };
        if magic_matches(first, &OVERLAY_DIR_MAGIC) {
            let dir = match OverlayDirectory::from_bytes(first) {
                Ok(d) => d,
                Err(e) => return (scan, MountAction::Finished(Err(e))),
            };
            let entries_start = match base.checked_add(32) {
                Some(o) => o,
                None => return (scan, MountAction::AddressOverflow),
            };
            if dir.entry_count == 0 || max == 0 {
                return (scan, MountAction::Finished(Ok(0)));
            }
            scan.mode = ScanMode::Directory { entries_start, entry_count: dir.entry_count, next: 0 };
            (scan, MountAction::Read { offset: entries_start, len: 16 })
        } else if magic_matches(first, &OVERLAY_MAGIC) {
            let action = scan.sequential_step(base, first);
            (scan, action)
        } else {
            (scan, MountAction::Finished(Err(OverlayError::InvalidMagic)))
        }
    }

    /// Continues the scan with the outcome of the read it asked for: the bytes read
    /// (16 for a directory entry, 32 for a container header), or `None` if it failed.
    pub fn on_read(&mut self, bytes: Option<&[u8]>) -> (r: MountAction)
        requires
            match bytes {
                Some(b) => b@.len() >= 32 || (old(self).mode_view() is Directory && b@.len() >= 16),
                None => true,
            },
        ensures
            (final(self).found_view(), final(self).mode_view(), r) == spec_scan_on_read(
                old(self).found_view(),
                old(self).max_view(),
                old(self).mode_view(),
                match bytes {
                    Some(b) => Some(b@),
                    None => None,
                },
            ),
            final(self).max_view() == old(self).max_view(),
    {
        match self.mode {
            ScanMode::Directory { entries_start, entry_count, next } => match bytes {
                None => {
                    self.mode = ScanMode::Done;
                    MountAction::Finished(Err(OverlayError::Storage))
                },
                Some(b) => {
                    let entry = OverlayDirectoryEntry::from_bytes(b);
                    self.found.push(
                        ModuleRegistration {
                            module_id: entry.module_id,
                            flash_offset: entry.flash_offset,
                        },
                    );
                    let next2 = next as u32 + 1;
                    if next2 >= entry_count as u32 || self.found.len() >= self.max {
                        self.mode = ScanMode::Done;
                        return MountAction::Finished(Ok(self.found.len()));
                    }
                    match entries_start.checked_add(16 * next2) {
                        Some(offset) => {
                            self.mode = ScanMode::Directory {
                                entries_start,
                                entry_count,
                                next: next2 as u16,
                            };
                            MountAction::Read { offset, len: 16 }
                        },
                        None => {
                            self.mode = ScanMode::Done;
                            MountAction::AddressOverflow
                        },
                    }
                },
            },
            ScanMode::Sequential { current } => match bytes {
                None => {
                    self.mode = ScanMode::Done;
                    MountAction::Finished(Ok(self.found.len()))
                },
                Some(b) => {
                    if !magic_matches(b, &OVERLAY_MAGIC) {
                        self.mode = ScanMode::Done;
                        return MountAction::Finished(Ok(self.found.len()));
                    }
                    self.sequential_step(current, b)
                },
            },
            ScanMode::Done => MountAction::Finished(Ok(self.found.len())),
        }
    }

    /// Records the container whose header `bytes` was read at `current`, and asks for
    /// the next header.
    fn sequential_step(&mut self, current: u32, bytes: &[u8]) -> (r: MountAction)
        requires
            bytes@.len() >= 32,
        ensures
            (final(self).found_view(), final(self).mode_view(), r) == spec_sequential_step(
                old(self).found_view(),
                old(self).max_view(),
                current,
                bytes@,
            ),
            final(self).max_view() == old(self).max_view(),
    {
        if self.found.len() >= self.max {
            self.mode = ScanMode::Done;
            return MountAction::Finished(Ok(self.found.len()));
        }
        let header = match OverlayHeader::from_bytes(bytes) {
            Ok(h) => h,
            Err(_) => {
                self.mode = ScanMode::Done;
                return MountAction::Finished(Ok(self.found.len()));
            },
        };
        self.found.push(ModuleRegistration { module_id: header.module_id, flash_offset: current });
        let step = match header.code_size.checked_add(35) {
            Some(s) => s,
            None => {
                self.mode = ScanMode::Done;
                return MountAction::AddressOverflow;
            },
        };
        let aligned = step - step % 4;
        match current.checked_add(aligned) {
            Some(next) => {
                self.mode = ScanMode::Sequential { current: next };
                MountAction::Read { offset: next, len: 32 }
            },
            None => {
                self.mode = ScanMode::Done;
                MountAction::AddressOverflow
            },
        }
    }

    /// The modules found, in storage order.
    pub fn found(&self) -> (r: &[ModuleRegistration])
        ensures
            r@ == self.found_view(),
    {
        self.found.as_slice()
    }
}

} // verus!
