//! Whole discovery scans over a storage device.
//!
//! A driver runs [`MountScan`](crate::registry::MountScan) by reading what each
//! [`MountAction::Read`] asks for and handing the outcome back. The spec functions here
//! run those steps to the end over the device contents `dev`, where a read of `len`
//! bytes at `offset` returns `dev[offset..offset + len]`, or fails past the end of `dev`.
//! The laws say what a whole scan finds.

use vstd::prelude::*;
use crate::error::OverlayError;
use crate::header::{overlay_directory_error, overlay_header_error, OVERLAY_DIR_MAGIC, OVERLAY_MAGIC};
use crate::registry::{
    spec_scan_on_read, spec_scan_start, spec_sequential_step, ModuleRegistration, MountAction,
    ScanMode,
};
use crate::wire::{u16_at, u32_at};

verus! {

/// What a read of `len` bytes at `offset` of a device holding `dev` gives.
pub open spec fn read_at(dev: Seq<u8>, offset: int, len: int) -> Option<Seq<u8>> {
    if 0 <= offset && 0 <= len && offset + len <= dev.len() {
        Some(dev.subrange(offset, offset + len))
    } else {
        None
    }
}

/// How far a scan in `mode` that asks for `action` is from its end.
pub open spec fn scan_measure(mode: ScanMode, action: MountAction) -> int {
    if action is Read {
        1 + match mode {
            ScanMode::Directory { entry_count, next, .. } => if next <= entry_count {
                entry_count - next
            } else {
                0
            },
            ScanMode::Sequential { current } => u32::MAX - current,
            ScanMode::Done => 0,
        }
    } else {
        0
    }
}

/// The registrations found and the final action after running a scan that stands at
/// (`found`, `mode`, `action`) to its end over `dev`.
pub open spec fn spec_scan_run(
    dev: Seq<u8>,
    max: usize,
    found: Seq<ModuleRegistration>,
    mode: ScanMode,
    action: MountAction,
) -> (Seq<ModuleRegistration>, MountAction)
    decreases scan_measure(mode, action),
{
    match action {
        MountAction::Read { offset, len } => {
            let s = spec_scan_on_read(found, max, mode, read_at(dev, offset as int, len as int));
            spec_scan_run(dev, max, s.0, s.1, s.2)
        },
        _ => (found, action),
    }
}

/// A whole scan of the partition at `base` of `dev`, recording at most `max` modules.
pub open spec fn spec_mount(dev: Seq<u8>, base: u32, max: usize) -> (
    Seq<ModuleRegistration>,
    MountAction,
) {
    let s = spec_scan_start(base, max, dev.subrange(base as int, base + 32));
    spec_scan_run(dev, max, s.0, s.1, s.2)
}

/// Directory entry `i` of a directory whose entries start at `entries_start`.
pub open spec fn directory_entry(dev: Seq<u8>, entries_start: int, i: int) -> ModuleRegistration {
    ModuleRegistration {
        module_id: u32_at(dev, entries_start + 16 * i),
        flash_offset: u32_at(dev, entries_start + 16 * i + 4),
    }
}

/// A scan reading directory entries, once it has recorded the first `next`, records the
/// rest up to `count` (or `max`) in order and finishes with their number.
proof fn lemma_directory_run(
    dev: Seq<u8>,
    max: usize,
    entries_start: u32,
    count: u16,
    next: u16,
)
    requires
        0 <= next < count,
        next < max,
        entries_start + 16 * count <= dev.len(),
        entries_start + 16 * count <= u32::MAX,
    ensures
        ({
            let k: int = if count <= max { count as int } else { max as int };
            let found = Seq::new(next as nat, |i: int| directory_entry(dev, entries_start as int, i));
            let r = spec_scan_run(
                dev,
                max,
                found,
                ScanMode::Directory { entries_start, entry_count: count, next },
                MountAction::Read { offset: (entries_start + 16 * next) as u32, len: 16 },
            );
            &&& r.0 == Seq::new(k as nat, |i: int| directory_entry(dev, entries_start as int, i))
            &&& r.1 == MountAction::Finished(Ok(k as usize))
        }),
    decreases count - next,
{
    let k: int = if count <= max { count as int } else { max as int };
    let es = entries_start as int;
    let found = Seq::new(next as nat, |i: int| directory_entry(dev, es, i));
    let mode = ScanMode::Directory { entries_start, entry_count: count, next };
    let action = MountAction::Read { offset: (entries_start + 16 * next) as u32, len: 16 };
    let off = es + 16 * next;
    let b = dev.subrange(off, off + 16);
    assert(read_at(dev, off, 16) == Some(b));
    assert(u32_at(b, 0) == u32_at(dev, off));
    assert(u32_at(b, 4) == u32_at(dev, off + 4));
    let found2 = found.push(directory_entry(dev, es, next as int));
    assert(found2 =~= Seq::new((next + 1) as nat, |i: int| directory_entry(dev, es, i)));
    let s = spec_scan_on_read(found, max, mode, read_at(dev, off, 16));
    assert(s.0 == found2);
    if next + 1 >= count || found2.len() >= max {
        assert(s.2 == MountAction::Finished(Ok(found2.len() as usize)));
        assert(next + 1 == k);
        assert(spec_scan_run(dev, max, s.0, s.1, s.2) == (s.0, s.2));
        assert(spec_scan_run(dev, max, found, mode, action) == (s.0, s.2));
    } else {
        let n2 = (next + 1) as u16;
        assert(s.1 == ScanMode::Directory { entries_start, entry_count: count, next: n2 });
        assert(s.2 == MountAction::Read { offset: (entries_start + 16 * n2) as u32, len: 16 });
        lemma_directory_run(dev, max, entries_start, count, n2);
        assert(spec_scan_run(dev, max, found, mode, action) == spec_scan_run(dev, max, s.0, s.1, s.2));
    }
}

/// Mounting a partition that starts with a valid overlay directory of `n` entries records
/// the first `min(n, max)` entries, in directory order, and finishes with their number.
pub proof fn lemma_mount_directory(dev: Seq<u8>, base: u32, max: usize)
    requires
        base + 32 <= dev.len(),
        dev.subrange(base as int, base + 4) == OVERLAY_DIR_MAGIC@,
        overlay_directory_error(dev.subrange(base as int, base + 32)) is None,
        base + 32 + 16 * u16_at(dev, base + 6) <= dev.len(),
        base + 32 + 16 * u16_at(dev, base + 6) <= u32::MAX,
    ensures
        ({
            let n = u16_at(dev, base + 6);
            let k: int = if n <= max { n as int } else { max as int };
            let r = spec_mount(dev, base, max);
            &&& r.0 == Seq::new(k as nat, |i: int| directory_entry(dev, base + 32, i))
            &&& r.1 == MountAction::Finished(Ok(k as usize))
        }),
{
    let first = dev.subrange(base as int, base + 32);
    assert(first.subrange(0, 4) =~= dev.subrange(base as int, base + 4));
    assert(u16_at(first, 6) == u16_at(dev, base + 6));
    let n = u16_at(dev, base + 6);
    let k: int = if n <= max { n as int } else { max as int };
    if n == 0 || max == 0 {
        assert(Seq::new(k as nat, |i: int| directory_entry(dev, base + 32, i)) =~= Seq::<
            ModuleRegistration,
        >::empty());
    } else {
        let es = (base + 32) as u32;
        assert(Seq::new(0nat, |i: int| directory_entry(dev, es as int, i)) =~= Seq::<
            ModuleRegistration,
        >::empty());
        lemma_directory_run(dev, max, es, n, 0);
    }
}

/// Where the container after the one whose header is at `cur` starts: past the
/// header and the payload, rounded down to 4 bytes after adding 3.
pub open spec fn next_container(dev: Seq<u8>, cur: int) -> int {
    let step = 32 + u32_at(dev, cur + 12) + 3;
    cur + (step - step % 4)
}

/// A valid container header is stored at `cur`.
pub open spec fn header_at(dev: Seq<u8>, cur: int) -> bool {
    &&& 0 <= cur
    &&& cur + 32 <= dev.len()
    &&& overlay_header_error(dev.subrange(cur, cur + 32)) is None
}

/// `f` records back-to-back containers starting at `base`, in storage order: each entry
/// is a valid header, named by its module ID, and each container follows the previous.
pub open spec fn container_chain(dev: Seq<u8>, base: int, f: Seq<ModuleRegistration>) -> bool {
    &&& f.len() > 0 ==> f[0].flash_offset == base
    &&& forall|i: int|
        0 <= i < f.len() ==> header_at(dev, (#[trigger] f[i]).flash_offset as int)
            && f[i].module_id == u32_at(dev, f[i].flash_offset + 8)
    &&& forall|i: int|
        0 <= i < f.len() - 1 ==> (#[trigger] f[i + 1]).flash_offset == next_container(
            dev,
            f[i].flash_offset as int,
        )
}

/// Where the container after the chain `f` would start.
pub open spec fn chain_end(dev: Seq<u8>, base: int, f: Seq<ModuleRegistration>) -> int {
    if f.len() == 0 {
        base
    } else {
        next_container(dev, f.last().flash_offset as int)
    }
}

/// What a whole scan over back-to-back containers from `base` ends with.
pub open spec fn sequential_outcome(dev: Seq<u8>, base: int, max: usize, r: (
    Seq<ModuleRegistration>,
    MountAction,
)) -> bool {
    &&& container_chain(dev, base, r.0)
    &&& r.0.len() <= max
    &&& (r.1 == MountAction::Finished(Ok(r.0.len() as usize)) || r.1 == MountAction::AddressOverflow)
    &&& (r.1 == MountAction::Finished(Ok(r.0.len() as usize)) && r.0.len() < max) ==> !header_at(
        dev,
        chain_end(dev, base, r.0),
    )
}

/// A scan over containers, standing before the header at the end of the chain found so
/// far, ends with a longer chain that stops where no valid header follows.
proof fn lemma_sequential_run(
    dev: Seq<u8>,
    base: int,
    max: usize,
    found: Seq<ModuleRegistration>,
    cur: u32,
)
    requires
        container_chain(dev, base, found),
        found.len() <= max,
        chain_end(dev, base, found) == cur,
    ensures
        sequential_outcome(
            dev,
            base,
            max,
            spec_scan_run(
                dev,
                max,
                found,
                ScanMode::Sequential { current: cur },
                MountAction::Read { offset: cur, len: 32 },
            ),
        ),
    decreases u32::MAX - cur,
{
    let mode = ScanMode::Sequential { current: cur };
    let action = MountAction::Read { offset: cur, len: 32 };
    let bytes = read_at(dev, cur as int, 32);
    let s = spec_scan_on_read(found, max, mode, bytes);
    assert(spec_scan_run(dev, max, found, mode, action) == spec_scan_run(dev, max, s.0, s.1, s.2));
    match bytes {
        None => {
            assert(spec_scan_run(dev, max, s.0, s.1, s.2) == (s.0, s.2));
        },
        Some(b) => {
            assert(b == dev.subrange(cur as int, cur + 32));
            if b.subrange(0, 4) != OVERLAY_MAGIC@ {
                assert(spec_scan_run(dev, max, s.0, s.1, s.2) == (s.0, s.2));
            } else {
                let t = spec_sequential_step(found, max, cur, b);
                assert(s == t);
                if found.len() >= max || overlay_header_error(b) is Some {
                    assert(spec_scan_run(dev, max, s.0, s.1, s.2) == (s.0, s.2));
                } else {
                    let reg = ModuleRegistration { module_id: u32_at(b, 8), flash_offset: cur };
                    let found2 = found.push(reg);
                    assert(u32_at(b, 8) == u32_at(dev, cur + 8));
                    assert(u32_at(b, 12) == u32_at(dev, cur + 12));
                    assert(header_at(dev, cur as int));
                    assert(container_chain(dev, base, found2)) by {
                        assert forall|i: int| 0 <= i < found2.len() implies header_at(
                            dev,
                            (#[trigger] found2[i]).flash_offset as int,
                        ) && found2[i].module_id == u32_at(dev, found2[i].flash_offset + 8) by {
                            if i < found.len() {
                                assert(found2[i] == found[i]);
                            }
                        }
                        assert forall|i: int| 0 <= i < found2.len() - 1 implies (#[trigger] found2[i
                            + 1]).flash_offset == next_container(dev, found2[i].flash_offset as int) by {
                            if i + 1 < found.len() {
                                assert(found2[i + 1] == found[i + 1]);
                            }
                            assert(found2[i] == found[i]);
                        }
                    }
                    assert(found2.last() == reg);
                    let step = 32 + u32_at(b, 12) + 3;
                    if step > u32::MAX || cur + (step - step % 4) > u32::MAX {
                        assert(spec_scan_run(dev, max, s.0, s.1, s.2) == (s.0, s.2));
                    } else {
                        let next = (cur + (step - step % 4)) as u32;
                        assert(s.1 == ScanMode::Sequential { current: next });
                        assert(s.2 == MountAction::Read { offset: next, len: 32 });
                        assert(chain_end(dev, base, found2) == next);
                        lemma_sequential_run(dev, base, max, found2, next);
                    }
                }
            }
        },
    }
}

/// Mounting a partition of back-to-back containers records the chain of valid headers
/// from `base` in storage order, each at its offset and under its module ID, and stops
/// at the first place where no valid header follows (or at `max` modules, or when the
/// next offset would not fit in 32 bits).
pub proof fn lemma_mount_sequential(dev: Seq<u8>, base: u32, max: usize)
    requires
        base + 32 <= dev.len(),
        dev.subrange(base as int, base + 4) == OVERLAY_MAGIC@,
    ensures
        sequential_outcome(dev, base as int, max, spec_mount(dev, base, max)),
{
    let first = dev.subrange(base as int, base + 32);
    assert(first.subrange(0, 4) =~= dev.subrange(base as int, base + 4));
    assert(OVERLAY_MAGIC@ != OVERLAY_DIR_MAGIC@) by {
        assert(OVERLAY_MAGIC@[3] != OVERLAY_DIR_MAGIC@[3]);
    }
    let empty = Seq::<ModuleRegistration>::empty();
    let mode = ScanMode::Sequential { current: base };
    let action = MountAction::Read { offset: base, len: 32 };
    assert(read_at(dev, base as int, 32) == Some(first));
    let s = spec_scan_on_read(empty, max, mode, Some(first));
    assert(spec_scan_start(base, max, first) == s);
    assert(spec_scan_run(dev, max, empty, mode, action) == spec_scan_run(dev, max, s.0, s.1, s.2));
    lemma_sequential_run(dev, base as int, max, empty, base);
}

} // verus!
