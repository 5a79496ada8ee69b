//! Streamable virtual filesystem: mounting, index search and chunk planning.
//!
//! Reading storage is the caller's part. A mount hands the superblock bytes to
//! [`VfsReader::mount_from`]; an index search starts with
//! [`VfsReader::index_scan_start`] and feeds each 16-byte record it was told to read
//! to [`VfsReader::index_scan_next`]; a chunk read asks [`VfsReader::chunk_plan`] which
//! storage range to copy.

pub mod cache;

use vstd::prelude::*;
use crate::error::VfsError;
use crate::header::{vfs_superblock_error, VfsAssetEntry, VfsSuperblock};
use crate::wire::{u16_at, u32_at};
pub use cache::LruSectorCache;

verus! {

/// The next step of a search of the asset index.
#[derive(Debug, Clone, Copy, PartialEq, Eq)]
pub enum IndexScan {
    /// Read the 16-byte index record number `index`, stored at `offset`.
    Read { index: usize, offset: u32 },
    /// The record for the asset.
    Found(VfsAssetEntry),
    /// The search ended with this error.
    Failed(VfsError),
    /// The record address does not fit in 32 bits.
    AddressOverflow,
}

/// Which storage range a chunk read copies.
#[derive(Debug, Clone, Copy, PartialEq, Eq)]
pub enum ChunkPlan {
    /// The offset is at or past the end of the asset: nothing is read.
    Empty,
    /// Copy `len` bytes starting at storage offset `flash_addr`.
    Read { flash_addr: u32, len: usize },
    /// The storage address does not fit in 32 bits.
    AddressOverflow,
}

/// Streamable VFS reader over a storage driver.
pub struct VfsReader<S> {
    storage: S,
    partition_base: u32,
    superblock: VfsSuperblock,
}

/// Storage offset of index record `i`.
pub open spec fn index_record_offset(base: u32, sb: VfsSuperblock, i: int) -> int {
    base + sb.index_offset + 16 * i
}

/// Where the index search starts.
pub open spec fn spec_scan_start(base: u32, sb: VfsSuperblock, asset_id: u32) -> IndexScan {
    if base + sb.index_offset > u32::MAX {
        IndexScan::AddressOverflow
    } else if sb.asset_count == 0 {
        IndexScan::Failed(VfsError::AssetNotFound(asset_id))
    } else {
        IndexScan::Read { index: 0, offset: (base + sb.index_offset) as u32 }
    }
}

/// The index record stored as the 16 bytes of `record`.
pub open spec fn record_entry(record: Seq<u8>) -> VfsAssetEntry {
    VfsAssetEntry {
        asset_id: u32_at(record, 0),
        flash_offset: u32_at(record, 4),
        length: u32_at(record, 8),
        flags: u16_at(record, 12),
        crc16: u16_at(record, 14),
    }
}

/// Where the index search goes after reading record `index` as `record`.
pub open spec fn spec_scan_next(
    base: u32,
    sb: VfsSuperblock,
    asset_id: u32,
    index: int,
    record: Seq<u8>,
) -> IndexScan {
    if u32_at(record, 0) == asset_id {
        IndexScan::Found(record_entry(record))
    } else if index + 1 >= sb.asset_count {
        IndexScan::Failed(VfsError::AssetNotFound(asset_id))
    } else if index_record_offset(base, sb, index + 1) > u32::MAX {
        IndexScan::AddressOverflow
    } else {
        IndexScan::Read {
            index: (index + 1) as usize,
            offset: index_record_offset(base, sb, index + 1) as u32,
        }
    }
}

/// Storage address of byte `offset` of the asset described by `entry`.
pub open spec fn asset_byte_address(base: u32, sb: VfsSuperblock, entry: VfsAssetEntry, offset: int) -> int {
    base + sb.data_offset + entry.flash_offset + offset
}

/// The storage range a chunk read of `dest_len` bytes at `offset` copies.
pub open spec fn spec_chunk_plan(
    base: u32,
    sb: VfsSuperblock,
    entry: VfsAssetEntry,
    offset: int,
    dest_len: int,
) -> ChunkPlan {
    if offset >= entry.length {
        ChunkPlan::Empty
    } else if asset_byte_address(base, sb, entry, offset) > u32::MAX {
        ChunkPlan::AddressOverflow
    } else {
        ChunkPlan::Read {
            flash_addr: asset_byte_address(base, sb, entry, offset) as u32,
            len: (if entry.length - offset < dest_len {
                entry.length - offset
            } else {
                dest_len
            }) as usize,
        }
    }
}

impl<S> VfsReader<S> {
    /// The partition base offset.
    pub closed spec fn base(&self) -> u32 {
        self.partition_base
    }

    /// The mounted superblock.
    pub closed spec fn superblock_view(&self) -> VfsSuperblock {
        self.superblock
    }

    /// The storage driver.
    pub closed spec fn storage_view(&self) -> S {
        self.storage
    }

    /// Mounts the VFS from the superblock bytes read at `partition_base`.
    pub fn mount_from(storage: S, partition_base: u32, sb_bytes: &[u8]) -> (r: Result<Self, VfsError>)
        ensures
            match r {
                Ok(v) => {
                    &&& vfs_superblock_error(sb_bytes@) is None
                    &&& v.superblock_view().read_from(sb_bytes@)
                    &&& v.base() == partition_base
                    &&& v.storage_view() == storage
                },
                Err(e) => vfs_superblock_error(sb_bytes@) == Some(e),
            },
    {
        match VfsSuperblock::from_bytes(sb_bytes) {
            Ok(superblock) => Ok(VfsReader { storage, partition_base, superblock }),
            Err(e) => Err(e),
        }
    }

    /// Access the underlying storage driver.
    pub fn storage(&self) -> (r: &S)
        ensures
            *r == self.storage_view(),
    {
        &self.storage
    }

    /// Mutable access to the underlying storage driver.
    pub fn storage_mut(&mut self) -> (r: &mut S)
        ensures
            *r == old(self).storage_view(),
            final(self).storage_view() == *final(r),
            final(self).base() == old(self).base(),
            final(self).superblock_view() == old(self).superblock_view(),
    {
        &mut self.storage
    }

    /// Returns the number of assets indexed in the VFS.
    pub fn asset_count(&self) -> (r: usize)
        ensures
            r == self.superblock_view().asset_count,
    {
        self.superblock.asset_count as usize
    }

    /// The partition base offset the VFS was mounted at.
    pub fn partition_base(&self) -> (r: u32)
        ensures
            r == self.base(),
    {
        self.partition_base
    }

    /// Starts a search of the asset index for `asset_id`.
    pub fn index_scan_start(&self, asset_id: u32) -> (r: IndexScan)
        ensures
            r == spec_scan_start(self.base(), self.superblock_view(), asset_id),
            r is Read ==> r->index == 0 && r->offset == self.base()
                + self.superblock_view().index_offset,
    {
        let index_start = match self.partition_base.checked_add(self.superblock.index_offset) {
            Some(o) => o,
            None => return IndexScan::AddressOverflow,
        };
        if self.superblock.asset_count == 0 {
            return IndexScan::Failed(VfsError::AssetNotFound(asset_id));
        }
        IndexScan::Read { index: 0, offset: index_start }
    }

    /// Continues a search after index record number `index` was read as `record`.
    pub fn index_scan_next(&self, asset_id: u32, index: usize, record: &[u8]) -> (r: IndexScan)
        requires
            index < self.superblock_view().asset_count,
            record@.len() >= 16,
            self.base() + self.superblock_view().index_offset <= u32::MAX,
        ensures
            r == spec_scan_next(
                self.base(),
                self.superblock_view(),
                asset_id,
                index as int,
                record@,
            ),
            r is Read ==> r->index == index + 1 && r->offset == self.base()
                + self.superblock_view().index_offset + 16 * (index + 1),
            r is Found ==> r->Found_0.asset_id == asset_id && r->Found_0 == (VfsAssetEntry {
                asset_id: u32_at(record@, 0),
                flash_offset: u32_at(record@, 4),
                length: u32_at(record@, 8),
                flags: u16_at(record@, 12),
                crc16: u16_at(record@, 14),
            }),
    {
        let entry = VfsAssetEntry::from_bytes(record);
        if entry.asset_id == asset_id {
            return IndexScan::Found(entry);
        }
        let next = index + 1;
        if next >= self.superblock.asset_count as usize {
            return IndexScan::Failed(VfsError::AssetNotFound(asset_id));
        }
        let index_start = self.partition_base + self.superblock.index_offset;
        let rel = (next * 16) as u32;
        match index_start.checked_add(rel) {
            Some(offset) => IndexScan::Read { index: next, offset },
            None => IndexScan::AddressOverflow,
        }
    }

    /// Plans a chunk read of up to `dest_len` bytes starting at byte `offset` of the
    /// asset described by `entry`.
    pub fn chunk_plan(&self, entry: &VfsAssetEntry, offset: usize, dest_len: usize) -> (r: ChunkPlan)
        ensures
            r == spec_chunk_plan(
                self.base(),
                self.superblock_view(),
                *entry,
                offset as int,
                dest_len as int,
            ),
    {
        let asset_len = entry.length as usize;
        if offset >= asset_len {
            return ChunkPlan::Empty;
        }
        let remaining = asset_len - offset;
        let to_read = if remaining < dest_len {
            remaining
        } else {
            dest_len
        };
        let a = match self.partition_base.checked_add(self.superblock.data_offset) {
            Some(a) => a,
            None => return ChunkPlan::AddressOverflow,
        };
        let b = match a.checked_add(entry.flash_offset) {
            Some(b) => b,
            None => return ChunkPlan::AddressOverflow,
        };
        match b.checked_add(offset as u32) {
            Some(flash_addr) => ChunkPlan::Read { flash_addr, len: to_read },
            None => ChunkPlan::AddressOverflow,
        }
    }

    /// The number of bytes a whole-asset read copies, provided the destination can
    /// hold the asset.
    pub fn whole_asset_len(entry: &VfsAssetEntry, dest_len: usize) -> (r: Result<usize, VfsError>)
        ensures
            dest_len < entry.length ==> r == Err::<usize, VfsError>(
                VfsError::BufferTooSmall { required: entry.length as usize, provided: dest_len },
            ),
            dest_len >= entry.length ==> r == Ok::<usize, VfsError>(entry.length as usize),
    {
        let asset_len = entry.length as usize;
        if dest_len < asset_len {
            return Err(VfsError::BufferTooSmall { required: asset_len, provided: dest_len });
        }
        Ok(asset_len)
    }
}

/// A planned chunk read stays inside the asset and inside the destination buffer.
pub proof fn lemma_chunk_within_asset(
    base: u32,
    sb: VfsSuperblock,
    entry: VfsAssetEntry,
    offset: int,
    dest_len: int,
)
    requires
        0 <= offset,
        0 <= dest_len,
    ensures
        spec_chunk_plan(base, sb, entry, offset, dest_len) matches ChunkPlan::Read { flash_addr, len }
            ==> {
            &&& len <= dest_len
            &&& offset + len <= entry.length
            &&& flash_addr == asset_byte_address(base, sb, entry, offset)
            &&& flash_addr + len <= asset_byte_address(base, sb, entry, entry.length as int)
            &&& (len == dest_len || offset + len == entry.length)
        },
        offset >= entry.length ==> spec_chunk_plan(base, sb, entry, offset, dest_len)
            == ChunkPlan::Empty,
{
}

/// Record `j` is the first of `recs` naming `asset_id`.
pub open spec fn first_match(recs: Seq<Seq<u8>>, asset_id: u32, j: int) -> bool {
    &&& 0 <= j < recs.len()
    &&& u32_at(recs[j], 0) == asset_id
    &&& forall|i: int| 0 <= i < j ==> u32_at(#[trigger] recs[i], 0) != asset_id
}

/// How a search goes on from record `i` when each record `k` reads as `recs[k]`.
pub open spec fn spec_scan_from(
    base: u32,
    sb: VfsSuperblock,
    asset_id: u32,
    recs: Seq<Seq<u8>>,
    i: int,
) -> IndexScan
    decreases recs.len() - i,
{
    if i < 0 || i >= recs.len() {
        IndexScan::Failed(VfsError::AssetNotFound(asset_id))
    } else {
        match spec_scan_next(base, sb, asset_id, i, recs[i]) {
            IndexScan::Read { .. } => spec_scan_from(base, sb, asset_id, recs, i + 1),
            other => other,
        }
    }
}

/// How a whole search of the index for `asset_id` ends when each record `k` reads as
/// `recs[k]`: the steps of `index_scan_start` and `index_scan_next` run to the end.
pub open spec fn spec_index_search(base: u32, sb: VfsSuperblock, asset_id: u32, recs: Seq<Seq<u8>>) -> IndexScan {
    match spec_scan_start(base, sb, asset_id) {
        IndexScan::Read { .. } => spec_scan_from(base, sb, asset_id, recs, 0),
        other => other,
    }
}

/// The search from record `i` finds the first matching record at or after `i`, or
/// reports the asset missing.
proof fn lemma_scan_from(base: u32, sb: VfsSuperblock, asset_id: u32, recs: Seq<Seq<u8>>, i: int)
    requires
        recs.len() == sb.asset_count,
        base + sb.index_offset + 16 * sb.asset_count <= u32::MAX,
        0 <= i <= recs.len(),
    ensures
        forall|j: int|
            i <= j < recs.len() && u32_at(recs[j], 0) == asset_id && (forall|k: int|
                i <= k < j ==> u32_at(#[trigger] recs[k], 0) != asset_id) ==> spec_scan_from(
                base,
                sb,
                asset_id,
                recs,
                i,
            ) == IndexScan::Found(record_entry(recs[j])),
        (forall|k: int| i <= k < recs.len() ==> u32_at(#[trigger] recs[k], 0) != asset_id)
            ==> spec_scan_from(base, sb, asset_id, recs, i) == IndexScan::Failed(
            VfsError::AssetNotFound(asset_id),
        ),
    decreases recs.len() - i,
{
    if i < recs.len() {
        lemma_scan_from(base, sb, asset_id, recs, i + 1);
        if u32_at(recs[i], 0) != asset_id && i + 1 < recs.len() {
            assert(index_record_offset(base, sb, i + 1) <= u32::MAX);
        }
    }
}

/// A whole index search returns the first record naming the asset, or reports the asset
/// missing when no record names it.
pub proof fn lemma_index_search(base: u32, sb: VfsSuperblock, asset_id: u32, recs: Seq<Seq<u8>>)
    requires
        recs.len() == sb.asset_count,
        base + sb.index_offset + 16 * sb.asset_count <= u32::MAX,
    ensures
        forall|j: int| #[trigger] first_match(recs, asset_id, j) ==> spec_index_search(
            base,
            sb,
            asset_id,
            recs,
        ) == IndexScan::Found(record_entry(recs[j])),
        (forall|k: int| 0 <= k < recs.len() ==> u32_at(#[trigger] recs[k], 0) != asset_id)
            ==> spec_index_search(base, sb, asset_id, recs) == IndexScan::Failed(
            VfsError::AssetNotFound(asset_id),
        ),
{
    lemma_scan_from(base, sb, asset_id, recs, 0);
}

/// Every step of an index search asks for record `k` at partition base plus index
/// offset plus `16 * k`.
pub proof fn lemma_scan_reads_record_addresses(
    base: u32,
    sb: VfsSuperblock,
    asset_id: u32,
    index: int,
    record: Seq<u8>,
)
    requires
        0 <= index,
    ensures
        spec_scan_start(base, sb, asset_id) matches IndexScan::Read { index: k, offset } ==> k == 0
            && offset == base + sb.index_offset,
        spec_scan_next(base, sb, asset_id, index, record) matches IndexScan::Read { index: k, offset }
            ==> k == index + 1 && offset == base + sb.index_offset + 16 * k,
{
}

/// The 16 bytes of `dev` at `offset`.
pub open spec fn bytes_at(dev: Seq<u8>, offset: int) -> Seq<u8> {
    dev.subrange(offset, offset + 16)
}

/// How a search that stands at `scan` ends when each read returns the device bytes at the
/// offset the search asks for.
pub open spec fn spec_search_device(
    base: u32,
    sb: VfsSuperblock,
    asset_id: u32,
    dev: Seq<u8>,
    scan: IndexScan,
) -> IndexScan
    decreases (match scan {
        IndexScan::Read { index, .. } => sb.asset_count - index,
        _ => 0,
    }),
{
    match scan {
        IndexScan::Read { index, offset } => if index < sb.asset_count {
            spec_search_device(
                base,
                sb,
                asset_id,
                dev,
                spec_scan_next(base, sb, asset_id, index as int, bytes_at(dev, offset as int)),
            )
        } else {
            IndexScan::Failed(VfsError::AssetNotFound(asset_id))
        },
        other => other,
    }
}

/// The record stored at index slot `k` of a VFS at `base` names `asset_id`.
pub open spec fn slot_names(dev: Seq<u8>, base: u32, sb: VfsSuperblock, asset_id: u32, k: int) -> bool {
    u32_at(dev, base + sb.index_offset + 16 * k) == asset_id
}

/// A search standing at record `i` ends with the first record at or after `i` stored at
/// its address that names the asset, or reports the asset missing.
proof fn lemma_search_device_from(base: u32, sb: VfsSuperblock, asset_id: u32, dev: Seq<u8>, i: int)
    requires
        0 <= i < sb.asset_count,
        base + sb.index_offset + 16 * sb.asset_count <= dev.len(),
        base + sb.index_offset + 16 * sb.asset_count <= u32::MAX,
    ensures
        ({
            let r = spec_search_device(
                base,
                sb,
                asset_id,
                dev,
                IndexScan::Read { index: i as usize, offset: (base + sb.index_offset + 16 * i) as u32 },
            );
            &&& forall|j: int|
                i <= j < sb.asset_count && slot_names(dev, base, sb, asset_id, j) && (forall|k: int|
                    i <= k < j ==> !#[trigger] slot_names(dev, base, sb, asset_id, k)) ==> r
                    == IndexScan::Found(
                    record_entry(bytes_at(dev, base + sb.index_offset + 16 * j)),
                )
            &&& (forall|k: int| i <= k < sb.asset_count ==> !#[trigger] slot_names(dev, base, sb, asset_id, k))
                ==> r == IndexScan::Failed(VfsError::AssetNotFound(asset_id))
        }),
    decreases sb.asset_count - i,
{
    let off = base + sb.index_offset + 16 * i;
    let rec = bytes_at(dev, off);
    assert(u32_at(rec, 0) == u32_at(dev, off));
    assert(slot_names(dev, base, sb, asset_id, i) == (u32_at(rec, 0) == asset_id));
    let scan = IndexScan::Read { index: i as usize, offset: off as u32 };
    let step = spec_scan_next(base, sb, asset_id, i, rec);
    assert(spec_search_device(base, sb, asset_id, dev, scan) == spec_search_device(
        base,
        sb,
        asset_id,
        dev,
        step,
    ));
    if u32_at(rec, 0) == asset_id {
        assert(step == IndexScan::Found(record_entry(rec)));
        assert(spec_search_device(base, sb, asset_id, dev, step) == step);
    } else if i + 1 >= sb.asset_count {
        assert(spec_search_device(base, sb, asset_id, dev, step) == step);
    } else {
        assert(step == IndexScan::Read {
            index: (i + 1) as usize,
            offset: (base + sb.index_offset + 16 * (i + 1)) as u32,
        });
        lemma_search_device_from(base, sb, asset_id, dev, i + 1);
    }
}

/// A whole index search over a device returns the first record, among those stored at
/// partition base + index offset + `16 * k`, that names the asset, or reports the asset
/// missing when none does.
pub proof fn lemma_index_search_device(base: u32, sb: VfsSuperblock, asset_id: u32, dev: Seq<u8>)
    requires
        base + sb.index_offset + 16 * sb.asset_count <= dev.len(),
        base + sb.index_offset + 16 * sb.asset_count <= u32::MAX,
    ensures
        ({
            let r = spec_search_device(base, sb, asset_id, dev, spec_scan_start(base, sb, asset_id));
            &&& forall|j: int|
                0 <= j < sb.asset_count && slot_names(dev, base, sb, asset_id, j) && (forall|k: int|
                    0 <= k < j ==> !#[trigger] slot_names(dev, base, sb, asset_id, k)) ==> r
                    == IndexScan::Found(
                    record_entry(bytes_at(dev, base + sb.index_offset + 16 * j)),
                )
            &&& (forall|k: int| 0 <= k < sb.asset_count ==> !#[trigger] slot_names(dev, base, sb, asset_id, k))
                ==> r == IndexScan::Failed(VfsError::AssetNotFound(asset_id))
        }),
{
    if sb.asset_count > 0 {
        lemma_search_device_from(base, sb, asset_id, dev, 0);
    }
}

} // verus!
