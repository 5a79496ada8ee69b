use embedded_overlay::error::VfsError;
use embedded_overlay::header::{VfsAssetEntry, VfsSuperblock};
use embedded_overlay::mock::MockFlash;
use embedded_overlay::vfs::{ChunkPlan, IndexScan, LruSectorCache, VfsReader};

type Flash = MockFlash<65536, 4096>;

const ASSET_DOOM_TEXTURE: u32 = 0x2001;
const ASSET_FONT_BDF: u32 = 0x2002;
const ASSET_AUDIO_CLIP: u32 = 0x2003;

/// Mounts the VFS whose superblock is at `partition_base`.
fn mount<const C: usize, const E: usize>(
    flash: MockFlash<C, E>,
    partition_base: u32,
) -> Result<VfsReader<MockFlash<C, E>>, VfsError> {
    let mut sb = [0u8; VfsSuperblock::SIZE];
    flash.read(partition_base, &mut sb).map_err(|_| VfsError::Storage)?;
    VfsReader::mount_from(flash, partition_base, &sb)
}

/// Searches the on-flash index for `asset_id`.
fn find_entry<const C: usize, const E: usize>(
    vfs: &VfsReader<MockFlash<C, E>>,
    asset_id: u32,
) -> Result<VfsAssetEntry, VfsError> {
    let mut step = vfs.index_scan_start(asset_id);
    loop {
        match step {
            IndexScan::Read { index, offset } => {
                let mut record = [0u8; VfsAssetEntry::SIZE];
                vfs.storage().read(offset, &mut record).map_err(|_| VfsError::Storage)?;
                step = vfs.index_scan_next(asset_id, index, &record);
            }
            IndexScan::Found(entry) => return Ok(entry),
            IndexScan::Failed(e) => return Err(e),
            IndexScan::AddressOverflow => panic!("index address overflow"),
        }
    }
}

fn asset_len<const C: usize, const E: usize>(
    vfs: &VfsReader<MockFlash<C, E>>,
    asset_id: u32,
) -> Result<usize, VfsError> {
    Ok(find_entry(vfs, asset_id)?.length as usize)
}

fn stream_chunk<const C: usize, const E: usize>(
    vfs: &VfsReader<MockFlash<C, E>>,
    asset_id: u32,
    offset: usize,
    dest: &mut [u8],
) -> Result<usize, VfsError> {
    let entry = find_entry(vfs, asset_id)?;
    match vfs.chunk_plan(&entry, offset, dest.len()) {
        ChunkPlan::Empty => Ok(0),
        ChunkPlan::Read { flash_addr, len } => {
            vfs.storage().read(flash_addr, &mut dest[..len]).map_err(|_| VfsError::Storage)?;
            Ok(len)
        }
        ChunkPlan::AddressOverflow => panic!("asset address overflow"),
    }
}

fn read_asset<const C: usize, const E: usize>(
    vfs: &VfsReader<MockFlash<C, E>>,
    asset_id: u32,
    dest: &mut [u8],
) -> Result<usize, VfsError> {
    let entry = find_entry(vfs, asset_id)?;
    let len = VfsReader::<MockFlash<C, E>>::whole_asset_len(&entry, dest.len())?;
    stream_chunk(vfs, asset_id, 0, &mut dest[..len])
}

#[test]
fn test_vfs_mount_and_streaming() {
    let mut flash = Flash::new();

    let asset1_data = [0xAAu8; 128]; // Texture
    let asset2_data = [0xBBu8; 64]; // Font
    let asset3_data = [0xCCu8; 256]; // Audio clip

    // Offset 0..32: Superblock; 32..80: 3 asset entries; 80..: asset blobs
    let index_offset = 32u32;
    let data_offset = index_offset + (3 * VfsAssetEntry::SIZE as u32);

    let entry1 = VfsAssetEntry {
        asset_id: ASSET_DOOM_TEXTURE,
        flash_offset: 0,
        length: asset1_data.len() as u32,
        flags: 0,
        crc16: 0,
    };
    let entry2 = VfsAssetEntry {
        asset_id: ASSET_FONT_BDF,
        flash_offset: asset1_data.len() as u32,
        length: asset2_data.len() as u32,
        flags: 0,
        crc16: 0,
    };
    let entry3 = VfsAssetEntry {
        asset_id: ASSET_AUDIO_CLIP,
        flash_offset: (asset1_data.len() + asset2_data.len()) as u32,
        length: asset3_data.len() as u32,
        flags: 0,
        crc16: 0,
    };

    let total_bytes =
        data_offset + (asset1_data.len() + asset2_data.len() + asset3_data.len()) as u32;
    let superblock = VfsSuperblock::new(3, index_offset, data_offset, total_bytes);

    flash.data_mut()[0..VfsSuperblock::SIZE].copy_from_slice(&superblock.to_bytes());
    flash.data_mut()[32..48].copy_from_slice(&entry1.to_bytes());
    flash.data_mut()[48..64].copy_from_slice(&entry2.to_bytes());
    flash.data_mut()[64..80].copy_from_slice(&entry3.to_bytes());

    let d_off = data_offset as usize;
    flash.data_mut()[d_off..d_off + 128].copy_from_slice(&asset1_data);
    flash.data_mut()[d_off + 128..d_off + 192].copy_from_slice(&asset2_data);
    flash.data_mut()[d_off + 192..d_off + 448].copy_from_slice(&asset3_data);

    // Mount VFS
    let vfs = mount(flash, 0).expect("Mount VFS");
    assert_eq!(vfs.asset_count(), 3);

    // Verify asset lengths
    assert_eq!(asset_len(&vfs, ASSET_DOOM_TEXTURE).unwrap(), 128);
    assert_eq!(asset_len(&vfs, ASSET_FONT_BDF).unwrap(), 64);
    assert_eq!(asset_len(&vfs, ASSET_AUDIO_CLIP).unwrap(), 256);

    // Stream complete asset
    let mut read_buf = [0u8; 128];
    let bytes_read = read_asset(&vfs, ASSET_DOOM_TEXTURE, &mut read_buf).unwrap();
    assert_eq!(bytes_read, 128);
    assert_eq!(read_buf, asset1_data);

    // Stream chunked slices
    let mut chunk = [0u8; 32];
    let n1 = stream_chunk(&vfs, ASSET_AUDIO_CLIP, 0, &mut chunk).unwrap();
    assert_eq!(n1, 32);
    assert_eq!(chunk, [0xCC; 32]);

    let n2 = stream_chunk(&vfs, ASSET_AUDIO_CLIP, 32, &mut chunk).unwrap();
    assert_eq!(n2, 32);
    assert_eq!(chunk, [0xCC; 32]);

    // Beyond EOF returns 0 bytes
    let n_eof = stream_chunk(&vfs, ASSET_AUDIO_CLIP, 300, &mut chunk).unwrap();
    assert_eq!(n_eof, 0);

    // Query non-existent asset
    let err = asset_len(&vfs, 0x9999);
    match err {
        Err(VfsError::AssetNotFound(0x9999)) => {}
        other => panic!("Expected AssetNotFound, got {:?}", other),
    }
}

/// Fetches a sector through the cache, reading it from flash on a miss.
fn get_or_load<'c, const S: usize, const Z: usize, const C: usize, const E: usize>(
    cache: &'c mut LruSectorCache<S, Z>,
    storage: &MockFlash<C, E>,
    sector_id: u32,
    flash_base_addr: u32,
) -> Result<&'c [u8], VfsError> {
    if let Some(idx) = cache.find(sector_id) {
        // A hit renews the entry's LRU stamp.
        let _ = cache.get(sector_id);
        return Ok(cache.sector_data(idx));
    }
    let idx = cache.victim_index();
    let offset = LruSectorCache::<S, Z>::sector_offset(flash_base_addr, sector_id)
        .expect("sector address overflow");
    let mut buf = vec![0u8; Z];
    storage.read(offset, &mut buf).map_err(|_| VfsError::Storage)?;
    cache.fill(idx, sector_id, &buf);
    Ok(cache.sector_data(idx))
}

#[test]
fn test_vfs_lru_sector_cache() {
    let mut flash = MockFlash::<65536, 512>::new();

    // Fill sector 0, 1, 2 with distinct patterns
    flash.data_mut()[0..512].fill(0x11);
    flash.data_mut()[512..1024].fill(0x22);
    flash.data_mut()[1024..1536].fill(0x33);

    // Cache with 2 sector slots of 512 bytes
    let mut cache = LruSectorCache::<2, 512>::new();

    // Load sector 0 -> Cache miss, loads from flash
    let sec0 = get_or_load(&mut cache, &flash, 0, 0).unwrap();
    assert_eq!(sec0[0], 0x11);

    // Load sector 1 -> Cache miss, loads into slot 1
    let sec1 = get_or_load(&mut cache, &flash, 1, 0).unwrap();
    assert_eq!(sec1[0], 0x22);

    // Access sector 0 again -> Cache hit!
    assert!(cache.get(0).is_some());
    assert_eq!(cache.get(0).unwrap()[0], 0x11);

    // Load sector 2 -> Cache full, evicts LRU (sector 1)
    let sec2 = get_or_load(&mut cache, &flash, 2, 0).unwrap();
    assert_eq!(sec2[0], 0x33);

    // Sector 0 was accessed recently, so it should still be in cache
    assert!(cache.get(0).is_some());
    // Sector 1 was evicted
    assert!(cache.get(1).is_none());
}

#[test]
fn test_vfs_mount_rejects_bad_superblock() {
    let mut flash = Flash::new();
    assert_eq!(mount(Flash::new(), 0).err(), Some(VfsError::InvalidMagic));

    let sb = VfsSuperblock::new(0, 32, 32, 32);
    flash.data_mut()[0..32].copy_from_slice(&sb.to_bytes());
    flash.data_mut()[4] = 2;
    assert_eq!(mount(flash, 0).err(), Some(VfsError::UnsupportedVersion));

    let mut flash = Flash::new();
    flash.data_mut()[0..32].copy_from_slice(&sb.to_bytes());
    flash.data_mut()[8] ^= 0x01;
    assert_eq!(mount(flash, 0).err(), Some(VfsError::SuperblockCrcMismatch));

    let mut flash = Flash::new();
    flash.data_mut()[0..32].copy_from_slice(&sb.to_bytes());
    let vfs = mount(flash, 0).unwrap();
    assert_eq!(vfs.asset_count(), 0);
    assert_eq!(asset_len(&vfs, 7), Err(VfsError::AssetNotFound(7)));
}

#[test]
fn test_vfs_read_asset_buffer_too_small_and_clamped_chunk() {
    let mut flash = Flash::new();
    let entry = VfsAssetEntry { asset_id: 5, flash_offset: 0, length: 10, flags: 0, crc16: 0 };
    let sb = VfsSuperblock::new(1, 32, 48, 58);
    flash.data_mut()[4096..4128].copy_from_slice(&sb.to_bytes());
    flash.data_mut()[4128..4144].copy_from_slice(&entry.to_bytes());
    for i in 0..10 {
        flash.data_mut()[4144 + i] = i as u8;
    }
    let vfs = mount(flash, 4096).unwrap();
    let mut small = [0u8; 4];
    assert_eq!(
        read_asset(&vfs, 5, &mut small),
        Err(VfsError::BufferTooSmall { required: 10, provided: 4 })
    );
    // A chunk at offset 7 is clamped to the 3 remaining bytes.
    let mut buf = [0u8; 8];
    assert_eq!(stream_chunk(&vfs, 5, 7, &mut buf), Ok(3));
    assert_eq!(&buf[..3], &[7, 8, 9]);
    assert_eq!(
        vfs.chunk_plan(&entry, 7, 8),
        ChunkPlan::Read { flash_addr: 4096 + 48 + 7, len: 3 }
    );
}

#[test]
fn test_sector_cache_clear_and_offsets() {
    let mut cache = LruSectorCache::<2, 4>::new();
    cache.fill(0, 9, &[1, 2, 3, 4]);
    assert_eq!(cache.get(9).unwrap(), &[1, 2, 3, 4]);
    cache.clear();
    assert!(cache.get(9).is_none());
    assert_eq!(cache.victim_index(), 0);
    assert_eq!(LruSectorCache::<2, 512>::sector_offset(1000, 3), Some(1000 + 1536));
    assert_eq!(LruSectorCache::<2, 512>::sector_offset(u32::MAX, 1), None);
}

#[test]
fn index_search_returns_first_matching_record() {
    let mut flash = Flash::new();
    let first = VfsAssetEntry { asset_id: 7, flash_offset: 0, length: 4, flags: 1, crc16: 0 };
    let other = VfsAssetEntry { asset_id: 8, flash_offset: 4, length: 4, flags: 0, crc16: 0 };
    let second = VfsAssetEntry { asset_id: 7, flash_offset: 8, length: 4, flags: 2, crc16: 0 };
    let sb = VfsSuperblock::new(3, 32, 80, 92);
    flash.data_mut()[0..32].copy_from_slice(&sb.to_bytes());
    flash.data_mut()[32..48].copy_from_slice(&first.to_bytes());
    flash.data_mut()[48..64].copy_from_slice(&other.to_bytes());
    flash.data_mut()[64..80].copy_from_slice(&second.to_bytes());
    let vfs = mount(flash, 0).unwrap();
    assert_eq!(find_entry(&vfs, 7), Ok(first));
    assert_eq!(find_entry(&vfs, 8), Ok(other));
    assert_eq!(find_entry(&vfs, 9), Err(VfsError::AssetNotFound(9)));
}
