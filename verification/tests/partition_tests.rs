use std::future::Future;
use std::pin::Pin;
use std::sync::Arc;
use std::task::{Context, Poll, Wake, Waker};

use embedded_overlay::mock::{MockFlash, MockFlashError};
use embedded_overlay::partition::{PartitionError, PartitionView};
use embedded_storage_async::nor_flash::{
    ErrorType, NorFlash, NorFlashError, NorFlashErrorKind, ReadNorFlash,
};
use sequential_storage::cache::Cache;
use sequential_storage::map::{MapConfig, MapStorage};

struct NoopWake;

impl Wake for NoopWake {
    fn wake(self: Arc<Self>) {}
}

fn block_on<F: Future>(fut: F) -> F::Output {
    let waker = Waker::from(Arc::new(NoopWake));
    let mut cx = Context::from_waker(&waker);
    let mut fut = Box::pin(fut);
    loop {
        if let Poll::Ready(res) = fut.as_mut().poll(&mut cx) {
            return res;
        }
    }
}

/// Error of a partition over the in-memory flash.
#[derive(Debug, Clone, Copy, PartialEq, Eq)]
struct PartErr(PartitionError<MockFlashError>);

impl NorFlashError for PartErr {
    fn kind(&self) -> NorFlashErrorKind {
        match self.0 {
            PartitionError::Storage(MockFlashError::OutOfBounds) => NorFlashErrorKind::OutOfBounds,
            PartitionError::Storage(MockFlashError::NotAligned) => NorFlashErrorKind::NotAligned,
            PartitionError::OutOfBounds => NorFlashErrorKind::OutOfBounds,
            PartitionError::Misaligned => NorFlashErrorKind::NotAligned,
        }
    }
}

/// A partition of an in-memory flash, as a NOR flash.
struct Part<const C: usize, const E: usize>(PartitionView<MockFlash<C, E>>);

impl<const C: usize, const E: usize> ErrorType for Part<C, E> {
    type Error = PartErr;
}

impl<const C: usize, const E: usize> ReadNorFlash for Part<C, E> {
    const READ_SIZE: usize = 1;

    async fn read(&mut self, offset: u32, bytes: &mut [u8]) -> Result<(), PartErr> {
        let phys = self.0.map_access(offset, bytes.len()).map_err(PartErr)?;
        self.0.inner().read(phys, bytes).map_err(|e| PartErr(PartitionError::Storage(e)))
    }

    fn capacity(&self) -> usize {
        self.0.capacity()
    }
}

impl<const C: usize, const E: usize> NorFlash for Part<C, E> {
    const WRITE_SIZE: usize = 1;
    const ERASE_SIZE: usize = E;

    async fn erase(&mut self, from: u32, to: u32) -> Result<(), PartErr> {
        let (pf, pt) = self.0.map_erase(from, to).map_err(PartErr)?;
        self.0.inner_mut().erase(pf, pt).map_err(|e| PartErr(PartitionError::Storage(e)))
    }

    async fn write(&mut self, offset: u32, bytes: &[u8]) -> Result<(), PartErr> {
        let phys = self.0.map_access(offset, bytes.len()).map_err(PartErr)?;
        self.0.inner_mut().write(phys, bytes).map_err(|e| PartErr(PartitionError::Storage(e)))
    }
}

#[test]
fn test_partition_view_bounds_and_isolation() {
    block_on(async {
        let flash = MockFlash::<65536, 4096>::new();

        // Create an 8 KB partition located at offset 4096..12288
        let mut part = Part(PartitionView::new(flash, 4096, 8192));

        assert_eq!(part.0.base_offset(), 4096);
        assert_eq!(part.0.size(), 8192);
        assert_eq!(part.capacity(), 8192);

        // Write within partition at relative offset 0 -> maps to physical 4096
        let write_data = [0x55u8; 16];
        part.write(0, &write_data).await.expect("Write relative 0");

        // Read back from partition
        let mut read_buf = [0u8; 16];
        part.read(0, &mut read_buf).await.expect("Read relative 0");
        assert_eq!(read_buf, write_data);

        // Verify that physical flash before partition (0..4096) is completely untouched
        let raw_flash = part.0.inner();
        assert_eq!(&raw_flash.data()[0..16], &[0xFF; 16]);
        // Verify that physical flash at 4096 contains the written data
        assert_eq!(&raw_flash.data()[4096..4112], &write_data);

        // Attempting to read/write out of bounds returns PartitionError::OutOfBounds
        let mut oob_buf = [0u8; 32];
        let err = part.read(8180, &mut oob_buf).await; // 8180 + 32 = 8212 > 8192
        match err {
            Err(PartErr(PartitionError::OutOfBounds)) => {}
            other => panic!("Expected OutOfBounds, got {:?}", other),
        }

        let err_write = part.write(8180, &oob_buf).await;
        match err_write {
            Err(PartErr(PartitionError::OutOfBounds)) => {}
            other => panic!("Expected OutOfBounds, got {:?}", other),
        }
    });
}

#[test]
fn test_sequential_storage_on_partition() {
    block_on(async {
        let flash = MockFlash::<65536, 4096>::new();

        // Dedicated 16 KB partition at 8192..24576 (4 pages of 4096 bytes)
        let part = Part(PartitionView::new(flash, 8192, 16384));

        // Run sequential-storage map within the 0..16384 relative range
        let mut data_buffer = [0u8; 256];
        let config = MapConfig::new(0..16384);
        let mut map = MapStorage::new(part, config, Cache::new_uncached());

        // Store item with key 0x42
        map.store_item(&mut data_buffer, &0x42u16, &104729u32)
            .await
            .expect("sequential-storage store_item");

        // Fetch item back
        let fetched: Option<u32> = map
            .fetch_item::<u32>(&mut data_buffer, &0x42u16)
            .await
            .expect("sequential-storage fetch_item");

        assert_eq!(fetched, Some(104729));

        // Verify that outside the partition (0..8192 and 24576..65536) remained 0xFF
        let underlying = map.destroy().0 .0.into_inner();
        assert_eq!(&underlying.data()[0..128], &[0xFF; 128]);
        assert_eq!(&underlying.data()[24576..24704], &[0xFF; 128]);
    });
}

#[test]
fn test_partition_erase_bounds_and_mapping() {
    let part = PartitionView::new(MockFlash::<16384, 4096>::new(), 4096, 8192);
    assert_eq!(part.map_erase::<()>(0, 4096), Ok((4096, 8192)));
    assert_eq!(part.map_erase::<()>(4096, 0), Err(PartitionError::OutOfBounds));
    assert_eq!(part.map_erase::<()>(0, 8193), Err(PartitionError::OutOfBounds));
    assert_eq!(part.map_access::<()>(8191, 1), Ok(4096 + 8191));
    assert_eq!(part.map_access::<()>(8191, 2), Err(PartitionError::OutOfBounds));
    assert_eq!(part.map_access::<()>(u32::MAX, 1), Err(PartitionError::OutOfBounds));
}

#[test]
fn test_mock_flash_nor_semantics() {
    let mut flash = MockFlash::<8192, 4096>::new();
    assert_eq!(flash.capacity(), 8192);
    flash.write(10, &[0x0F, 0xF0]).unwrap();
    // Bits can only be cleared.
    flash.write(10, &[0xF3, 0xFF]).unwrap();
    let mut buf = [0u8; 2];
    flash.read(10, &mut buf).unwrap();
    assert_eq!(buf, [0x03, 0xF0]);
    assert_eq!(flash.erase(1, 4096), Err(MockFlashError::NotAligned));
    assert_eq!(flash.erase(0, 12288), Err(MockFlashError::OutOfBounds));
    flash.erase(0, 4096).unwrap();
    flash.read(10, &mut buf).unwrap();
    assert_eq!(buf, [0xFF, 0xFF]);
    assert_eq!(flash.read(8191, &mut buf), Err(MockFlashError::OutOfBounds));
    assert_eq!(flash.write(8191, &buf), Err(MockFlashError::OutOfBounds));
}
