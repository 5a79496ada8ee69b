//! Byte-addressed access to 512-byte-sector block devices (SD / microSD cards).
//!
//! A transfer of `len` bytes at a byte offset is cut into steps: runs of whole
//! blocks, which go straight between the caller's buffer and the device, and pieces of
//! a single block, which go through a one-block bounce cache (read-modify-write for
//! writes). The device calls are the caller's; the adapter decides the steps and keeps
//! the cache.

use vstd::prelude::*;

verus! {

/// Errors occurring during block device operations.
#[derive(Debug, Clone, Copy, PartialEq, Eq)]
pub enum BlockAdapterError<E> {
    Device(E),
    OutOfBounds,
    InvalidAlignment,
}

/// Progress of a byte transfer: bytes `pos..len` of the caller's buffer remain, and
/// the next one goes to or comes from device byte `offset`.
#[derive(Debug, Clone, Copy, PartialEq, Eq)]
pub struct BlockTransfer {
    pub offset: u32,
    pub pos: usize,
    pub len: usize,
}

/// One step of a transfer.
#[derive(Debug, Clone, Copy, PartialEq, Eq)]
pub enum TransferStep {
    /// `count` whole blocks starting at `block`: `len == count * BLOCK_SIZE` bytes of the
    /// caller's buffer, moved directly.
    Whole { block: u32, count: usize, len: usize },
    /// `len` bytes at `block_offset` within `block`, moved through the bounce cache.
    Partial { block: u32, block_offset: usize, len: usize },
}

impl TransferStep {
    /// Number of caller bytes the step moves.
    pub open spec fn spec_len(self) -> usize {
        match self {
            TransferStep::Whole { len, .. } => len,
            TransferStep::Partial { len, .. } => len,
        }
    }

    /// Number of caller bytes the step moves.
    pub fn step_len(&self) -> (r: usize)
        ensures
            r == self.spec_len(),
    {
        match self {
            TransferStep::Whole { len, .. } => *len,
            TransferStep::Partial { len, .. } => *len,
        }
    }
}

/// The step a transfer takes next, for blocks of `bs` bytes.
pub open spec fn spec_next_step(bs: int, t: BlockTransfer) -> Option<TransferStep> {
    let remaining = t.len - t.pos;
    let block = t.offset as int / bs;
    let block_offset = t.offset as int % bs;
    if remaining <= 0 {
        None
    } else if block_offset == 0 && remaining >= bs {
        Some(
            TransferStep::Whole {
                block: block as u32,
                count: (remaining / bs) as usize,
                len: ((remaining / bs) * bs) as usize,
            },
        )
    } else {
        Some(
            TransferStep::Partial {
                block: block as u32,
                block_offset: block_offset as usize,
                len: (if remaining < bs - block_offset {
                    remaining
                } else {
                    bs - block_offset
                }) as usize,
            },
        )
    }
}

/// A transfer that can run to completion without leaving 32-bit device addresses.
pub open spec fn transfer_ok(t: BlockTransfer) -> bool {
    t.pos <= t.len && t.offset + (t.len - t.pos) <= u32::MAX
}

/// An adapter that gives byte-addressed access to a block device.
pub struct BlockDeviceAdapter<B, const BLOCK_SIZE: usize> {
    device: B,
    cached_block: Option<u32>,
    cache: Vec<u8>,
}

/// Block `b` of a device whose bytes are `dev`.
pub open spec fn block_bytes(dev: Seq<u8>, bs: int, b: int) -> Seq<u8> {
    dev.subrange(b * bs, (b + 1) * bs)
}

/// The bounce cache agrees with the device: a cached block holds the device's bytes.
pub open spec fn cache_coherent(cached: Option<u32>, cache: Seq<u8>, dev: Seq<u8>, bs: int) -> bool {
    cached matches Some(b) ==> (b + 1) * bs <= dev.len() && cache == block_bytes(dev, bs, b as int)
}

/// The device bytes after writing `data` at byte `at`.
pub open spec fn device_written(dev: Seq<u8>, at: int, data: Seq<u8>) -> Seq<u8> {
    dev.subrange(0, at) + data + dev.subrange(at + data.len(), dev.len() as int)
}

/// A partial read served from a coherent cache returns exactly the device's bytes.
pub proof fn lemma_cached_read_matches_device(
    b: u32,
    cache: Seq<u8>,
    dev: Seq<u8>,
    bs: int,
    block_offset: int,
    len: int,
)
    requires
        bs > 0,
        cache_coherent(Some(b), cache, dev, bs),
        0 <= block_offset,
        0 <= len,
        block_offset + len <= bs,
    ensures
        cache.subrange(block_offset, block_offset + len) == dev.subrange(
            b * bs + block_offset,
            b * bs + block_offset + len,
        ),
{
    assert((b + 1) * bs == b * bs + bs) by (nonlinear_arith);
    assert(cache.subrange(block_offset, block_offset + len) =~= dev.subrange(
        b * bs + block_offset,
        b * bs + block_offset + len,
    ));
}

/// A read-modify-write keeps the cache coherent with the device, and the device then
/// holds the written bytes at the written place.
pub proof fn lemma_patched_block_write_coherent(
    b: u32,
    cache: Seq<u8>,
    dev: Seq<u8>,
    bs: int,
    block_offset: int,
    src: Seq<u8>,
)
    requires
        bs > 0,
        cache_coherent(Some(b), cache, dev, bs),
        0 <= block_offset,
        block_offset + src.len() <= bs,
    ensures
        ({
            let patched = cache.subrange(0, block_offset) + src + cache.subrange(
                block_offset + src.len(),
                cache.len() as int,
            );
            let dev2 = device_written(dev, b * bs, patched);
            &&& cache_coherent(Some(b), patched, dev2, bs)
            &&& dev2.len() == dev.len()
            &&& dev2.subrange(b * bs + block_offset, b * bs + block_offset + src.len()) == src
        }),
{
    assert((b + 1) * bs == b * bs + bs) by (nonlinear_arith);
    assert(0 <= b * bs) by (nonlinear_arith)
        requires
            bs > 0,
    ;
    let patched = cache.subrange(0, block_offset) + src + cache.subrange(
        block_offset + src.len(),
        cache.len() as int,
    );
    let dev2 = device_written(dev, b * bs, patched);
    assert(patched.len() == bs);
    assert(block_bytes(dev2, bs, b as int) =~= patched);
    assert(dev2.subrange(b * bs + block_offset, b * bs + block_offset + src.len()) =~= src);
}

/// A direct write of whole blocks, followed by forgetting the cached block when the
/// write covered it, keeps the cache coherent with the device.
pub proof fn lemma_whole_block_write_coherent(
    cached: Option<u32>,
    cache: Seq<u8>,
    dev: Seq<u8>,
    bs: int,
    block: u32,
    count: int,
    data: Seq<u8>,
)
    requires
        bs > 0,
        0 <= count,
        data.len() == count * bs,
        block * bs + data.len() <= dev.len(),
        cache_coherent(cached, cache, dev, bs),
    ensures
        cache_coherent(
            match cached {
                Some(c) => if block <= c < block + count {
                    None
                } else {
                    Some(c)
                },
                None => None,
            },
            cache,
            device_written(dev, block * bs, data),
            bs,
        ),
{
    let dev2 = device_written(dev, block * bs, data);
    if let Some(c) = cached {
        if !(block <= c < block + count) {
            assert((c + 1) * bs == c * bs + bs) by (nonlinear_arith);
            assert(0 <= block * bs) by (nonlinear_arith)
                requires
                    bs > 0,
            ;
            if c < block {
                assert((c + 1) * bs <= block * bs) by (nonlinear_arith)
                    requires
                        c + 1 <= block,
                        bs > 0,
                ;
            } else {
                assert((block + count) * bs <= c * bs) by (nonlinear_arith)
                    requires
                        block + count <= c,
                        bs > 0,
                ;
                assert((block + count) * bs == block * bs + count * bs) by (nonlinear_arith);
            }
            assert(block_bytes(dev2, bs, c as int) =~= block_bytes(dev, bs, c as int));
        }
    }
}

impl<B, const BLOCK_SIZE: usize> BlockDeviceAdapter<B, BLOCK_SIZE> {
    /// The wrapped device.
    pub closed spec fn device_view(&self) -> B {
        self.device
    }

    /// The block held in the bounce cache, if any.
    pub closed spec fn cached(&self) -> Option<u32> {
        self.cached_block
    }

    /// The bounce cache bytes.
    pub closed spec fn cache_view(&self) -> Seq<u8> {
        self.cache@
    }

    /// Creates a new adapter wrapping the given block device, with an empty cache.
    pub fn new(device: B) -> (r: Self)
        ensures
            r.device_view() == device,
            r.cached() is None,
            r.cache_view() == Seq::new(BLOCK_SIZE as nat, |i: int| 0u8),
    {
        let mut cache: Vec<u8> = Vec::new();
        let mut i: usize = 0;
        while i < BLOCK_SIZE
            invariant
                0 <= i <= BLOCK_SIZE,
                cache@ == Seq::new(i as nat, |k: int| 0u8),
            decreases BLOCK_SIZE - i,
        {
            cache.push(0u8);
            i += 1;
        }
        BlockDeviceAdapter { device, cached_block: None, cache }
    }

    /// Access the underlying block device.
    pub fn device(&self) -> (r: &B)
        ensures
            *r == self.device_view(),
    {
        &self.device
    }

    /// Mutably access the underlying block device.
    pub fn device_mut(&mut self) -> (r: &mut B)
        ensures
            *r == old(self).device_view(),
            final(self).device_view() == *final(r),
            final(self).cached() == old(self).cached(),
            final(self).cache_view() == old(self).cache_view(),
    {
        &mut self.device
    }

    /// Consumes the adapter and returns the underlying device.
    pub fn into_device(self) -> (r: B)
        ensures
            r == self.device_view(),
    {
        self.device
    }

    /// The block held in the bounce cache, if any.
    pub fn cached_block(&self) -> (r: Option<u32>)
        ensures
            r == self.cached(),
    {
        self.cached_block
    }

    /// The bounce cache bytes.
    pub fn cached_bytes(&self) -> (r: &[u8])
        ensures
            r@ == self.cache_view(),
    {
        self.cache.as_slice()
    }

    /// Device size in bytes, as the adapter bounds transfers: `num_blocks * BLOCK_SIZE`
    /// truncated to 32 bits.
    pub fn total_capacity(num_blocks: u64) -> (r: u32)
        requires
            num_blocks * BLOCK_SIZE <= u64::MAX,
        ensures
            r == (num_blocks * BLOCK_SIZE) as u32,
    {
        let bytes = num_blocks * (BLOCK_SIZE as u64);
        bytes as u32
    }

    /// Device size in bytes as reported by `capacity`: `num_blocks * BLOCK_SIZE`
    /// converted to `usize`.
    pub fn capacity_bytes(num_blocks: u64) -> (r: usize)
        requires
            num_blocks * BLOCK_SIZE <= u64::MAX,
        ensures
            r == (num_blocks * BLOCK_SIZE) as usize,
    {
        let bytes = num_blocks * (BLOCK_SIZE as u64);
        bytes as usize
    }

    /// Checks a read or write of `len` bytes at `offset` against the device size and
    /// starts the transfer.
    pub fn begin_transfer<E>(num_blocks: u64, offset: u32, len: usize) -> (r: Result<
        BlockTransfer,
        BlockAdapterError<E>,
    >)
        requires
            num_blocks * BLOCK_SIZE <= u64::MAX,
        ensures
            match r {
                Ok(t) => {
                    &&& t == (BlockTransfer { offset, pos: 0, len })
                    &&& offset + len <= (num_blocks * BLOCK_SIZE) as u32
                    &&& transfer_ok(t)
                },
                Err(e) => e == BlockAdapterError::<E>::OutOfBounds && offset + len > (num_blocks
                    * BLOCK_SIZE) as u32,
            },
    {
        let total_capacity = Self::total_capacity(num_blocks);
        if len > u32::MAX as usize {
            return Err(BlockAdapterError::OutOfBounds);
        }
        let requested_end = match offset.checked_add(len as u32) {
            Some(end) => end,
            None => return Err(BlockAdapterError::OutOfBounds),
        };
        if requested_end > total_capacity {
            return Err(BlockAdapterError::OutOfBounds);
        }
        Ok(BlockTransfer { offset, pos: 0, len })
    }

    /// Checks an erase of `from..to`. Block devices manage erasure themselves, so
    /// nothing else happens.
    pub fn check_erase<E>(num_blocks: u64, from: u32, to: u32) -> (r: Result<(), BlockAdapterError<E>>)
        requires
            num_blocks * BLOCK_SIZE <= u64::MAX,
        ensures
            r is Ok <==> (from <= to && to <= num_blocks * BLOCK_SIZE),
            r matches Err(e) ==> e == BlockAdapterError::<E>::OutOfBounds,
    {
        if from > to || to as u64 > num_blocks * (BLOCK_SIZE as u64) {
            return Err(BlockAdapterError::OutOfBounds);
        }
        Ok(())
    }

    /// The next step of a transfer, or `None` when it is complete.
    pub fn next_step(t: &BlockTransfer) -> (r: Option<TransferStep>)
        requires
            0 < BLOCK_SIZE <= u32::MAX,
            transfer_ok(*t),
        ensures
            r == spec_next_step(BLOCK_SIZE as int, *t),
            r matches Some(s) ==> 0 < s.spec_len() <= t.len - t.pos,
    {
        let remaining = t.len - t.pos;
        if remaining == 0 {
            return None;
        }
        let bs = BLOCK_SIZE as u32;
        let block = t.offset / bs;
        let block_offset = (t.offset % bs) as usize;
        if block_offset == 0 && remaining >= BLOCK_SIZE {
            let count = remaining / BLOCK_SIZE;
            assert(count * BLOCK_SIZE <= remaining) by (nonlinear_arith)
                requires
                    count == remaining / BLOCK_SIZE,
                    BLOCK_SIZE > 0,
            ;
            assert(count * BLOCK_SIZE > 0) by (nonlinear_arith)
                requires
                    count == remaining / BLOCK_SIZE,
                    remaining >= BLOCK_SIZE > 0,
            ;
            Some(TransferStep::Whole { block, count, len: count * BLOCK_SIZE })
        } else {
            let room = BLOCK_SIZE - block_offset;
            let len = if remaining < room {
                remaining
            } else {
                room
            };
            Some(TransferStep::Partial { block, block_offset, len })
        }
    }

    /// Records that a step of `n` bytes was done.
    pub fn advance(t: &mut BlockTransfer, n: usize)
        requires
            transfer_ok(*old(t)),
            n <= old(t).len - old(t).pos,
        ensures
            *final(t) == (BlockTransfer {
                offset: (old(t).offset + n) as u32,
                pos: (old(t).pos + n) as usize,
                len: old(t).len,
            }),
            transfer_ok(*final(t)),
    {
        t.offset = t.offset + n as u32;
        t.pos = t.pos + n;
    }

    /// Whether a partial step on `block` must first fetch the block into the cache.
    pub fn needs_fetch(&self, block: u32) -> (r: bool)
        ensures
            r == (self.cached() != Some(block)),
    {
        match self.cached_block {
            Some(b) => b != block,
            None => true,
        }
    }

    /// Stores block `block`, just read from the device as `bytes`, in the cache.
    pub fn fill_cache(&mut self, block: u32, bytes: &[u8])
        requires
            bytes@.len() == BLOCK_SIZE,
        ensures
            final(self).cached() == Some(block),
            final(self).cache_view() == bytes@,
            final(self).device_view() == old(self).device_view(),
    {
        let mut cache: Vec<u8> = Vec::new();
        let mut k: usize = 0;
        while k < bytes.len()
            invariant
                0 <= k <= bytes@.len(),
                cache@ == bytes@.subrange(0, k as int),
            decreases bytes@.len() - k,
        {
            cache.push(bytes[k]);
            k += 1;
        }
        assert(cache@ =~= bytes@);
        self.cache = cache;
        self.cached_block = Some(block);
    }

    /// Copies `dest.len()` cached bytes starting at `block_offset` into `dest`.
    pub fn copy_from_cache(&self, block_offset: usize, dest: &mut [u8])
        requires
            block_offset + old(dest)@.len() <= self.cache_view().len(),
        ensures
            final(dest)@ == self.cache_view().subrange(
                block_offset as int,
                block_offset + old(dest)@.len(),
            ),
    {
        let len = dest.len();
        let cl = self.cache.len();
        let mut i: usize = 0;
        while i < len
            invariant
                0 <= i <= len,
                len == dest@.len(),
                cl == self.cache@.len(),
                block_offset + len <= cl,
                forall|k: int| 0 <= k < i ==> dest@[k] == self.cache@[block_offset + k],
            decreases len - i,
        {
            dest[i] = self.cache[block_offset + i];
            i += 1;
        }
        assert(dest@ =~= self.cache@.subrange(block_offset as int, block_offset + len));
    }

    /// Overwrites the cached bytes at `block_offset` with `src` (the modify step of a
    /// read-modify-write; the caller then writes the whole cache back to the block).
    pub fn patch_cache(&mut self, block_offset: usize, src: &[u8])
        requires
            block_offset + src@.len() <= old(self).cache_view().len(),
        ensures
            final(self).cache_view() == old(self).cache_view().subrange(0, block_offset as int)
                + src@ + old(self).cache_view().subrange(
                block_offset + src@.len(),
                old(self).cache_view().len() as int,
            ),
            final(self).cached() == old(self).cached(),
            final(self).device_view() == old(self).device_view(),
    {
        let len = src.len();
        let cl = self.cache.len();
        let mut i: usize = 0;
        while i < len
            invariant
                0 <= i <= len,
                len == src@.len(),
                cl == self.cache@.len(),
                block_offset + len <= cl,
                self.cache@.len() == old(self).cache@.len(),
                self.cached_block == old(self).cached_block,
                self.device == old(self).device,
                forall|k: int|
                    0 <= k < self.cache@.len() ==> #[trigger] self.cache@[k] == (if block_offset
                        <= k < block_offset + i {
                        src@[k - block_offset]
                    } else {
                        old(self).cache@[k]
                    }),
            decreases len - i,
        {
            self.cache.set(block_offset + i, src[i]);
            i += 1;
        }
        assert(self.cache@ =~= old(self).cache@.subrange(0, block_offset as int) + src@
            + old(self).cache@.subrange(block_offset + len, old(self).cache@.len() as int));
    }

    /// Forgets the cached block if a direct write of `count` blocks at `block` covered it.
    pub fn invalidate_written(&mut self, block: u32, count: usize)
        ensures
            final(self).cached() == (match old(self).cached() {
                Some(c) => if block <= c < block + count {
                    None
                } else {
                    Some(c)
                },
                None => None,
            }),
            final(self).cache_view() == old(self).cache_view(),
            final(self).device_view() == old(self).device_view(),
    {
        if let Some(cached) = self.cached_block {
            if cached >= block && ((cached - block) as usize) < count {
                self.cached_block = None;
            }
        }
    }
}

} // verus!
