//! A bounded window onto a larger flash device, for wear-levelled key-value stores.
//!
//! The view translates partition-relative offsets to device offsets and refuses any
//! access outside the window; the device access itself is the caller's.

use vstd::prelude::*;

verus! {

/// Partition boundary error.
#[derive(Debug, Clone, Copy, PartialEq, Eq)]
pub enum PartitionError<E> {
    /// Underlying storage driver error.
    Storage(E),
    /// Operation went outside the partition boundary.
    OutOfBounds,
    /// Unaligned offset or length according to flash geometry.
    Misaligned,
}

/// A view of `size` bytes starting at `base_offset` of a physical flash device.
#[derive(Debug, Clone)]
pub struct PartitionView<S> {
    storage: S,
    base_offset: u32,
    size: u32,
}

/// End of a `len`-byte access at `offset`, as the length is truncated to 32 bits.
pub open spec fn access_end(offset: u32, len: usize) -> int {
    offset + (len as u32)
}

impl<S> PartitionView<S> {
    /// The window fits in the 32-bit device address space.
    pub closed spec fn wf(&self) -> bool {
        self.base_offset + self.size <= u32::MAX
    }

    /// The partition's first device offset.
    pub closed spec fn base(&self) -> u32 {
        self.base_offset
    }

    /// The partition's length in bytes.
    pub closed spec fn len(&self) -> u32 {
        self.size
    }

    /// The underlying storage.
    pub closed spec fn storage_view(&self) -> S {
        self.storage
    }

    /// Creates a new partition view. The window must fit in the 32-bit address space.
    pub fn new(storage: S, base_offset: u32, size: u32) -> (r: Self)
        requires
            base_offset + size <= u32::MAX,
        ensures
            r.wf(),
            r.base() == base_offset,
            r.len() == size,
            r.storage_view() == storage,
    {
        PartitionView { storage, base_offset, size }
    }

    /// Returns the base offset of this partition within the physical flash.
    pub fn base_offset(&self) -> (r: u32)
        ensures
            r == self.base(),
    {
        self.base_offset
    }

    /// Returns the size in bytes of this partition.
    pub fn size(&self) -> (r: u32)
        ensures
            r == self.len(),
    {
        self.size
    }

    /// The partition capacity in bytes.
    pub fn capacity(&self) -> (r: usize)
        ensures
            r == self.len(),
    {
        self.size as usize
    }

    /// Access the underlying storage.
    pub fn inner(&self) -> (r: &S)
        ensures
            *r == self.storage_view(),
    {
        &self.storage
    }

    /// Mutably access the underlying storage.
    pub fn inner_mut(&mut self) -> (r: &mut S)
        ensures
            *r == old(self).storage_view(),
            final(self).storage_view() == *final(r),
            final(self).base() == old(self).base(),
            final(self).len() == old(self).len(),
            final(self).wf() == old(self).wf(),
    {
        &mut self.storage
    }

    /// Consumes the view and returns the inner storage.
    pub fn into_inner(self) -> (r: S)
        ensures
            r == self.storage_view(),
    {
        self.storage
    }

    /// Device offset of a read or write of `len` bytes at partition offset `offset`, or
    /// `OutOfBounds` when the access leaves the partition.
    pub fn map_access<E>(&self, offset: u32, len: usize) -> (r: Result<u32, PartitionError<E>>)
        requires
            self.wf(),
        ensures
            match r {
                Ok(p) => access_end(offset, len) <= self.len() && p == self.base() + offset,
                Err(e) => e == PartitionError::<E>::OutOfBounds && access_end(offset, len)
                    > self.len(),
            },
    {
        let requested_end = match offset.checked_add(len as u32) {
            Some(end) => end,
            None => return Err(PartitionError::OutOfBounds),
        };
        if requested_end > self.size {
            return Err(PartitionError::OutOfBounds);
        }
        Ok(self.base_offset + offset)
    }

    /// Device range of an erase of partition range `from..to`, or `OutOfBounds` when it
    /// is reversed or leaves the partition.
    pub fn map_erase<E>(&self, from: u32, to: u32) -> (r: Result<(u32, u32), PartitionError<E>>)
        requires
            self.wf(),
        ensures
            match r {
                Ok((pf, pt)) => from <= to <= self.len() && pf == self.base() + from && pt
                    == self.base() + to,
                Err(e) => e == PartitionError::<E>::OutOfBounds && (from > to || to > self.len()),
            },
    {
        if from > to || to > self.size {
            return Err(PartitionError::OutOfBounds);
        }
        Ok((self.base_offset + from, self.base_offset + to))
    }
}

/// Every accepted access lands inside the window `[base, base + size)` of the device.
pub proof fn lemma_access_isolated(base: u32, size: u32, offset: u32, len: usize)
    requires
        base + size <= u32::MAX,
        access_end(offset, len) <= size,
    ensures
        base <= base + offset,
        base + offset + (len as u32) <= base + size,
{
}

} // verus!
