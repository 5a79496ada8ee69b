//! Error definitions for overlay loading and streamable VFS access.

use vstd::prelude::*;

verus! {

/// Errors that can occur during overlay loading, verification, and dispatch.
#[derive(Debug, Clone, Copy, PartialEq, Eq, Structural)]
pub enum OverlayError {
    /// Underlying storage read error (or a buffer too short to hold a record).
    Storage,
    /// Magic signature does not match.
    InvalidMagic,
    /// Format version is unsupported.
    UnsupportedVersion,
    /// Header CRC mismatch.
    HeaderChecksumMismatch,
    /// The machine code payload CRC32 does not match the header expectation.
    PayloadCrcMismatch { expected: u32, calculated: u32 },
    /// The module's machine code size exceeds the capacity of the target RAM slot.
    SlotTooSmall { required: usize, available: usize },
    /// The specified module ID was not found.
    ModuleNotFound(u32),
    /// Invalid alignment for RAM address or entry point.
    InvalidAlignment,
    /// Target slot index is out of range (or no slot can be used).
    InvalidSlotIndex,
}

/// Errors that can occur during VFS asset lookup and streaming.
#[derive(Debug, Clone, Copy, PartialEq, Eq, Structural)]
pub enum VfsError {
    /// Underlying storage read error (or a buffer too short to hold a record).
    Storage,
    /// Superblock magic does not match.
    InvalidMagic,
    /// Superblock version unsupported.
    UnsupportedVersion,
    /// Superblock CRC32 mismatch.
    SuperblockCrcMismatch,
    /// Asset ID not found in VFS index.
    AssetNotFound(u32),
    /// Provided buffer is too small to receive the requested data.
    BufferTooSmall { required: usize, provided: usize },
    /// Read offset is beyond the asset boundary.
    OffsetOutOfBounds,
    /// Asset integrity check failed.
    IntegrityCheckFailed,
}

} // verus!
